//! How a command ends: by itself, by a signal or by its time limit, and what is
//! done with the connection afterwards.
use vstd::prelude::*;

use crate::cli::{streams, Commands, CrCommands, LogCommands};
use crate::console::stands_in;
use crate::error::{chain_code, classified_error_wins, Cause, CliError, ErrorView};
use crate::number::{decimal, decimal_of};
use crate::text::{concat, concat3, opt_text};

verus! {

// ---- Signals ---------------------------------------------------------------

/// A signal that ends a command.
#[derive(Debug, Clone, Copy, PartialEq, Eq, Structural)]
pub enum Signal {
    Interrupt,
    Terminate,
}

/// The error with which a command ends on a signal.
pub open spec fn signal_error(signal: Signal) -> CliError {
    match signal {
        Signal::Interrupt => CliError::Interrupted,
        Signal::Terminate => CliError::Terminated,
    }
}

/// The error with which a command ends on a signal.
pub fn interruption(signal: Signal) -> (err: CliError)
    ensures
        err == signal_error(signal),
{
    match signal {
        Signal::Interrupt => CliError::Interrupted,
        Signal::Terminate => CliError::Terminated,
    }
}

// ---- The end of a command --------------------------------------------------

/// What is known of a running command at one moment: what the wait for signals
/// came to, what the command itself came to, and whether the time limit, if
/// there is one, has passed.
pub struct Progress<E> {
    pub interruption: Option<Result<(), E>>,
    pub body: Option<Result<(), E>>,
    pub time_is_up: bool,
}

/// Why a command failed.
#[derive(Debug)]
pub enum CommandError<E> {
    /// The command, or the wait for signals, failed.
    Failed(E),
    /// The command did not complete within its time limit.
    TimedOut(CliError),
}

/// The message for a command that got stuck.
pub open spec fn stuck(ms: u64) -> Seq<char> {
    "command did not complete within "@ + decimal_of(ms as nat) + " ms"@
}

/// How a command ends, if it has ended: `r` is what `run_command` decides.
pub open spec fn decided<E>(
    progress: Progress<E>,
    timeout_ms: Option<u64>,
    streaming: bool,
    r: Option<Result<(), CommandError<E>>>,
) -> bool {
    match (progress.interruption, progress.body) {
        (Some(ended), _) => r == Some(failed_or_done(ended)),
        (None, Some(ended)) => r == Some(failed_or_done(ended)),
        (None, None) => if !(timeout_ms is Some && progress.time_is_up) {
            r is None
        } else if streaming {
            r == Some(Ok::<(), CommandError<E>>(()))
        } else {
            r matches Some(Err(CommandError::TimedOut(e))) && e@ == ErrorView::Timeout(
                stuck(timeout_ms->0),
            )
        },
    }
}

/// The end of a command that came to a result of its own.
pub open spec fn failed_or_done<E>(ended: Result<(), E>) -> Result<(), CommandError<E>> {
    match ended {
        Ok(_) => Ok(()),
        Err(e) => Err(CommandError::Failed(e)),
    }
}

/// Decides how a command ends. A signal comes before anything else, so that it
/// is handled before the command goes on; the result of the command comes
/// before its time limit. Nothing is decided while the command still runs.
pub fn run_command<E>(progress: Progress<E>, timeout_ms: Option<u64>, streaming: bool) -> (r: Option<
    Result<(), CommandError<E>>,
>)
    ensures
        decided(progress, timeout_ms, streaming, r),
{
    if let Some(ended) = progress.interruption {
        return Some(
            match ended {
                Ok(_) => Ok(()),
                Err(e) => Err(CommandError::Failed(e)),
            },
        );
    }
    if let Some(ended) = progress.body {
        return Some(
            match ended {
                Ok(_) => Ok(()),
                Err(e) => Err(CommandError::Failed(e)),
            },
        );
    }
    match timeout_ms {
        Some(ms) => if !progress.time_is_up {
            None
        } else if streaming {
            Some(Ok(()))
        } else {
            let text = concat3(
                "command did not complete within ",
                decimal(ms).as_str(),
                " ms",
            );
            Some(Err(CommandError::TimedOut(CliError::Timeout(text))))
        },
        None => None,
    }
}

// ---- Clean-up --------------------------------------------------------------

/// How long a console source is given to be disabled, in milliseconds.
pub const SOURCE_DISABLE_TIMEOUT_MS: u64 = 1000;

/// Where the clean-up of a session stands.
#[derive(Debug, Clone, Copy, PartialEq, Eq, Structural)]
pub enum CleanupPhase {
    /// The console source is being disabled.
    Disabling,
    /// The connection is being closed.
    Disconnecting,
    Finished,
}

/// What came of the work of a phase.
#[derive(Debug)]
pub enum CleanupEvent {
    Disabled,
    DisableFailed(String),
    DisableTimedOut,
    Disconnected,
}

/// The phase that follows.
pub open spec fn next_phase(phase: CleanupPhase, event: CleanupEvent) -> CleanupPhase {
    match (phase, event) {
        (CleanupPhase::Disabling, CleanupEvent::Disconnected) => CleanupPhase::Disabling,
        (CleanupPhase::Disabling, _) => CleanupPhase::Disconnecting,
        (CleanupPhase::Disconnecting, CleanupEvent::Disconnected) => CleanupPhase::Finished,
        (other, _) => other,
    }
}

/// What the user is warned of.
pub open spec fn cleanup_warning(phase: CleanupPhase, event: CleanupEvent) -> Option<Seq<char>> {
    match (phase, event) {
        (CleanupPhase::Disabling, CleanupEvent::DisableFailed(detail)) => Some(
            "Warning: could not disable console source: "@ + detail@,
        ),
        (CleanupPhase::Disabling, CleanupEvent::DisableTimedOut) => Some(
            "Warning: timed out while disabling console source"@,
        ),
        _ => None,
    }
}

/// Takes the clean-up one step further. Whatever came of disabling the source,
/// the connection is closed next.
pub fn cleanup(phase: CleanupPhase, event: &CleanupEvent) -> (r: (CleanupPhase, Option<String>))
    ensures
        r.0 == next_phase(phase, *event),
        opt_text(r.1) == cleanup_warning(phase, *event),
{
    match (phase, event) {
        (CleanupPhase::Disabling, CleanupEvent::Disconnected) => (CleanupPhase::Disabling, None),
        (CleanupPhase::Disabling, CleanupEvent::Disabled) => (CleanupPhase::Disconnecting, None),
        (CleanupPhase::Disabling, CleanupEvent::DisableFailed(detail)) => (
            CleanupPhase::Disconnecting,
            Some(concat("Warning: could not disable console source: ", detail.as_str())),
        ),
        (CleanupPhase::Disabling, CleanupEvent::DisableTimedOut) => (
            CleanupPhase::Disconnecting,
            Some("Warning: timed out while disabling console source".to_owned()),
        ),
        (CleanupPhase::Disconnecting, CleanupEvent::Disconnected) => (CleanupPhase::Finished, None),
        (other, _) => (other, None),
    }
}

// ---- Laws ------------------------------------------------------------------

/// A program that a signal ended exits with the code of that signal, and one
/// that got stuck with 40, whatever lies behind the error.
pub proof fn endings_have_their_exit_codes(signal: Signal, text: String, behind: Seq<Cause>)
    ensures
        chain_code(seq![Cause::Cli(signal_error(signal))] + behind) == (match signal {
            Signal::Interrupt => 130i32,
            Signal::Terminate => 143i32,
        }),
        chain_code(seq![Cause::Cli(CliError::Timeout(text))] + behind) == 40,
{
    let none = Seq::<Cause>::empty();
    let ended = seq![Cause::Cli(signal_error(signal))];
    let stuck = seq![Cause::Cli(CliError::Timeout(text))];
    classified_error_wins(none, signal_error(signal), behind);
    classified_error_wins(none, CliError::Timeout(text), behind);
    assert(none + ended + behind =~= ended + behind);
    assert(none + stuck + behind =~= stuck + behind);
}

/// When its time limit passes, a streaming command has done its work, and any
/// other command is stuck, which is exit code 40. Without a limit, time ends
/// nothing.
pub proof fn time_limits_end_commands<E>(
    cmd: Commands,
    timeout_ms: Option<u64>,
    r: Option<Result<(), CommandError<E>>>,
)
    requires
        decided(
            Progress { interruption: None, body: None, time_is_up: true },
            timeout_ms,
            streams(cmd),
            r,
        ),
    ensures
        timeout_ms is None ==> r is None,
        timeout_ms is Some && streams(cmd) ==> r == Some(Ok::<(), CommandError<E>>(())),
        timeout_ms is Some && !streams(cmd) ==> (r matches Some(Err(CommandError::TimedOut(e)))
            && e.code() == 40),
{
}

/// A signal ends a command before anything else does, whatever else has come of
/// it, and with the error of the signal.
pub proof fn signals_come_first(
    signal: Signal,
    progress: Progress<CliError>,
    timeout_ms: Option<u64>,
    streaming: bool,
    r: Option<Result<(), CommandError<CliError>>>,
)
    requires
        progress.interruption == Some(Err::<(), CliError>(signal_error(signal))),
        decided(progress, timeout_ms, streaming, r),
    ensures
        r == Some(Err::<(), CommandError<CliError>>(CommandError::Failed(signal_error(signal)))),
{
}

/// The result of a command is handed on as it is, streaming or not, even where
/// the time limit has passed as well.
pub proof fn results_are_preserved<E>(
    result: Result<(), E>,
    time_is_up: bool,
    timeout_ms: Option<u64>,
    streaming: bool,
    r: Option<Result<(), CommandError<E>>>,
)
    requires
        decided(
            Progress { interruption: None, body: Some(result), time_is_up },
            timeout_ms,
            streaming,
            r,
        ),
    ensures
        result is Ok ==> r == Some(Ok::<(), CommandError<E>>(())),
        result matches Err(e) ==> r == Some(
            Err::<(), CommandError<E>>(CommandError::Failed(e)),
        ),
{
}

/// Whatever comes of disabling the source, the connection is closed next and
/// then the clean-up is finished.
pub proof fn disconnect_follows_every_disable(outcome: CleanupEvent)
    requires
        !(outcome is Disconnected),
    ensures
        next_phase(CleanupPhase::Disabling, outcome) == CleanupPhase::Disconnecting,
        next_phase(
            next_phase(CleanupPhase::Disabling, outcome),
            CleanupEvent::Disconnected,
        ) == CleanupPhase::Finished,
{
}

/// The clean-up does not finish before the source has been dealt with.
pub proof fn disabling_comes_before_disconnecting(event: CleanupEvent)
    ensures
        next_phase(CleanupPhase::Disabling, event) != CleanupPhase::Finished,
        cleanup_warning(CleanupPhase::Disabling, event) is Some ==> next_phase(
            CleanupPhase::Disabling,
            event,
        ) == CleanupPhase::Disconnecting,
{
}

/// When the time limit of a live console passes, the program has done what it
/// was asked to do, with or without a source and however the text is shown.
pub proof fn live_console_ends_well_at_its_limit<E>(
    no_format: bool,
    source: Option<String>,
    ms: u64,
    r: Option<Result<(), CommandError<E>>>,
)
    requires
        decided(
            Progress { interruption: None, body: None, time_is_up: true },
            Some(ms),
            streams(Commands::Console { no_format, clear: false, source, list_sources: false }),
            r,
        ),
    ensures
        r == Some(Ok::<(), CommandError<E>>(())),
{
}

/// When the time limit of a printed log or of the radio sniffer passes, the
/// program has done what it was asked to do.
pub proof fn live_log_and_sniffer_end_well_at_their_limit<E>(
    cmd: Commands,
    ms: u64,
    r: Option<Result<(), CommandError<E>>>,
)
    requires
        cmd == (Commands::Log { command: LogCommands::Print }) || cmd == (Commands::Cr {
            command: CrCommands::Sniff,
        }),
        decided(
            Progress { interruption: None, body: None, time_is_up: true },
            Some(ms),
            streams(cmd),
            r,
        ),
    ensures
        r == Some(Ok::<(), CommandError<E>>(())),
{
}

/// When the time limit passes before the sources are listed, or before any
/// command that is no live output has come to an end, that is a timeout with exit
/// code 40.
pub proof fn stuck_commands_time_out<E>(
    cmd: Commands,
    ms: u64,
    r: Option<Result<(), CommandError<E>>>,
)
    requires
        match cmd {
            Commands::Console { clear, list_sources, .. } => clear || list_sources,
            Commands::Log { command } => command is List,
            Commands::Cr { command } => command is List || command is Broadcast,
            _ => true,
        },
        decided(
            Progress { interruption: None, body: None, time_is_up: true },
            Some(ms),
            streams(cmd),
            r,
        ),
    ensures
        r matches Some(Err(CommandError::TimedOut(e))) && e is Timeout && e.code() == 40
            && stands_in(decimal_of(ms as nat), e->Timeout_0@),
{
}

/// While nothing has ended a command and its limit has not passed, it goes on.
pub proof fn running_commands_go_on<E>(
    timeout_ms: Option<u64>,
    streaming: bool,
    r: Option<Result<(), CommandError<E>>>,
)
    requires
        decided(
            Progress { interruption: None, body: None, time_is_up: false },
            timeout_ms,
            streaming,
            r,
        ),
    ensures
        r is None,
{
}

/// An interrupt is not a termination, and each signal has its own error.
pub proof fn signals_have_their_errors(signal: Signal)
    ensures
        signal_error(signal) is Interrupted <==> signal is Interrupt,
        signal_error(signal) is Terminated <==> signal is Terminate,
{
}

/// The user is warned exactly where the source could not be disabled, and is told
/// why where that is known.
pub proof fn trouble_with_the_source_is_reported(event: CleanupEvent)
    ensures
        cleanup_warning(CleanupPhase::Disabling, event) is Some <==> event is DisableFailed
            || event is DisableTimedOut,
        event matches CleanupEvent::DisableFailed(detail) ==> (cleanup_warning(
            CleanupPhase::Disabling,
            event,
        ) matches Some(text) && stands_in(detail@, text)),
        cleanup_warning(CleanupPhase::Disconnecting, event) is None,
        next_phase(CleanupPhase::Disconnecting, event) is Finished <==> event is Disconnected,
        !(event is Disconnected) ==> next_phase(CleanupPhase::Disconnecting, event)
            is Disconnecting,
{
    if let CleanupEvent::DisableFailed(detail) = event {
        let text = "Warning: could not disable console source: "@ + detail@;
        assert(text =~= "Warning: could not disable console source: "@ + detail@ + Seq::empty());
    }
}

}
