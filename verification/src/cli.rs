//! The commands of the program, and what is decided from a command alone.
use vstd::prelude::*;

use crate::console::stands_in;
use crate::error::{checked, CliError, ErrorView};
use crate::text::concat3;

verus! {

// ---- Commands --------------------------------------------------------------

/// A command of the program, with the options that decide how it is run.
#[derive(Debug, Clone)]
pub enum Commands {
    Completions,
    Scan { address: Option<String> },
    Select { from_usb: bool, auto: bool, address: Option<String> },
    Console { no_format: bool, clear: bool, source: Option<String>, list_sources: bool },
    Log { command: LogCommands },
    Param { command: ParamCommands },
    Util { command: UtilCommands },
    Config { command: ConfigCommands },
    Settings,
    Mem { command: MemoryCommands },
    Platform { command: PlatformCommands },
    Test { command: TestCommands },
    Loco,
    Hlc { command: HlCommands },
    Cr { command: CrCommands },
    Debug,
    Lh { command: LighthouseConfigCommands },
    Bootload { command: BootloadCommands },
}

#[derive(Debug, Clone, Copy)]
pub enum LogCommands {
    List,
    Print,
}

#[derive(Debug, Clone, Copy)]
pub enum ParamCommands {
    List,
    Get,
    Assign,
    Store,
    Clear,
}

#[derive(Debug, Clone, Copy)]
pub enum UtilCommands {
    Bingen,
    Binflash,
}

#[derive(Debug, Clone, Copy)]
pub enum ConfigCommands {
    Assign,
    Display,
}

#[derive(Debug, Clone, Copy)]
pub enum MemoryCommands {
    List,
    Read,
    Write,
    Display,
    Erase,
}

#[derive(Debug, Clone, Copy)]
pub enum PlatformCommands {
    Info,
    Reboot,
    PowerOff,
    Sleep,
    Wakeup,
}

#[derive(Debug, Clone, Copy)]
pub enum TestCommands {
    Stability,
    Reboot,
    LinkPerf,
    MemPerf,
}

#[derive(Debug, Clone)]
pub enum HlCommands {
    Arm,
    Disarm,
    Takeoff,
    Land,
    Goto,
    Stop,
    Trajectory { command: TrajectoryCommands },
}

#[derive(Debug, Clone)]
pub enum TrajectoryCommands {
    Upload,
    Run,
    /// With a file, that file is shown; without, the memory of the Crazyflie.
    Display { file: Option<String> },
}

#[derive(Debug, Clone, Copy)]
pub enum CrCommands {
    List,
    Sniff,
    Broadcast,
}

#[derive(Debug, Clone)]
pub enum LighthouseConfigCommands {
    /// With a file, that file is shown; without, the memory of the Crazyflie.
    Display { input: Option<String> },
    Write,
    Read,
}

#[derive(Debug, Clone, Copy)]
pub enum BootloadCommands {
    Info,
    Releases,
    Targets,
    /// A cold start talks to a Crazyflie that does not run its firmware.
    Flash { cold: bool },
}

// ---- Missing arguments -----------------------------------------------------

/// Whether the program must not ask anything: it was told so, or nobody is
/// there to answer.
pub open spec fn is_unattended(flag: bool, stdin_is_terminal: bool) -> bool {
    flag || !stdin_is_terminal
}

/// Whether the program must not ask anything.
pub fn is_non_interactive(flag: bool, stdin_is_terminal: bool) -> (r: bool)
    ensures
        r == is_unattended(flag, stdin_is_terminal),
{
    flag || !stdin_is_terminal
}

/// The error for an argument that is missing while nothing can be asked.
pub open spec fn missing(arg: Seq<char>) -> ErrorView {
    ErrorView::MissingArg("'"@ + arg + "' (running non-interactively)"@)
}

/// What comes of an argument that is missing: nothing where the user can be
/// asked, else a failure.
pub open spec fn requirement(non_interactive: bool, arg: Seq<char>) -> Result<(), ErrorView> {
    if non_interactive {
        Err(missing(arg))
    } else {
        Ok(())
    }
}

/// An argument as given, or nothing where the user is to be asked for it.
pub open spec fn argument<T>(given: Option<T>, non_interactive: bool, name: Seq<char>) -> Result<
    Option<T>,
    ErrorView,
> {
    if given is None && non_interactive {
        Err(missing(name))
    } else {
        Ok(given)
    }
}

/// Fails with `CliError::MissingArg` when the caller would otherwise ask the
/// user but the program is running non-interactively. The message names the
/// missing argument so the caller knows which flag to add.
pub fn require_arg(non_interactive: bool, missing_arg: &str) -> (r: Result<(), CliError>)
    ensures
        checked(r) == requirement(non_interactive, missing_arg@),
{
    if non_interactive {
        return Err(
            CliError::MissingArg(concat3("'", missing_arg, "' (running non-interactively)")),
        );
    }
    Ok(())
}

/// An argument as given on the command line, or nothing where the user is to be
/// asked for it.
pub fn given_or_asked<T>(given: Option<T>, non_interactive: bool, name: &str) -> (r: Result<
    Option<T>,
    CliError,
>)
    ensures
        checked(r) == argument(given, non_interactive, name@),
{
    match given {
        Some(value) => Ok(Some(value)),
        None => match require_arg(non_interactive, name) {
            Ok(_) => Ok(None),
            Err(e) => Err(e),
        },
    }
}

// ---- Streaming -------------------------------------------------------------

/// The commands that run until they are stopped.
pub open spec fn streams(cmd: Commands) -> bool {
    match cmd {
        Commands::Console { clear, list_sources, .. } => !clear && !list_sources,
        Commands::Log { command } => command is Print,
        Commands::Cr { command } => command is Sniff,
        _ => false,
    }
}

/// Streaming commands are open-ended by design (live console, periodic log
/// stream, radio sniffer). When the time limit of one of these is reached, that
/// is the user's intended way to stop the stream. Every other command is
/// bounded: there the time limit means that it got stuck.
pub fn is_streaming_command(cmd: &Commands) -> (r: bool)
    ensures
        r == streams(*cmd),
{
    match cmd {
        Commands::Console { clear, list_sources, .. } => !*clear && !*list_sources,
        Commands::Log { command: LogCommands::Print } => true,
        Commands::Cr { command: CrCommands::Sniff } => true,
        _ => false,
    }
}

// ---- The console command ---------------------------------------------------

/// Two options of the console command that exclude each other.
#[derive(Debug, Clone, Copy, PartialEq, Eq, Structural)]
pub enum ConsoleConflict {
    SourceAndListing,
    ListingAndFormatting,
    SourceAndClearing,
}

/// The first conflict among the options of the console command.
pub open spec fn console_conflict(
    no_format: bool,
    clear: bool,
    source: bool,
    list_sources: bool,
) -> Option<ConsoleConflict> {
    if source && list_sources {
        Some(ConsoleConflict::SourceAndListing)
    } else if list_sources && no_format {
        Some(ConsoleConflict::ListingAndFormatting)
    } else if source && clear {
        Some(ConsoleConflict::SourceAndClearing)
    } else {
        None
    }
}

/// Whether a command has no options that exclude each other.
pub open spec fn is_consistent(cmd: Commands) -> bool {
    match cmd {
        Commands::Console { no_format, clear, source, list_sources } => console_conflict(
            no_format,
            clear,
            source is Some,
            list_sources,
        ) is None,
        _ => true,
    }
}

/// The console command with the given options, or the conflict between them.
pub open spec fn console_command(
    no_format: bool,
    clear: bool,
    source: Option<String>,
    list_sources: bool,
) -> Result<Commands, ConsoleConflict> {
    match console_conflict(no_format, clear, source is Some, list_sources) {
        Some(conflict) => Err(conflict),
        None => Ok(Commands::Console { no_format, clear, source, list_sources }),
    }
}

impl Commands {
    /// The console command with the given options, unless two of them exclude
    /// each other.
    pub fn console(
        no_format: bool,
        clear: bool,
        source: Option<String>,
        list_sources: bool,
    ) -> (r: Result<Commands, ConsoleConflict>)
        ensures
            r == console_command(no_format, clear, source, list_sources),
            r matches Ok(cmd) ==> is_consistent(cmd),
    {
        if source.is_some() && list_sources {
            Err(ConsoleConflict::SourceAndListing)
        } else if list_sources && no_format {
            Err(ConsoleConflict::ListingAndFormatting)
        } else if source.is_some() && clear {
            Err(ConsoleConflict::SourceAndClearing)
        } else {
            Ok(Commands::Console { no_format, clear, source, list_sources })
        }
    }
}

/// What the console command does.
#[derive(Debug, Clone, Copy, PartialEq, Eq, Structural)]
pub enum ConsoleTask {
    /// Delete the preserved history; no connection is made.
    ClearHistory,
    /// List the console sources of the Crazyflie.
    ListSources,
    /// Show one source.
    ShowSource,
    /// Print the preserved history and drop it, then show the legacy console.
    ReplayAndShow,
}

/// What the console command does with the given options.
pub open spec fn console_task_of(clear: bool, source: bool, list_sources: bool) -> ConsoleTask {
    if clear {
        ConsoleTask::ClearHistory
    } else if list_sources {
        ConsoleTask::ListSources
    } else if source {
        ConsoleTask::ShowSource
    } else {
        ConsoleTask::ReplayAndShow
    }
}

/// What the console command does with the given options.
pub fn console_task(clear: bool, source: &Option<String>, list_sources: bool) -> (task: ConsoleTask)
    ensures
        task == console_task_of(clear, source is Some, list_sources),
{
    if clear {
        ConsoleTask::ClearHistory
    } else if list_sources {
        ConsoleTask::ListSources
    } else if source.is_some() {
        ConsoleTask::ShowSource
    } else {
        ConsoleTask::ReplayAndShow
    }
}

/// Whether signals end the command through the clean-up of the session.
pub open spec fn interruptible(cmd: Commands) -> bool {
    cmd matches Commands::Console { source: Some(_), .. }
}

/// Whether signals are to be caught before the command starts, so that enabling
/// a source cannot race with it.
pub fn catches_signals(cmd: &Commands) -> (r: bool)
    ensures
        r == interruptible(*cmd),
{
    match cmd {
        Commands::Console { source: Some(_), .. } => true,
        _ => false,
    }
}

// ---- Connections -----------------------------------------------------------

/// How a command uses a connection to a Crazyflie.
#[derive(Debug, Clone, Copy, PartialEq, Eq, Structural)]
pub enum LinkUse {
    /// No connection is made.
    Unconnected,
    /// A connection is made to the selected Crazyflie and kept to the end.
    Kept,
    /// A connection is made to the Crazyflie on USB and dropped when its radio
    /// settings have been read.
    UsbQuery,
    /// A connection is made to the selected Crazyflie and dropped when its
    /// platform is known.
    PlatformQuery,
}

/// How a command uses a connection.
pub open spec fn link_use_of(cmd: Commands) -> LinkUse {
    match cmd {
        Commands::Select { from_usb: true, .. } => LinkUse::UsbQuery,
        Commands::Bootload { command: BootloadCommands::Flash { cold: false } } =>
            LinkUse::PlatformQuery,
        Commands::Console { clear, .. } => if clear {
            LinkUse::Unconnected
        } else {
            LinkUse::Kept
        },
        Commands::Hlc { command } => if command matches HlCommands::Trajectory {
            command: TrajectoryCommands::Display { file: Some(_) },
        } {
            LinkUse::Unconnected
        } else {
            LinkUse::Kept
        },
        Commands::Lh { command } => if command matches LighthouseConfigCommands::Display {
            input: Some(_),
        } {
            LinkUse::Unconnected
        } else {
            LinkUse::Kept
        },
        Commands::Platform { command } => if command is Info {
            LinkUse::Kept
        } else {
            LinkUse::Unconnected
        },
        Commands::Test { command } => if command is LinkPerf || command is MemPerf {
            LinkUse::Kept
        } else {
            LinkUse::Unconnected
        },
        Commands::Log { .. } => LinkUse::Kept,
        Commands::Param { .. } => LinkUse::Kept,
        Commands::Config { .. } => LinkUse::Kept,
        Commands::Mem { .. } => LinkUse::Kept,
        Commands::Loco => LinkUse::Kept,
        Commands::Debug => LinkUse::Kept,
        _ => LinkUse::Unconnected,
    }
}

/// How a command uses a connection.
pub fn link_use(cmd: &Commands) -> (r: LinkUse)
    ensures
        r == link_use_of(*cmd),
{
    match cmd {
        Commands::Select { from_usb: true, .. } => LinkUse::UsbQuery,
        Commands::Bootload { command: BootloadCommands::Flash { cold: false } } =>
            LinkUse::PlatformQuery,
        Commands::Console { clear: true, .. } => LinkUse::Unconnected,
        Commands::Console { clear: false, .. } => LinkUse::Kept,
        Commands::Hlc {
            command: HlCommands::Trajectory {
                command: TrajectoryCommands::Display { file: Some(_) },
            },
        } => LinkUse::Unconnected,
        Commands::Hlc { .. } => LinkUse::Kept,
        Commands::Lh { command: LighthouseConfigCommands::Display { input: Some(_) } } =>
            LinkUse::Unconnected,
        Commands::Lh { .. } => LinkUse::Kept,
        Commands::Platform { command: PlatformCommands::Info } => LinkUse::Kept,
        Commands::Test { command: TestCommands::LinkPerf } => LinkUse::Kept,
        Commands::Test { command: TestCommands::MemPerf } => LinkUse::Kept,
        Commands::Log { .. } | Commands::Param { .. } | Commands::Config { .. } => LinkUse::Kept,
        Commands::Mem { .. } | Commands::Loco | Commands::Debug => LinkUse::Kept,
        _ => LinkUse::Unconnected,
    }
}

// ---- Laws ------------------------------------------------------------------

/// A sourced console is a streaming command: its options leave nothing else to
/// do.
pub proof fn sourced_console_streams(cmd: Commands)
    requires
        is_consistent(cmd),
        interruptible(cmd),
    ensures
        streams(cmd),
        link_use_of(cmd) == LinkUse::Kept,
{
}

/// Listing the console sources is bounded, and so is clearing the history, which
/// makes no connection.
pub proof fn listing_and_clearing_are_bounded(
    no_format: bool,
    clear: bool,
    source: Option<String>,
    list_sources: bool,
)
    ensures
        ({
            let cmd = Commands::Console { no_format, clear, source, list_sources };
            &&& list_sources || clear ==> !streams(cmd)
            &&& clear ==> link_use_of(cmd) == LinkUse::Unconnected
            &&& clear ==> console_task_of(clear, source is Some, list_sources)
                == ConsoleTask::ClearHistory
        }),
{
}

/// The preserved history is printed and dropped by the legacy console alone: a
/// sourced console neither prints nor clears it, nor does the list of sources.
pub proof fn sources_leave_the_history_alone(
    no_format: bool,
    clear: bool,
    source: bool,
    list_sources: bool,
)
    requires
        source || list_sources,
        console_conflict(no_format, clear, source, list_sources) is None,
    ensures
        console_task_of(clear, source, list_sources) != ConsoleTask::ReplayAndShow,
        source ==> console_task_of(clear, source, list_sources) == ConsoleTask::ShowSource,
{
}

/// Every streaming console or log command holds a connection while it runs; the
/// radio sniffer listens without one.
pub proof fn streams_are_connected(cmd: Commands)
    requires
        streams(cmd),
    ensures
        link_use_of(cmd) == LinkUse::Kept || cmd is Cr,
{
}

/// Nothing is asked if the program was told so, nor if nobody is there; a user
/// who is there and did not forbid it is asked.
pub proof fn questions_need_a_user(flag: bool, stdin_is_terminal: bool)
    ensures
        flag ==> is_unattended(flag, stdin_is_terminal),
        !stdin_is_terminal ==> is_unattended(flag, stdin_is_terminal),
        stdin_is_terminal && !flag ==> !is_unattended(flag, stdin_is_terminal),
{
}

/// A missing argument is an error of its class that names the argument, exactly
/// where nobody can be asked. An argument that was given is taken as it is, and
/// nobody is asked for it.
pub proof fn missing_arguments_are_named<T>(given: T, non_interactive: bool, name: Seq<char>)
    ensures
        requirement(non_interactive, name) is Err <==> non_interactive,
        argument(Some(given), non_interactive, name) == Ok::<Option<T>, ErrorView>(Some(given)),
        argument(None::<T>, false, name) == Ok::<Option<T>, ErrorView>(None),
        requirement(true, name) matches Err(ErrorView::MissingArg(text)) && stands_in(name, text),
        argument(None::<T>, true, name) matches Err(ErrorView::MissingArg(text)) && stands_in(
            name,
            text,
        ),
{
    assert("'"@ + name + "' (running non-interactively)"@ == "'"@ + name
        + "' (running non-interactively)"@);
}

/// The live outputs are the streaming commands: a console that neither clears
/// the history nor lists sources, whichever console it shows and however, the
/// log as it is printed, and the radio sniffer. Every other command is bounded.
pub proof fn live_output_streams(cmd: Commands)
    ensures
        cmd matches Commands::Console { clear, list_sources, .. } ==> (streams(cmd) <==> !(clear
            || list_sources)),
        cmd matches Commands::Log { command } ==> (streams(cmd) <==> command is Print),
        cmd matches Commands::Cr { command } ==> (streams(cmd) <==> command is Sniff),
        streams(cmd) ==> cmd is Console || cmd is Log || cmd is Cr,
{
}

/// Options of the console exclude each other in three ways, and the conflict
/// that is reported is one that is there.
pub proof fn conflicts_are_real(no_format: bool, clear: bool, source: bool, list_sources: bool)
    ensures
        ({
            let conflict = console_conflict(no_format, clear, source, list_sources);
            &&& source && list_sources ==> conflict is Some
            &&& list_sources && no_format ==> conflict is Some
            &&& source && clear ==> conflict is Some
            &&& conflict == Some(ConsoleConflict::SourceAndListing) ==> source && list_sources
            &&& conflict == Some(ConsoleConflict::ListingAndFormatting) ==> list_sources
                && no_format
            &&& conflict == Some(ConsoleConflict::SourceAndClearing) ==> source && clear
        }),
{
}

/// A console command does what its options say: it deletes the history exactly
/// where that was asked for, else lists the sources exactly where that was asked
/// for, else shows the source that was asked for, and the legacy console where
/// none was.
pub proof fn console_does_what_it_is_asked(
    no_format: bool,
    clear: bool,
    source: bool,
    list_sources: bool,
)
    requires
        console_conflict(no_format, clear, source, list_sources) is None,
    ensures
        ({
            let task = console_task_of(clear, source, list_sources);
            &&& task is ClearHistory <==> clear
            &&& task is ListSources <==> list_sources && !clear
            &&& task is ShowSource <==> source
            &&& task is ReplayAndShow <==> !clear && !source && !list_sources
        }),
{
}

/// Signals are caught for a console with a source and for nothing else.
pub proof fn signals_are_caught_for_sources(cmd: Commands)
    ensures
        cmd matches Commands::Console { source, .. } ==> (interruptible(cmd) <==> source is Some),
        interruptible(cmd) ==> cmd is Console,
{
}

/// Every command that acts on the selected Crazyflie holds a connection to it
/// while it runs.
pub proof fn commands_on_the_crazyflie_are_connected(cmd: Commands)
    ensures
        cmd is Param || cmd is Log || cmd is Config || cmd is Mem || cmd is Loco || cmd is Debug
            ==> link_use_of(cmd) is Kept,
        cmd matches Commands::Console { clear: false, .. } ==> link_use_of(cmd) is Kept,
        cmd matches Commands::Platform { command: PlatformCommands::Info } ==> link_use_of(cmd)
            is Kept,
        cmd matches Commands::Test { command: TestCommands::LinkPerf } ==> link_use_of(cmd) is Kept,
        cmd matches Commands::Test { command: TestCommands::MemPerf } ==> link_use_of(cmd) is Kept,
        cmd matches Commands::Hlc { command } ==> (link_use_of(cmd) is Kept <==> !(
        command matches HlCommands::Trajectory {
            command: TrajectoryCommands::Display { file: Some(_) },
        })),
        cmd matches Commands::Lh { command } ==> (link_use_of(cmd) is Kept <==> !(
        command matches LighthouseConfigCommands::Display { input: Some(_) })),
        link_use_of(cmd) is UsbQuery <==> (cmd matches Commands::Select { from_usb, .. }
            && from_usb),
        link_use_of(cmd) is PlatformQuery <==> (cmd matches Commands::Bootload {
            command: BootloadCommands::Flash { cold },
        } && !cold),
{
}

/// No connection is made by the commands that work without a Crazyflie, or that
/// talk to it in another way, and by no others: completion scripts, scanning,
/// selecting without USB, settings, tools, the radio itself, clearing the history,
/// showing files, power and reboot, the tests that reboot, cold flashing and the
/// questions to the bootloader.
pub proof fn unconnected_commands_need_no_link(cmd: Commands)
    ensures
        link_use_of(cmd) is Unconnected <==> match cmd {
            Commands::Completions => true,
            Commands::Scan { .. } => true,
            Commands::Select { from_usb, .. } => !from_usb,
            Commands::Settings => true,
            Commands::Util { .. } => true,
            Commands::Cr { .. } => true,
            Commands::Console { clear, .. } => clear,
            Commands::Platform { command } => !(command is Info),
            Commands::Test { command } => command is Stability || command is Reboot,
            Commands::Hlc { command } => command matches HlCommands::Trajectory {
                command: TrajectoryCommands::Display { file: Some(_) },
            },
            Commands::Lh { command } => command matches LighthouseConfigCommands::Display {
                input: Some(_),
            },
            Commands::Bootload { command } => match command {
                BootloadCommands::Flash { cold } => cold,
                _ => true,
            },
            Commands::Log { .. } => false,
            Commands::Param { .. } => false,
            Commands::Config { .. } => false,
            Commands::Mem { .. } => false,
            Commands::Loco => false,
            Commands::Debug => false,
        },
{
}

/// A console command has the options that it was given, and is refused exactly
/// where two of them exclude each other.
pub proof fn console_commands_keep_their_options(
    no_format: bool,
    clear: bool,
    source: Option<String>,
    list_sources: bool,
)
    ensures
        console_command(no_format, clear, source, list_sources) matches Ok(cmd) ==> cmd == (
        Commands::Console { no_format, clear, source, list_sources }),
        console_command(no_format, clear, source, list_sources) is Err <==> (source is Some
            && list_sources) || (list_sources && no_format) || (source is Some && clear),
{
}

}
