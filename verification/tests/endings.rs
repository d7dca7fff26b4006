//! How commands end, and what becomes of the connection.
use cfcli::error::{classify_exit_code, exit_status, Cause, CliError, DeviceError};
use cfcli::lifecycle::{
    cleanup, interruption, run_command, CleanupEvent, CleanupPhase, CommandError, Progress, Signal,
    SOURCE_DISABLE_TIMEOUT_MS,
};
use cfcli::session::{
    connection_error, history_to_append, history_to_replay, history_warning, LinkAction, Session,
};

fn running() -> Progress<CliError> {
    Progress { interruption: None, body: None, time_is_up: false }
}

fn exit_code(ended: Result<(), CommandError<CliError>>) -> i32 {
    match ended {
        Ok(()) => exit_status(&Ok(())),
        Err(CommandError::Failed(e)) | Err(CommandError::TimedOut(e)) => {
            exit_status(&Err(vec![Cause::Cli(e)]))
        }
    }
}

#[test]
fn interruption_during_enable_reaches_disable_then_disconnect() {
    let mut events = Vec::new();
    let mut session = Session::new(false);
    session.link_up();
    session.enabling_source(1);
    events.push("enable");
    assert!(run_command(running(), None, true).is_none());
    events.push("interrupt");
    let progress = Progress { interruption: Some(Err(interruption(Signal::Interrupt))), ..running() };
    let error = run_command(progress, None, true).expect("interruption must reach cleanup");
    for action in session.ended() {
        match action {
            LinkAction::DisableSource(source) => {
                assert_eq!(source, 1);
                events.push("disable");
            }
            LinkAction::SaveHistory => events.push("save"),
            LinkAction::Disconnect => events.push("disconnect"),
        }
    }
    assert_eq!(exit_code(error), 130);
    assert_eq!(events, ["enable", "interrupt", "disable", "disconnect"]);
}

#[test]
fn timeout_keeps_streaming_and_bounded_command_exit_behavior() {
    let stuck = || Progress { time_is_up: true, ..running() };
    assert!(run_command(stuck(), Some(1), true).unwrap().is_ok());
    let error = run_command(stuck(), Some(1), false).unwrap();
    assert_eq!(exit_code(error), 40);
}

#[test]
fn command_errors_are_preserved() {
    let progress = Progress { body: Some(Err(CliError::NotFound("source".into()))), ..running() };
    let error = run_command(progress, None, true).unwrap();
    assert_eq!(exit_code(error), 20);
}

#[test]
fn failed_disable_still_disconnects() {
    let event = CleanupEvent::DisableFailed("link lost".to_string());
    let (phase, warning) = cleanup(CleanupPhase::Disabling, &event);
    assert_eq!(phase, CleanupPhase::Disconnecting);
    assert_eq!(
        warning.as_deref(),
        Some("Warning: could not disable console source: link lost")
    );
}

#[test]
fn stalled_disable_is_bounded_before_disconnect() {
    assert_eq!(SOURCE_DISABLE_TIMEOUT_MS, 1000);
    let (phase, warning) = cleanup(CleanupPhase::Disabling, &CleanupEvent::DisableTimedOut);
    assert_eq!(phase, CleanupPhase::Disconnecting, "disable must be bounded");
    assert_eq!(
        warning.as_deref(),
        Some("Warning: timed out while disabling console source")
    );
    assert_eq!(
        cleanup(phase, &CleanupEvent::Disconnected),
        (CleanupPhase::Finished, None)
    );
}

#[test]
fn clean_disable_warns_of_nothing() {
    assert_eq!(
        cleanup(CleanupPhase::Disabling, &CleanupEvent::Disabled),
        (CleanupPhase::Disconnecting, None)
    );
}

#[test]
fn the_end_is_decided_in_order() {
    let all = Progress {
        interruption: Some(Err(CliError::Terminated)),
        body: Some(Ok(())),
        time_is_up: true,
    };
    assert_eq!(exit_code(run_command(all, Some(5), false).unwrap()), 143);
    let done = Progress { body: Some(Ok(())), time_is_up: true, ..running() };
    assert_eq!(exit_code(run_command(done, Some(5), false).unwrap()), 0);
    let unlimited = Progress { time_is_up: true, ..running() };
    assert!(run_command(unlimited, None, false).is_none());
    assert!(run_command(running(), Some(5), false).is_none());
}

#[test]
fn the_timeout_names_its_limit() {
    let stuck = Progress { time_is_up: true, ..running() };
    match run_command(stuck, Some(3000), false) {
        Some(Err(CommandError::TimedOut(e))) => {
            assert_eq!(e.message(), "timeout: command did not complete within 3000 ms");
        }
        _ => panic!("a bounded command must time out"),
    }
}

#[test]
fn signals_become_errors() {
    assert_eq!(interruption(Signal::Interrupt), CliError::Interrupted);
    assert_eq!(interruption(Signal::Terminate), CliError::Terminated);
}

#[test]
fn preserved_history_is_saved_before_each_close() {
    let mut session: Session<u8> = Session::new(true);
    session.link_up();
    assert_eq!(session.query_done(), vec![LinkAction::SaveHistory, LinkAction::Disconnect]);
    assert_eq!(session.query_done(), vec![]);
    assert_eq!(session.ended(), vec![]);
    session.link_up();
    session.enabling_source(4);
    assert_eq!(
        session.ended(),
        vec![LinkAction::DisableSource(4), LinkAction::SaveHistory, LinkAction::Disconnect]
    );
    assert_eq!(session.ended(), vec![]);
}

#[test]
fn a_source_without_a_connection_is_not_disabled() {
    let mut session = Session::new(false);
    session.enabling_source(4);
    assert_eq!(session.ended(), vec![]);
}

#[test]
fn history_is_replayed_once() {
    assert_eq!(history_to_append(Some("boot\n".to_string())), Some("boot\n".to_string()));
    assert_eq!(history_to_append(Some(String::new())), None);
    assert_eq!(history_to_append(None), None);
    assert_eq!(history_to_replay(Some("boot\n".to_string())), ("boot\n".to_string(), true));
    assert_eq!(history_to_replay(Some(String::new())), (String::new(), false));
    assert_eq!(history_to_replay(None), (String::new(), false));
    assert_eq!(
        history_warning("disk full"),
        "Warning: could not save console history: disk full"
    );
}

#[test]
fn connection_failures_exit_with_10() {
    let error = connection_error("usb://0", "timeout");
    assert_eq!(error.message(), "connection error: connecting to usb://0: timeout");
    assert_eq!(error.exit_code(), 10);
}

#[test]
fn every_error_has_its_code_and_text() {
    let cases = [
        (CliError::Connection("c".into()), 10, "connection error: c"),
        (CliError::NotFound("n".into()), 20, "not found: n"),
        (CliError::MissingArg("m".into()), 30, "missing argument: m"),
        (CliError::InvalidValue("v".into()), 30, "invalid value: v"),
        (CliError::Timeout("t".into()), 40, "timeout: t"),
        (CliError::Interrupted, 130, "interrupted"),
        (CliError::Terminated, 143, "terminated"),
    ];
    for (error, code, text) in cases {
        assert_eq!(error.exit_code(), code);
        assert_eq!(error.message(), text);
    }
}

#[test]
fn device_errors_are_told_apart() {
    let code = |e: crazyflie_lib::Error| classify_exit_code(&[Cause::device(&e)]);
    assert_eq!(code(crazyflie_lib::Error::VariableNotFound), 20);
    assert_eq!(code(crazyflie_lib::Error::Disconnected), 10);
    assert_eq!(code(crazyflie_lib::Error::LinkError(crazyflie_link::Error::Timeout)), 10);
    assert_eq!(code(crazyflie_lib::Error::InvalidArgument("x".into())), 30);
    assert_eq!(code(crazyflie_lib::Error::InvalidParameter("x".into())), 30);
    assert_eq!(code(crazyflie_lib::Error::ConversionError("x".into())), 30);
    assert_eq!(code(crazyflie_lib::Error::ParamError("x".into())), 1);
    assert_eq!(code(crazyflie_lib::Error::LogError("x".into())), 1);
    assert_eq!(code(crazyflie_lib::Error::Timeout), 1);
    let version = crazyflie_lib::Error::ProtocolVersionNotSupported {
        min_supported: 1,
        max_supported: 2,
        found: 3,
    };
    let link = crazyflie_lib::Error::LinkError(crazyflie_link::Error::InvalidUri);
    let kinds = [
        (version, DeviceError::ProtocolVersionNotSupported),
        (crazyflie_lib::Error::ProtocolError("x".into()), DeviceError::Protocol),
        (crazyflie_lib::Error::ParamError("x".into()), DeviceError::Param),
        (crazyflie_lib::Error::LogError("x".into()), DeviceError::Log),
        (crazyflie_lib::Error::ConversionError("x".into()), DeviceError::Conversion),
        (link, DeviceError::Link),
        (crazyflie_lib::Error::Disconnected, DeviceError::Disconnected),
        (crazyflie_lib::Error::VariableNotFound, DeviceError::VariableNotFound),
        (crazyflie_lib::Error::SystemError("x".into()), DeviceError::System),
        (
            crazyflie_lib::Error::AppchannelPacketTooLarge,
            DeviceError::AppchannelPacketTooLarge,
        ),
        (crazyflie_lib::Error::InvalidArgument("x".into()), DeviceError::InvalidArgument),
        (crazyflie_lib::Error::Timeout, DeviceError::Timeout),
        (crazyflie_lib::Error::MemoryError("x".into()), DeviceError::Memory),
        (crazyflie_lib::Error::InvalidParameter("x".into()), DeviceError::InvalidParameter),
    ];
    for (error, kind) in kinds {
        assert_eq!(Cause::device(&error), Cause::Device(kind));
    }
}

#[test]
fn the_first_deciding_cause_wins() {
    let other = || Cause::Other("while reading".to_string());
    let chain = [
        other(),
        Cause::Device(DeviceError::Log),
        Cause::Cli(CliError::NotFound("x".into())),
        Cause::Device(DeviceError::Link),
    ];
    assert_eq!(classify_exit_code(&chain), 20);
    let annotated = [
        Cause::Device(DeviceError::Disconnected),
        Cause::Cli(CliError::NotFound("x".into())),
        Cause::Cli(CliError::Timeout("x".into())),
    ];
    assert_eq!(classify_exit_code(&annotated), 20);
    let devices = [Cause::Device(DeviceError::Conversion), Cause::Device(DeviceError::Link)];
    assert_eq!(classify_exit_code(&devices), 30);
    assert_eq!(classify_exit_code(&[other()]), 1);
    assert_eq!(classify_exit_code(&[]), 1);
}
