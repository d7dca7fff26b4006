//! The commands: streaming, conflicts between options, connections.
use cfcli::cli::{
    catches_signals, console_task, given_or_asked, is_non_interactive, is_streaming_command,
    link_use, require_arg, BootloadCommands, Commands, ConsoleConflict, ConsoleTask, CrCommands,
    HlCommands, LighthouseConfigCommands, LinkUse, LogCommands, MemoryCommands, ParamCommands,
    PlatformCommands, TestCommands, TrajectoryCommands,
};
use cfcli::error::CliError;

/// Reads the arguments of the console command as the program does, and leaves
/// it to the library whether they go together.
fn parse_console<const N: usize>(argv: [&str; N]) -> Result<Commands, ConsoleConflict> {
    let flag = |name: &'static str| {
        clap::Arg::new(name).long(name).action(clap::ArgAction::SetTrue)
    };
    let console = clap::Command::new("console")
        .arg(flag("no-format"))
        .arg(flag("clear"))
        .arg(flag("list-sources"))
        .arg(clap::Arg::new("source").long("source").action(clap::ArgAction::Set));
    let matches = clap::Command::new("cfcli")
        .subcommand(console)
        .try_get_matches_from(argv)
        .expect("the arguments are well-formed");
    let console = matches.subcommand_matches("console").expect("the console command");
    Commands::console(
        console.get_flag("no-format"),
        console.get_flag("clear"),
        console.get_one::<String>("source").cloned(),
        console.get_flag("list-sources"),
    )
}

#[test]
fn sourced_console_is_a_streaming_command() {
    let command = parse_console(["cfcli", "console", "--source", "deck:bcCam"]).unwrap();

    assert!(is_streaming_command(&command));
}

#[test]
fn listing_console_sources_is_a_bounded_command() {
    let command = parse_console(["cfcli", "console", "--list-sources"]).unwrap();

    assert!(!is_streaming_command(&command));
}

#[test]
fn console_source_conflicts_with_source_listing() {
    let result = parse_console(["cfcli", "console", "--source", "deck:bcCam", "--list-sources"]);

    assert!(result.is_err());
}

#[test]
fn source_listing_conflicts_with_console_formatting() {
    let result = parse_console(["cfcli", "console", "--list-sources", "--no-format"]);

    assert!(result.is_err());
}

#[test]
fn sourced_console_conflicts_with_clearing_legacy_history() {
    let result = parse_console(["cfcli", "console", "--source", "deck:bcCam", "--clear"]);

    assert!(result.is_err());
}

#[test]
fn each_conflict_is_named() {
    let source = Some("deck:bcCam".to_string());
    assert_eq!(
        Commands::console(false, false, source.clone(), true).unwrap_err(),
        ConsoleConflict::SourceAndListing
    );
    assert_eq!(
        Commands::console(true, false, None, true).unwrap_err(),
        ConsoleConflict::ListingAndFormatting
    );
    assert_eq!(
        Commands::console(false, true, source, false).unwrap_err(),
        ConsoleConflict::SourceAndClearing
    );
}

#[test]
fn formatting_can_be_switched_off_for_both_consoles() {
    assert!(parse_console(["cfcli", "console", "--no-format"]).is_ok());
    assert!(parse_console(["cfcli", "console", "--no-format", "--source", "deck:bcCam"]).is_ok());
}

#[test]
fn clearing_the_history_is_bounded_and_makes_no_connection() {
    let command = parse_console(["cfcli", "console", "--clear"]).unwrap();
    assert!(!is_streaming_command(&command));
    assert_eq!(link_use(&command), LinkUse::Unconnected);
}

#[test]
fn logs_and_the_sniffer_are_streams() {
    assert!(is_streaming_command(&Commands::Log { command: LogCommands::Print }));
    assert!(!is_streaming_command(&Commands::Log { command: LogCommands::List }));
    assert!(is_streaming_command(&Commands::Cr { command: CrCommands::Sniff }));
    assert!(!is_streaming_command(&Commands::Cr { command: CrCommands::Broadcast }));
    assert!(!is_streaming_command(&Commands::Param { command: ParamCommands::List }));
}

#[test]
fn only_a_sourced_console_catches_signals() {
    let sourced = parse_console(["cfcli", "console", "--source", "deck:bcCam"]).unwrap();
    let legacy = parse_console(["cfcli", "console"]).unwrap();
    assert!(catches_signals(&sourced));
    assert!(!catches_signals(&legacy));
    assert!(!catches_signals(&Commands::Settings));
}

#[test]
fn console_tasks_follow_the_options() {
    let source = Some("deck:bcCam".to_string());
    assert_eq!(console_task(true, &None, false), ConsoleTask::ClearHistory);
    assert_eq!(console_task(false, &None, true), ConsoleTask::ListSources);
    assert_eq!(console_task(false, &source, false), ConsoleTask::ShowSource);
    assert_eq!(console_task(false, &None, false), ConsoleTask::ReplayAndShow);
}

#[test]
fn files_are_shown_without_a_connection() {
    let show = |file: Option<&str>| Commands::Hlc {
        command: HlCommands::Trajectory {
            command: TrajectoryCommands::Display { file: file.map(str::to_string) },
        },
    };
    assert_eq!(link_use(&show(Some("path.yaml"))), LinkUse::Unconnected);
    assert_eq!(link_use(&show(None)), LinkUse::Kept);
    let lh = |input: Option<&str>| Commands::Lh {
        command: LighthouseConfigCommands::Display { input: input.map(str::to_string) },
    };
    assert_eq!(link_use(&lh(Some("geometry.yaml"))), LinkUse::Unconnected);
    assert_eq!(link_use(&lh(None)), LinkUse::Kept);
}

#[test]
fn connections_are_kept_or_dropped_by_command() {
    let flash = |cold| Commands::Bootload { command: BootloadCommands::Flash { cold } };
    assert_eq!(link_use(&flash(false)), LinkUse::PlatformQuery);
    assert_eq!(link_use(&flash(true)), LinkUse::Unconnected);
    let select = |from_usb| Commands::Select { from_usb, auto: false, address: None };
    assert_eq!(link_use(&select(true)), LinkUse::UsbQuery);
    assert_eq!(link_use(&select(false)), LinkUse::Unconnected);
    assert_eq!(
        link_use(&Commands::Platform { command: PlatformCommands::Info }),
        LinkUse::Kept
    );
    assert_eq!(
        link_use(&Commands::Platform { command: PlatformCommands::Reboot }),
        LinkUse::Unconnected
    );
    assert_eq!(
        link_use(&Commands::Test { command: TestCommands::Stability }),
        LinkUse::Unconnected
    );
    assert_eq!(
        link_use(&Commands::Test { command: TestCommands::MemPerf }),
        LinkUse::Kept
    );
    assert_eq!(
        link_use(&Commands::Mem { command: MemoryCommands::Write }),
        LinkUse::Kept
    );
}

#[test]
fn missing_arguments_are_named_when_nothing_can_be_asked() {
    assert_eq!(
        require_arg(true, "<names>"),
        Err(CliError::MissingArg("'<names>' (running non-interactively)".to_string()))
    );
    assert_eq!(require_arg(false, "<names>"), Ok(()));
    assert_eq!(given_or_asked(Some(3), true, "<mem>"), Ok(Some(3)));
    assert_eq!(given_or_asked::<i32>(None, false, "<mem>"), Ok(None));
    assert_eq!(
        given_or_asked::<i32>(None, true, "<mem>"),
        Err(CliError::MissingArg("'<mem>' (running non-interactively)".to_string()))
    );
    assert!(is_non_interactive(false, false));
    assert!(is_non_interactive(true, true));
    assert!(!is_non_interactive(false, true));
}
