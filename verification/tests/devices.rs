//! Memories, radio settings, scanning and selecting.
use cfcli::address::{address_bytes, decode_address, encode_address, parse_address};
use cfcli::config::Config;
use cfcli::console::{find_source, source_lines};
use cfcli::eeprom::{
    parse_setting, parse_settings, radio_report, radio_speed, radio_uri, setting_report,
    single_config_memory, trim_error, Setting,
};
use cfcli::error::{classify_exit_code, Cause, CliError, DeviceError};
use cfcli::memory::{
    chosen_memory, memory_label, memory_listing, memory_row, offered_number, open_failure, payload,
    read_report, resolve_memory_ref, write_report, MemoryDevice, MemoryKind, MemoryRef,
    MemoryTypeArg, Payload,
};
use cfcli::platform::{platform_lines, platform_rows};
use cfcli::scan::{addresses_to_scan, choose_link, merge_found, pick_usb, scan_lines};
use cfcli::select::{
    conclude, select_next, select_start, RadioSettings, SelectEnd, SelectEvent, SelectOptions,
    SelectStep,
};
use crazyflie_lib::subsystems::memory::{MemoryType, RadioSpeed};

fn memory(memory_id: u8, memory_type: MemoryKind) -> MemoryDevice {
    MemoryDevice { memory_id, memory_type, size: 2048, serial: None }
}

fn memories() -> Vec<MemoryDevice> {
    vec![
        memory(0, MemoryKind::EEPROMConfig),
        memory(1, MemoryKind::OneWire),
        memory(2, MemoryKind::DriverLed),
        memory(3, MemoryKind::OneWire),
    ]
}

fn strings(list: &[&str]) -> Vec<String> {
    list.iter().map(|s| s.to_string()).collect()
}

#[test]
fn addresses_are_five_bytes_of_hexadecimal() {
    assert_eq!(decode_address("E7E7E7E7E7"), Ok([0xe7; 5]));
    assert_eq!(decode_address("0xe7e7e7e701"), Ok([0xe7, 0xe7, 0xe7, 0xe7, 1]));
    assert_eq!(decode_address("1"), Ok([0, 0, 0, 0, 1]));
    assert_eq!(decode_address("+00000000000000FFFFFFFFFF"), Ok([0xff; 5]));
    assert_eq!(decode_address("0x10x2"), Ok([0, 0, 0, 0, 0x12]));
    for bad in ["", "+", "0x", "10000000000", "G", "-1", " 1", "0X1", "++1", "00xx1"] {
        assert_eq!(
            decode_address(bad),
            Err(CliError::InvalidValue(format!(
                "address '{}' is not a valid 5-byte hexadecimal value (e.g. E7E7E7E7E7)",
                bad
            )))
        );
        assert_eq!(parse_address(bad), None);
    }
}

#[test]
fn encoded_addresses_are_decoded_again() {
    let address = [0x00, 0x1a, 0xff, 0x09, 0x80];
    assert_eq!(encode_address(&address), "001AFF0980");
    assert_eq!(decode_address(&encode_address(&address)), Ok(address));
    assert_eq!(address_bytes(0x01_0203_0405), [1, 2, 3, 4, 5]);
}

#[test]
fn memory_types_of_the_command_line_reach_the_device_library() {
    let pairs = [
        (MemoryTypeArg::EepromConfig, MemoryType::EEPROMConfig),
        (MemoryTypeArg::OneWire, MemoryType::OneWire),
        (MemoryTypeArg::DriverLed, MemoryType::DriverLed),
        (MemoryTypeArg::Loco, MemoryType::Loco),
        (MemoryTypeArg::Trajectory, MemoryType::Trajectory),
        (MemoryTypeArg::Loco2, MemoryType::Loco2),
        (MemoryTypeArg::Lighthouse, MemoryType::Lighthouse),
        (MemoryTypeArg::MemoryTester, MemoryType::MemoryTester),
        (MemoryTypeArg::MicroSd, MemoryType::MicroSD),
        (MemoryTypeArg::DriverLedTiming, MemoryType::DriverLedTiming),
        (MemoryTypeArg::App, MemoryType::App),
        (MemoryTypeArg::DeckMemory, MemoryType::DeckMemory),
        (MemoryTypeArg::DeckCtrlDfu, MemoryType::DeckCtrlDFU),
        (MemoryTypeArg::DeckCtrl, MemoryType::DeckCtrl),
        (MemoryTypeArg::DeckMultiranger, MemoryType::DeckMultiranger),
        (MemoryTypeArg::DeckPaa3905, MemoryType::DeckPaa3905),
    ];
    for (arg, device) in pairs {
        assert_eq!(arg.to_lib(), device);
        assert_eq!(MemoryKind::of_device(&device).name(), format!("{:?}", device));
        assert_eq!(arg.name(), format!("{:?}", arg));
    }
    assert_eq!(MemoryKind::of_device(&MemoryType::UNKNOWN), MemoryKind::UNKNOWN);
    assert_eq!(MemoryKind::UNKNOWN.name(), "UNKNOWN");
    assert_eq!(MemoryKind::from_code(0x42), MemoryKind::UNKNOWN);
}

#[test]
fn memories_are_found_by_number() {
    let memories = memories();
    assert_eq!(resolve_memory_ref(&memories, &MemoryRef::Id(3)), Ok(&memories[3]));
    assert_eq!(
        resolve_memory_ref(&memories, &MemoryRef::Id(7)),
        Err(CliError::NotFound("memory with ID 7".to_string()))
    );
}

#[test]
fn memories_are_found_by_type_and_instance() {
    let memories = memories();
    let by_type = |t, instance| resolve_memory_ref(&memories, &MemoryRef::Type(t, instance));
    assert_eq!(by_type(MemoryTypeArg::DriverLed, None), Ok(&memories[2]));
    assert_eq!(by_type(MemoryTypeArg::OneWire, Some(0)), Ok(&memories[1]));
    assert_eq!(by_type(MemoryTypeArg::OneWire, Some(1)), Ok(&memories[3]));
    assert_eq!(
        by_type(MemoryTypeArg::OneWire, Some(2)),
        Err(CliError::InvalidValue(
            "instance 2 of type OneWire out of range (2 found)".to_string()
        ))
    );
    assert_eq!(
        by_type(MemoryTypeArg::OneWire, None),
        Err(CliError::InvalidValue(
            "multiple memories of type OneWire (2 found), specify an instance with 'OneWire:0'..'OneWire:1'"
                .to_string()
        ))
    );
    assert_eq!(
        by_type(MemoryTypeArg::MicroSd, Some(0)),
        Err(CliError::NotFound("memory of type MicroSd".to_string()))
    );
}

#[test]
fn memories_are_listed_with_size_and_serial() {
    let mut m = memory(12, MemoryKind::DeckMemory);
    m.size = 5000;
    assert_eq!(memory_label(&m), "[12] DeckMemory size=4k (0x1388/5000)");
    assert_eq!(memory_listing(&m), "[12] DeckMemory size=4k (0x1388/5000)");
    assert_eq!(memory_row(&m), vec!["12", "DeckMemory", "5000", ""]);
    m.serial = Some(vec![0x0d, 0xa1]);
    assert_eq!(memory_listing(&m), "[12] DeckMemory size=4k (0x1388/5000) (0x0DA1)");
    assert_eq!(memory_row(&m), vec!["12", "DeckMemory", "5000", "0DA1"]);
}

#[test]
fn offered_lines_lead_back_to_memories() {
    let memories = memories();
    for m in &memories {
        assert_eq!(chosen_memory(&memories, &memory_label(m)), Ok(m));
    }
    assert_eq!(
        chosen_memory(&memories, "[9] x"),
        Err(Cause::Other("No memory with ID 9".to_string()))
    );
    assert_eq!(
        chosen_memory(&memories, "[256] x"),
        Err(Cause::Other("Failed to parse memory ID".to_string()))
    );
    assert_eq!(offered_number("[[7]]", 10), Some(7));
    assert_eq!(offered_number("7", 6), None);
}

#[test]
fn transfers_are_reported() {
    assert_eq!(read_report(16, 3, 255), "Read 16 bytes from memory ID=3 at offset 0xff");
    assert_eq!(write_report(0, 0, 0), "Wrote 0 bytes to memory ID=0 at offset 0x0");
    assert_eq!(
        open_failure(4, &Some("busy".to_string())),
        Cause::Other("Could not access memory ID=4 as raw memory: busy".to_string())
    );
    assert_eq!(open_failure(4, &None), Cause::Other("Memory ID=4 not found".to_string()));
    assert_eq!(
        payload(Some(vec![1]), Some("f".to_string()), ""),
        Ok(Payload::Bytes(vec![1]))
    );
    assert_eq!(payload(None, Some("f".to_string()), ""), Ok(Payload::File("f".to_string())));
    assert_eq!(
        payload(None, None, " to write"),
        Err(Cause::Other(
            "No data provided to write, please provide data via --data or --input".to_string()
        ))
    );
}

#[test]
fn settings_are_checked() {
    let invalid = |text: &str| Err(CliError::InvalidValue(text.to_string()));
    assert_eq!(parse_setting("channel", "125"), Ok(Setting::Channel(125)));
    assert_eq!(
        parse_setting("channel", "126"),
        invalid("channel '126' must be an integer between 0 and 125")
    );
    assert_eq!(
        parse_setting("channel", "999999999999999999999"),
        invalid("channel '999999999999999999999' must be an integer between 0 and 125")
    );
    assert_eq!(parse_setting("address", "0xE7E7E7E7E7"), Ok(Setting::Address([0xe7; 5])));
    assert_eq!(
        parse_setting("address", "zz"),
        invalid("address 'zz' must be a 5-byte hexadecimal value (e.g. E7E7E7E7E7)")
    );
    assert_eq!(parse_setting("speed", "2"), Ok(Setting::Speed(2)));
    assert_eq!(
        parse_setting("speed", "3"),
        invalid("speed '3' must be 0 (250Kbps), 1 (1Mbps) or 2 (2Mbps)")
    );
    assert_eq!(parse_setting("pitch_trim", "x"), Ok(Setting::PitchTrim));
    assert_eq!(parse_setting("roll_trim", "x"), Ok(Setting::RollTrim));
    assert_eq!(parse_setting("name", "x"), Ok(Setting::Unknown));
    assert_eq!(
        trim_error("pitch_trim", "99"),
        CliError::InvalidValue(
            "pitch_trim '99' must be a float between -20.0 and 20.0".to_string()
        )
    );
}

fn pairs(list: &[(&str, &str)]) -> Vec<(String, String)> {
    list.iter().map(|(key, value)| (key.to_string(), value.to_string())).collect()
}

#[test]
fn settings_are_changed_together_or_not_at_all() {
    let good = pairs(&[("channel", "80"), ("name", "x"), ("roll_trim", "1.5")]);
    assert_eq!(
        parse_settings(&good, &[false, false, true]),
        Ok(vec![Setting::Channel(80), Setting::Unknown, Setting::RollTrim])
    );
    let bad = pairs(&[("channel", "80"), ("speed", "3"), ("channel", "126")]);
    let error = parse_settings(&bad, &[false; 3]).unwrap_err();
    assert_eq!(error.exit_code(), 30);
    assert_eq!(
        error,
        CliError::InvalidValue("speed '3' must be 0 (250Kbps), 1 (1Mbps) or 2 (2Mbps)".to_string())
    );
    assert_eq!(
        parse_settings(&good, &[true, true, false]),
        Err(CliError::InvalidValue(
            "roll_trim '1.5' must be a float between -20.0 and 20.0".to_string()
        ))
    );
    assert!(parse_settings(&good, &[]).is_err());
    assert_eq!(parse_settings(&pairs(&[("name", "x")]), &[false]), Ok(vec![Setting::Unknown]));
    assert_eq!(parse_settings(&[], &[]), Ok(vec![]));
}

#[test]
fn settings_are_confirmed() {
    let report = |s: Setting| setting_report(&s, "name");
    assert_eq!(report(Setting::Channel(80)).unwrap(), "Set radio channel to 80");
    assert_eq!(
        report(Setting::Address([0xe7, 0, 1, 0xab, 0x10])).unwrap(),
        format!("Set radio address to {:02X?}", [0xe7u8, 0, 1, 0xab, 0x10])
    );
    assert_eq!(report(Setting::Speed(1)).unwrap(), "Set radio speed to 1");
    assert_eq!(report(Setting::Unknown).unwrap(), "Unknown setting: name");
    assert_eq!(report(Setting::PitchTrim), None);
}

#[test]
fn radio_speeds_are_numbered() {
    let uri = |code: u8| radio_uri(80, &radio_speed(code).unwrap(), &[0xe7; 5]);
    assert_eq!(uri(0), "radio://0/80/250K/E7E7E7E7E7");
    assert_eq!(uri(1), "radio://0/80/1M/E7E7E7E7E7");
    assert_eq!(uri(2), "radio://0/80/2M/E7E7E7E7E7");
    match radio_speed(3) {
        Err(e) => assert_eq!(e, Cause::Device(DeviceError::Memory)),
        Ok(_) => panic!("there are three speeds"),
    }
}

#[test]
fn radio_links_carry_the_timeout() {
    let mut config = Config::default();
    config.uri = radio_uri(125, &RadioSpeed::R250Kbps, &[0, 1, 2, 3, 4]);
    config.timeout_ms = Some(500);
    assert_eq!(config.connection_uri(&None), "radio://0/125/250K/0001020304?timeout=500");
}

#[test]
fn radio_settings_are_reported() {
    for speed in [RadioSpeed::R250Kbps, RadioSpeed::R1Mbps, RadioSpeed::R2Mbps] {
        assert_eq!(
            radio_report(7, &speed, &[1, 2, 3, 4, 5]),
            format!("Read radio config: channel=7, speed={}, address=0102030405", speed)
        );
    }
}

#[test]
fn there_must_be_one_configuration_memory() {
    assert_eq!(single_config_memory(1, true), Ok(()));
    assert_eq!(
        single_config_memory(0, true),
        Err(Cause::Other(
            "No EEPROMConfig memory found or more than one (0), exiting!".to_string()
        ))
    );
    assert_eq!(
        single_config_memory(2, false),
        Err(Cause::Other("No EEPROMConfig memory found or more than one (2)".to_string()))
    );
}

#[test]
fn scans_are_merged_without_repetition() {
    let mut found = Vec::new();
    merge_found(&mut found, &strings(&["usb://0", "radio://0/80/2M"]));
    merge_found(&mut found, &strings(&["usb://0", "radio://0/90/2M", "radio://0/90/2M"]));
    assert_eq!(found, vec!["usb://0", "radio://0/80/2M", "radio://0/90/2M"]);
    assert_eq!(scan_lines(&strings(&["a", "b"])), vec!["> a", "> b"]);
}

#[test]
fn configured_addresses_are_scanned_unless_one_is_given() {
    let config = Config::default();
    assert_eq!(addresses_to_scan(&None, &config), vec!["E7E7E7E7E7"]);
    assert_eq!(addresses_to_scan(&Some("01".to_string()), &config), vec!["01"]);
}

#[test]
fn the_only_usb_link_is_picked() {
    assert_eq!(pick_usb(&strings(&["radio://x", "usb://1"])), Ok("usb://1".to_string()));
    assert_eq!(
        pick_usb(&strings(&["radio://usb://"])),
        Err(Cause::Cli(CliError::Connection("no USB Crazyflies found".to_string())))
    );
    assert_eq!(
        pick_usb(&strings(&["usb://0", "usb://1"])),
        Err(Cause::Other("Expected exactly one Crazyflie on USB, found 2".to_string()))
    );
}

#[test]
fn links_are_chosen() {
    let one = strings(&["radio://x"]);
    let two = strings(&["radio://x", "radio://y"]);
    assert_eq!(choose_link(&one, true, true), Ok(Some("radio://x".to_string())));
    assert_eq!(
        choose_link(&two, true, true),
        Err(Cause::Other("Expected exactly one Crazyflie, found 2".to_string()))
    );
    assert_eq!(choose_link(&one, false, false), Ok(None));
    assert_eq!(
        choose_link(&one, false, true),
        Err(Cause::Cli(CliError::MissingArg("'--auto' (running non-interactively)".to_string())))
    );
    assert_eq!(
        choose_link(&[], true, false),
        Err(Cause::Cli(CliError::Connection(
            "no Crazyflies found on configured addresses".to_string()
        )))
    );
}

#[test]
fn selection_from_usb_ends_with_the_radio_link() {
    let options = SelectOptions { from_usb: true, auto: false, non_interactive: true };
    let step = select_start(options, &None, &Config::default());
    let step = select_next(step, SelectEvent::Scanned(strings(&["usb://0"])), options);
    assert!(matches!(&step, SelectStep::Connect(uri) if uri == "usb://0"));
    let step = select_next(step, SelectEvent::Connected(1), options);
    assert!(matches!(step, SelectStep::ReadRadio));
    let radio = RadioSettings { channel: 80, speed: RadioSpeed::R2Mbps, address: [0xe7; 5] };
    let step = select_next(step, SelectEvent::Radio(radio), options);
    assert!(matches!(&step, SelectStep::Release(uri) if uri == "radio://0/80/2M/E7E7E7E7E7"));
    let step = select_next(step, SelectEvent::Released, options);
    assert!(matches!(&step, SelectStep::Keep(uri) if uri == "radio://0/80/2M/E7E7E7E7E7"));
}

#[test]
fn a_selected_link_is_used_until_the_next_selection() {
    let options = SelectOptions { from_usb: false, auto: true, non_interactive: true };
    let mut config = Config::default();
    config.uri = "radio://old".to_string();
    config.timeout_ms = Some(300);
    let mut select = |found: &[&str]| {
        let step = select_start(options, &None, &config);
        let step = match conclude(step, &mut config) {
            SelectEnd::Open(step) => step,
            _ => panic!("nothing was scanned yet"),
        };
        let step = select_next(step, SelectEvent::Scanned(strings(found)), options);
        let end = conclude(step, &mut config);
        (end, config.uri.clone(), config.connection_uri(&None))
    };
    let (end, uri, link) = select(&["radio://a", "radio://b"]);
    assert!(matches!(end, SelectEnd::Failed(cause) if classify_exit_code(&[cause.clone()]) == 1));
    assert_eq!(uri, "radio://old");
    assert_eq!(link, "radio://old?timeout=300");
    let (end, uri, _) = select(&[]);
    assert!(matches!(end, SelectEnd::Failed(cause) if classify_exit_code(&[cause.clone()]) == 10));
    assert_eq!(uri, "radio://old");
    let (end, uri, link) = select(&["radio://a"]);
    assert!(matches!(end, SelectEnd::Kept(kept) if kept == "radio://a"));
    assert_eq!(uri, "radio://a");
    assert_eq!(link, "radio://a?timeout=300");
    config.keep_link("usb://0".to_string());
    assert_eq!(config.connection_uri(&None), "usb://0");
    assert_eq!(config.addresses, vec!["E7E7E7E7E7"]);
}

#[test]
fn selection_may_ask_or_fail() {
    let options = SelectOptions { from_usb: false, auto: false, non_interactive: false };
    let step = select_start(options, &Some("01".to_string()), &Config::default());
    assert!(matches!(&step, SelectStep::Scan(list) if list == &strings(&["01"])));
    let step = select_next(step, SelectEvent::Scanned(strings(&["a", "b"])), options);
    assert!(matches!(&step, SelectStep::Ask(list) if list.len() == 2));
    let step = select_next(step, SelectEvent::Picked(None), options);
    assert!(
        matches!(&step, SelectStep::Fail(Cause::Other(text)) if text == "No Crazyflie selected")
    );
}

#[test]
fn sources_are_found_by_their_exact_path() {
    let paths = strings(&["deck:bcCam", "deck:bcAI"]);
    assert_eq!(find_source(&paths, "deck:bcAI"), Ok(1));
    let error = find_source(&paths, "deck:bccam").unwrap_err();
    assert_eq!(error.exit_code(), 20);
    assert_eq!(
        error.message(),
        "not found: console source 'deck:bccam', available: deck:bcCam, deck:bcAI"
    );
    assert!(find_source(&[], "").is_err());
    assert_eq!(source_lines(&paths, false), vec!["deck:bcCam", "deck:bcAI"]);
    assert_eq!(source_lines(&paths, true), vec!["path", "deck:bcCam", "deck:bcAI"]);
    assert_eq!(source_lines(&[], false), Vec::<String>::new());
}

#[test]
fn the_platform_is_told() {
    assert_eq!(
        platform_lines("Crazyflie 2.1", "2025.02", 7),
        vec!["Platform\t: Crazyflie 2.1", "Firmware\t: 2025.02", "CRTP protocol\t: 7"]
    );
    assert_eq!(
        platform_rows("Crazyflie 2.1", "2025.02", 7)[2],
        ("crtp_protocol".to_string(), "7".to_string())
    );
}
