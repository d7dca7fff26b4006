//! Targets, binaries, releases, platforms and probes.
use cfcli::deck::{chosen_probe, pick_probe, probe_label, ProbeInfo, DECK_BINARY_ADDRESS};
use cfcli::error::{Cause, CliError};
use cfcli::flash::{
    assign_bins, check_release, check_targets, files_to_ask, filter_targets, platform_choice,
    platform_names,
    release_choice, requested_targets, resolve_platform, single_explicit_target_for_bare_bin,
    target_choice, unsupported_flash_targets, Choice, PlatformChoice,
};
use cfcli::flash_run::{FlashEvent, FlashOptions, FlashPlan, FlashRun, FlashStep};
use cfcli::text_map::TextMap;

fn supported() -> Vec<String> {
    vec!["stm32-fw".to_string(), "bcLighthouse4-fw".to_string()]
}

#[test]
fn single_bare_bin_uses_single_explicit_target() {
    let mut bin = TextMap::new();
    bin.insert("lighthouse.bin".to_string(), None);
    let targets = Some(Some("bcLighthouse4-fw".to_string()));

    assert_eq!(
        single_explicit_target_for_bare_bin(&Some(bin), &targets),
        Some("bcLighthouse4-fw".to_string())
    );
}

#[test]
fn single_bare_bin_does_not_use_multiple_explicit_targets() {
    let mut bin = TextMap::new();
    bin.insert("lighthouse.bin".to_string(), None);
    let targets = Some(Some("bcLighthouse4-fw,stm32-fw".to_string()));

    assert_eq!(single_explicit_target_for_bare_bin(&Some(bin), &targets), None);
}

#[test]
fn keyed_bin_does_not_get_rewritten_from_targets() {
    let mut bin = TextMap::new();
    bin.insert("bcLighthouse4-fw".to_string(), Some("lighthouse.bin".to_string()));
    let targets = Some(Some("bcLighthouse4-fw".to_string()));

    assert_eq!(single_explicit_target_for_bare_bin(&Some(bin), &targets), None);
}

#[test]
fn unsupported_flash_targets_reports_unknown_targets() {
    let selected = vec!["stm32ohnooo-fw".to_string(), "stm32-fw".to_string()];

    assert_eq!(
        unsupported_flash_targets(&selected, &supported()),
        vec!["stm32ohnooo-fw".to_string()]
    );
}

#[test]
fn empty_and_padded_targets_do_not_count() {
    let mut bin = TextMap::new();
    bin.insert("a.bin".to_string(), None);
    let bin = Some(bin);
    let targets = |t: &str| Some(Some(t.to_string()));
    assert_eq!(
        single_explicit_target_for_bare_bin(&bin, &targets(" , stm32-fw\u{a0},")),
        Some("stm32-fw".to_string())
    );
    assert_eq!(single_explicit_target_for_bare_bin(&bin, &targets(" , ")), None);
    assert_eq!(single_explicit_target_for_bare_bin(&bin, &Some(None)), None);
    assert_eq!(single_explicit_target_for_bare_bin(&bin, &None), None);
    assert_eq!(single_explicit_target_for_bare_bin(&None, &targets("stm32-fw")), None);
}

#[test]
fn two_bare_bins_take_no_lone_target() {
    let mut bin = TextMap::new();
    bin.insert("a.bin".to_string(), None);
    bin.insert("b.bin".to_string(), None);
    let targets = Some(Some("stm32-fw".to_string()));
    assert_eq!(single_explicit_target_for_bare_bin(&Some(bin), &targets), None);
}

#[test]
fn listed_targets_are_trimmed_and_keep_empty_pieces() {
    assert_eq!(requested_targets(" a , b,,c\t"), vec!["a", "b", "", "c"]);
    assert_eq!(requested_targets(""), vec![""]);
}

#[test]
fn unknown_targets_are_an_invalid_value() {
    let selected = vec!["x".to_string(), "stm32-fw".to_string(), "y".to_string()];
    assert_eq!(
        check_targets(&selected, &supported()),
        Err(CliError::InvalidValue(
            "unknown flash target(s): x, y. Valid targets: stm32-fw, bcLighthouse4-fw".to_string()
        ))
    );
    assert_eq!(check_targets(&supported(), &supported()), Ok(()));
}

#[test]
fn target_and_release_choices() {
    assert_eq!(
        target_choice(&Some(Some("a, b".to_string())), true),
        Ok(Choice::Given(vec!["a".to_string(), "b".to_string()]))
    );
    assert_eq!(target_choice(&Some(None), false), Ok(Choice::Asked));
    assert_eq!(
        target_choice(&Some(None), true),
        Err(CliError::MissingArg("'--targets <list>' (running non-interactively)".to_string()))
    );
    assert_eq!(target_choice(&None, true), Ok(Choice::Absent));
    assert_eq!(
        release_choice(&Some(Some("2025.02".to_string())), true),
        Ok(Choice::Given("2025.02".to_string()))
    );
    assert_eq!(release_choice(&Some(None), false), Ok(Choice::Asked));
    assert_eq!(
        release_choice(&Some(None), true),
        Err(CliError::MissingArg("'--release <NAME>' (running non-interactively)".to_string()))
    );
    assert_eq!(release_choice(&None, true), Ok(Choice::Absent));
    let labels = vec!["2025.02".to_string()];
    assert_eq!(check_release("2025.02", &labels), Ok(()));
    assert_eq!(
        check_release("2024.10", &labels),
        Err(CliError::NotFound("release '2024.10'".to_string()))
    );
}

#[test]
fn bins_are_assigned_to_targets() {
    let mut bin = TextMap::new();
    bin.insert("stm32-fw".to_string(), Some("cf2.bin".to_string()));
    bin.insert("deck.bin".to_string(), None);
    assert_eq!(files_to_ask(&bin, &None, false), Ok(vec!["deck.bin".to_string()]));
    assert_eq!(
        files_to_ask(&bin, &None, true),
        Err(CliError::MissingArg(
            "'--bin target=file (or: --targets <TARGET> for a single bare --bin)' (running non-interactively)"
                .to_string()
        ))
    );
    let assigned = assign_bins(&bin, &None, &["bcAI:gap8-fw".to_string()]);
    assert_eq!(assigned.len(), 2);
    assert_eq!(assigned.get("stm32-fw"), Some(&"cf2.bin".to_string()));
    assert_eq!(assigned.get("bcAI:gap8-fw"), Some(&"deck.bin".to_string()));

    let mut bare = TextMap::new();
    bare.insert("deck.bin".to_string(), None);
    let lone = Some("stm32-fw".to_string());
    assert_eq!(files_to_ask(&bare, &lone, true), Ok(vec![]));
    let assigned = assign_bins(&bare, &lone, &[]);
    assert_eq!(assigned.len(), 1);
    assert_eq!(assigned.get("stm32-fw"), Some(&"deck.bin".to_string()));
}

#[test]
fn platforms_have_short_names() {
    let known = |n: &str| resolve_platform(n).unwrap();
    assert_eq!(known("cf21"), "Crazyflie 2.1");
    assert_eq!(known("CF21BL"), "Crazyflie 2.1 Brushless");
    assert_eq!(known("Bolt11"), "Crazyflie Bolt 1.1");
    assert_eq!(known("flapper"), "Flapper (Bolt 1.1)");
    assert_eq!(known("tag"), "Roadrunner 1.0");
    assert_eq!(
        resolve_platform("Cf3"),
        Err(Cause::Other(
            "Unknown platform 'Cf3'. Valid options: cf21, cf21bl, bolt11, flapper, tag".to_string()
        ))
    );
    for name in ["cf21", "cf21bl", "bolt11", "flapper", "tag"] {
        assert!(platform_names().contains(&known(name)));
    }
}

#[test]
fn a_cold_start_needs_the_platform() {
    assert_eq!(platform_choice(false, &None, true), Ok(PlatformChoice::Queried));
    assert_eq!(
        platform_choice(true, &Some("tag".to_string()), true),
        Ok(PlatformChoice::Known("Roadrunner 1.0".to_string()))
    );
    assert_eq!(platform_choice(true, &None, false), Ok(PlatformChoice::Asked));
    assert_eq!(
        platform_choice(true, &None, true),
        Err(Cause::Cli(CliError::MissingArg(
            "'--platform' (running non-interactively)".to_string()
        )))
    );
    assert!(platform_choice(true, &Some("x".to_string()), false).is_err());
}

#[test]
fn probes_are_picked_by_index_or_line() {
    assert_eq!(DECK_BINARY_ADDRESS, 0x0800_7800);
    assert_eq!(
        pick_probe(0, None, false),
        Err(Cause::Other("No probes found, cannot flash deck".to_string()))
    );
    assert_eq!(pick_probe(3, Some(2), true), Ok(Some(2)));
    assert_eq!(
        pick_probe(3, Some(3), true),
        Err(Cause::Other("Invalid probe index".to_string()))
    );
    assert_eq!(pick_probe(1, None, true), Ok(Some(0)));
    assert_eq!(pick_probe(2, None, false), Ok(None));
    assert_eq!(
        pick_probe(2, None, true),
        Err(Cause::Cli(CliError::MissingArg(
            "'--probe-idx' (running non-interactively)".to_string()
        )))
    );
    let probe = ProbeInfo {
        identifier: "ST]Link".to_string(),
        vendor_id: 1155,
        product_id: 14155,
        serial_number: None,
    };
    let label = probe_label(12, &probe);
    assert_eq!(label, "[12] ST]Link (1155:14155-N/A)");
    assert_eq!(chosen_probe(&label), Ok(12));
    assert_eq!(
        chosen_probe("none"),
        Err(Cause::Other("Failed to parse probe index".to_string()))
    );
}

fn options() -> FlashOptions {
    FlashOptions {
        release: None,
        bin: None,
        targets: None,
        platform: None,
        cold: false,
        non_interactive: true,
    }
}

fn failure(run: &FlashRun) -> Cause {
    match run.step() {
        FlashStep::Fail(cause) => cause.clone(),
        step => panic!("the run goes on with {:?}", step),
    }
}

fn to_flash(run: &FlashRun) -> Vec<String> {
    match run.step() {
        FlashStep::Flash(targets) => targets.clone(),
        step => panic!("the run is at {:?}", step),
    }
}

fn plan(run: &FlashRun) -> &FlashPlan {
    match run.step() {
        FlashStep::PickPlatform(plan)
        | FlashStep::QueryPlatform(plan)
        | FlashStep::Assemble { plan, .. } => plan,
        step => panic!("the run is at {:?}", step),
    }
}

#[test]
fn a_plain_run_queries_the_platform_and_flashes_everything() {
    let run = FlashRun::start(options());
    assert!(matches!(run.step(), FlashStep::QueryPlatform(_)));
    assert_eq!(plan(&run).release, None);
    assert_eq!(plan(&run).bins.len(), 0);
    let run = run.advance(FlashEvent::Platform("Crazyflie 2.1".to_string()), &supported());
    assert!(
        matches!(run.step(), FlashStep::Assemble { platform, .. } if platform == "Crazyflie 2.1")
    );
    let available = vec!["stm32-fw".to_string(), "nrf51-fw".to_string()];
    let run = run.advance(FlashEvent::Assembled(available.clone()), &supported());
    assert_eq!(to_flash(&run), available);
}

#[test]
fn named_releases_must_be_known() {
    let start = || {
        FlashRun::start(FlashOptions { release: Some(Some("2025.02".to_string())), ..options() })
    };
    let run = start();
    assert!(matches!(run.step(), FlashStep::FetchReleases(Some(name)) if name == "2025.02"));
    let run = run.advance(FlashEvent::Releases(vec!["2025.02".to_string()]), &supported());
    assert_eq!(plan(&run).release.as_deref(), Some("2025.02"));
    let run = start().advance(FlashEvent::Releases(vec!["2024.10".to_string()]), &supported());
    assert_eq!(
        failure(&run),
        Cause::Cli(CliError::NotFound("release '2025.02'".to_string()))
    );
    let run = run.advance(FlashEvent::Platform("x".to_string()), &supported());
    assert!(matches!(run.step(), FlashStep::Fail(_)));
}

#[test]
fn named_targets_are_checked_once_the_firmware_is_there() {
    let flash = |targets: &str| {
        FlashRun::start(FlashOptions { targets: Some(Some(targets.to_string())), ..options() })
            .advance(FlashEvent::Platform("Crazyflie 2.1".to_string()), &supported())
            .advance(
                FlashEvent::Assembled(vec!["nrf51-fw".to_string(), "stm32-fw".to_string()]),
                &supported(),
            )
    };
    assert_eq!(to_flash(&flash(" stm32-fw ")), vec!["stm32-fw"]);
    assert_eq!(to_flash(&flash("bcLighthouse4-fw,stm32-fw")), vec!["stm32-fw"]);
    assert_eq!(
        failure(&flash("stm32-fw,x")),
        Cause::Cli(CliError::InvalidValue(
            "unknown flash target(s): x. Valid targets: stm32-fw, bcLighthouse4-fw".to_string()
        ))
    );
}

#[test]
fn a_selection_without_firmware_flashes_nothing() {
    let run = FlashRun::start(FlashOptions {
        targets: Some(Some("stm32-fw".to_string())),
        ..options()
    })
    .advance(FlashEvent::Platform("Crazyflie 2.1".to_string()), &supported())
    .advance(FlashEvent::Assembled(vec!["nrf51-fw".to_string()]), &supported());
    assert!(matches!(run.step(), FlashStep::NothingToFlash));
    let run = run.advance(FlashEvent::PickedTargets(None), &supported());
    assert!(matches!(run.step(), FlashStep::NothingToFlash));
    let run = FlashRun::start(options())
        .advance(FlashEvent::Platform("Crazyflie 2.1".to_string()), &supported())
        .advance(FlashEvent::Assembled(vec![]), &supported());
    assert!(matches!(run.step(), FlashStep::NothingToFlash));
    let picked = |list: Vec<String>| {
        FlashRun::start(FlashOptions { targets: Some(None), non_interactive: false, ..options() })
            .advance(FlashEvent::Platform("Crazyflie 2.1".to_string()), &supported())
            .advance(FlashEvent::Assembled(vec!["a".to_string(), "b".to_string()]), &supported())
            .advance(FlashEvent::PickedTargets(Some(list)), &supported())
    };
    assert!(matches!(picked(vec![]).step(), FlashStep::NothingToFlash));
    assert_eq!(to_flash(&picked(vec!["b".to_string()])), vec!["b"]);
}

#[test]
fn selected_targets_are_kept_in_the_order_of_the_firmware() {
    let list = |names: &[&str]| names.iter().map(|n| n.to_string()).collect::<Vec<_>>();
    assert_eq!(
        filter_targets(&list(&["a", "b", "c"]), &list(&["c", "x", "a"])),
        vec!["a", "c"]
    );
    assert_eq!(filter_targets(&list(&["a"]), &[]), Vec::<String>::new());
}

#[test]
fn a_run_without_a_user_fails_instead_of_asking() {
    let missing = |arg: &str| {
        Cause::Cli(CliError::MissingArg(format!("'{}' (running non-interactively)", arg)))
    };
    let run = FlashRun::start(FlashOptions { release: Some(None), ..options() });
    assert_eq!(failure(&run), missing("--release <NAME>"));
    let mut bin = TextMap::new();
    bin.insert("a.bin".to_string(), None);
    let run = FlashRun::start(FlashOptions { bin: Some(bin), ..options() });
    assert_eq!(
        failure(&run),
        missing("--bin target=file (or: --targets <TARGET> for a single bare --bin)")
    );
    let run = FlashRun::start(FlashOptions { cold: true, ..options() });
    assert_eq!(failure(&run), missing("--platform"));
    let run = FlashRun::start(FlashOptions { targets: Some(None), ..options() })
        .advance(FlashEvent::Platform("Crazyflie 2.1".to_string()), &supported())
        .advance(FlashEvent::Assembled(vec![]), &supported());
    assert_eq!(failure(&run), missing("--targets <list>"));
}

#[test]
fn a_cold_run_asks_for_everything_that_was_left_open() {
    let mut bin = TextMap::new();
    bin.insert("a.bin".to_string(), None);
    bin.insert("stm32-fw".to_string(), Some("cf2.bin".to_string()));
    bin.insert("b.bin".to_string(), None);
    let run = FlashRun::start(FlashOptions {
        release: Some(None),
        bin: Some(bin),
        targets: Some(None),
        platform: None,
        cold: true,
        non_interactive: false,
    });
    assert!(matches!(run.step(), FlashStep::FetchReleases(None)));
    let run = run.advance(FlashEvent::Releases(vec!["r1".to_string()]), &supported());
    assert!(matches!(run.step(), FlashStep::PickRelease(labels) if labels.len() == 1));
    let pick = |text: &str| FlashEvent::Picked(Some(text.to_string()));
    let run = run.advance(pick("r1"), &supported());
    let run = run.advance(pick("t1"), &supported());
    assert!(matches!(
        run.step(),
        FlashStep::PickTarget { files, answers, .. }
            if files == &["a.bin", "b.bin"] && answers == &["t1"]
    ));
    let run = run.advance(pick("t2"), &supported());
    assert!(matches!(run.step(), FlashStep::PickPlatform(_)));
    assert_eq!(plan(&run).release.as_deref(), Some("r1"));
    assert_eq!(plan(&run).bins.len(), 3);
    assert_eq!(plan(&run).bins.get("t1"), Some(&"a.bin".to_string()));
    assert_eq!(plan(&run).bins.get("stm32-fw"), Some(&"cf2.bin".to_string()));
    assert_eq!(plan(&run).bins.get("t2"), Some(&"b.bin".to_string()));
    let run = run.advance(pick("Roadrunner 1.0"), &supported());
    let run = run.advance(FlashEvent::Assembled(vec!["x".to_string()]), &supported());
    assert!(matches!(run.step(), FlashStep::PickTargets(list) if list == &["x"]));
    let run = run.advance(FlashEvent::PickedTargets(Some(vec!["x".to_string()])), &supported());
    assert_eq!(to_flash(&run), vec!["x"]);
}

#[test]
fn questions_without_an_answer_end_the_run() {
    let other = |text: &str| Cause::Other(text.to_string());
    let asked = || FlashOptions { non_interactive: false, ..options() };
    let run = FlashRun::start(FlashOptions { release: Some(None), ..asked() })
        .advance(FlashEvent::Releases(vec![]), &supported())
        .advance(FlashEvent::Picked(None), &supported());
    assert_eq!(failure(&run), other("No release selected"));
    let mut bin = TextMap::new();
    bin.insert("a.bin".to_string(), None);
    let run = FlashRun::start(FlashOptions { bin: Some(bin), ..asked() })
        .advance(FlashEvent::Picked(None), &supported());
    assert_eq!(failure(&run), other("No binary selected"));
    let run = FlashRun::start(FlashOptions { cold: true, ..asked() })
        .advance(FlashEvent::Picked(None), &supported());
    assert_eq!(failure(&run), other("No platform selected"));
    let run = FlashRun::start(FlashOptions { targets: Some(None), ..asked() })
        .advance(FlashEvent::Platform("Crazyflie 2.1".to_string()), &supported())
        .advance(FlashEvent::Assembled(vec![]), &supported())
        .advance(FlashEvent::PickedTargets(None), &supported());
    assert_eq!(failure(&run), other("No targets selected"));
}

#[test]
fn a_lone_bare_bin_needs_no_question() {
    let mut bin = TextMap::new();
    bin.insert("lighthouse.bin".to_string(), None);
    let run = FlashRun::start(FlashOptions {
        bin: Some(bin),
        targets: Some(Some("bcLighthouse4-fw".to_string())),
        platform: Some("Tag".to_string()),
        cold: true,
        ..options()
    });
    assert!(
        matches!(run.step(), FlashStep::Assemble { platform, .. } if platform == "Roadrunner 1.0")
    );
    assert_eq!(plan(&run).bins.len(), 1);
    assert_eq!(
        plan(&run).bins.get("bcLighthouse4-fw"),
        Some(&"lighthouse.bin".to_string())
    );
}
