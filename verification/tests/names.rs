//! Configuration, completion, text and numbers.
use cfcli::completion::{
    candidate_names, completion_request, dynamic_completions, CompletionKind, CompletionRequest,
    LatestCache,
};
use cfcli::config::{default_addresses, Config, ConfigTocCache};
use cfcli::number::{decimal, hex, parse_bounded, write_bytes};
use cfcli::text::{
    bracketed_chars, characters, contains_char, contains_text, join, lower_is, same, slice,
    split_on, starts_with, trim,
};
use cfcli::text_map::TextMap;

fn strings(list: &[&str]) -> Vec<String> {
    list.iter().map(|s| s.to_string()).collect()
}

fn cache() -> LatestCache {
    LatestCache::of_device(
        &[
            ("pid.kp".to_string(), Some(true)),
            ("pid.ki".to_string(), Some(false)),
            ("pm.low".to_string(), None),
        ],
        &strings(&["stabilizer.roll", "pm.vbat"]),
    )
}

#[test]
fn the_default_configuration_scans_one_address() {
    let config = Config::default();
    assert_eq!(config.uri, "");
    assert_eq!(config.toc_cache.len(), 0);
    assert_eq!(config.timeout_ms, None);
    assert_eq!(config.addresses, vec!["E7E7E7E7E7"]);
    assert_eq!(default_addresses(), vec!["E7E7E7E7E7"]);
    assert_eq!(config.effective_timeout(), 1000);
}

#[test]
fn the_timeout_is_a_query_parameter() {
    let mut config = Config::default();
    config.uri = "radio://0/80/2M".to_string();
    assert_eq!(config.connection_uri(&None), "radio://0/80/2M");
    config.timeout_ms = Some(250);
    assert_eq!(config.effective_timeout(), 250);
    assert_eq!(config.connection_uri(&None), "radio://0/80/2M?timeout=250");
    assert_eq!(
        config.connection_uri(&Some("radio://0?x=1".to_string())),
        "radio://0?x=1&timeout=250"
    );
    assert_eq!(config.connection_uri(&Some("usb://0".to_string())), "usb://0");
}

#[test]
fn tables_of_contents_are_kept_by_checksum() {
    let mut tocs = ConfigTocCache::new(Config::default(), false);
    assert_eq!(tocs.get_toc(&[0xde, 0x0a]), None);
    assert!(tocs.store_toc(&[0xde, 0x0a], "first"));
    assert!(tocs.store_toc(&[0xde], "second"));
    assert_eq!(tocs.get_toc(&[0xde, 0x0a]), Some("first".to_string()));
    assert_eq!(tocs.get_toc(&[0xde]), Some("second".to_string()));
    assert!(tocs.store_toc(&[0xde], "third"));
    assert_eq!(tocs.get_toc(&[0xde]), Some("third".to_string()));
    assert_eq!(tocs.config.toc_cache.get("de0a"), Some(&"first".to_string()));
    assert_eq!(tocs.config.toc_cache.len(), 2);
}

#[test]
fn a_disabled_cache_keeps_nothing() {
    let mut config = Config::default();
    config.toc_cache.insert("de".to_string(), "old".to_string());
    let mut tocs = ConfigTocCache::new(config, true);
    assert_eq!(tocs.get_toc(&[0xde]), None);
    assert!(!tocs.store_toc(&[0xde], "new"));
    assert_eq!(tocs.config.toc_cache.get("de"), Some(&"old".to_string()));
}

#[test]
fn text_maps_replace_values() {
    let mut map = TextMap::new();
    map.insert("b".to_string(), 1);
    map.insert("a".to_string(), 2);
    map.insert("b".to_string(), 3);
    assert_eq!(map.len(), 2);
    assert_eq!(map.key_at(0), "b");
    assert_eq!(map.value_at(0), &3);
    assert_eq!(map.key_at(1), "a");
    assert_eq!(map.get("a"), Some(&2));
    assert_eq!(map.get("c"), None);
    let copy = map.clone();
    assert_eq!(copy.get("b"), Some(&3));
    assert_eq!(copy.len(), 2);
}

#[test]
fn unknown_writability_counts_as_read_only() {
    let cache = cache();
    assert_eq!(
        cache.param.iter().map(|p| p.readonly).collect::<Vec<_>>(),
        vec![false, true, true]
    );
    assert_eq!(cache.log[1].name, "pm.vbat");
    let empty = LatestCache::or_empty(None);
    assert!(empty.log.is_empty() && empty.param.is_empty());
    assert_eq!(LatestCache::or_empty(Some(cache.clone())), cache);
}

#[test]
fn completion_is_requested_by_a_fixed_word() {
    assert_eq!(completion_request(&strings(&["cfcli"])), CompletionRequest::NotRequested);
    assert_eq!(
        completion_request(&strings(&["cfcli", "scan"])),
        CompletionRequest::NotRequested
    );
    assert_eq!(
        completion_request(&strings(&["cfcli", "__complete"])),
        CompletionRequest::Nothing
    );
    assert_eq!(
        completion_request(&strings(&["cfcli", "__complete", "ParamNames", "p"])),
        CompletionRequest::Nothing
    );
    assert_eq!(
        completion_request(&strings(&["cfcli", "__complete", "log-names"])),
        CompletionRequest::Word { kind: CompletionKind::LogNames, partial: String::new() }
    );
    let kinds = [
        ("param-names", CompletionKind::ParamNames),
        ("param-names-writable", CompletionKind::ParamNamesWritable),
        ("flash-targets", CompletionKind::FlashTargets),
        ("config-keys", CompletionKind::ConfigKeys),
    ];
    for (name, kind) in kinds {
        assert_eq!(
            completion_request(&strings(&["cfcli", "__complete", name, "x"])),
            CompletionRequest::Word { kind, partial: "x".to_string() }
        );
    }
}

#[test]
fn words_are_completed_after_the_last_comma() {
    let cache = cache();
    let complete = |kind, word| dynamic_completions(kind, word, &cache, &strings(&["stm32-fw"]));
    assert_eq!(complete(CompletionKind::ParamNames, "pid."), vec!["pid.kp", "pid.ki"]);
    assert_eq!(complete(CompletionKind::ParamNamesWritable, "p"), vec!["pid.kp"]);
    assert_eq!(complete(CompletionKind::LogNames, "x,pm"), vec!["x,pm.vbat"]);
    assert_eq!(
        complete(CompletionKind::LogNames, "a,b,"),
        vec!["a,b,stabilizer.roll", "a,b,pm.vbat"]
    );
    assert_eq!(complete(CompletionKind::FlashTargets, "stm32-fw=a"), Vec::<String>::new());
    assert_eq!(complete(CompletionKind::FlashTargets, "x=a.bin,st"), vec!["x=a.bin,stm32-fw"]);
    assert_eq!(
        complete(CompletionKind::ConfigKeys, ""),
        vec!["channel", "address", "speed", "pitch_trim", "roll_trim"]
    );
    assert_eq!(complete(CompletionKind::ConfigKeys, "s"), vec!["speed"]);
    assert_eq!(
        candidate_names(CompletionKind::ParamNamesWritable, &cache, &[]),
        vec!["pid.kp"]
    );
}

#[test]
fn numbers_are_written_and_read() {
    assert_eq!(decimal(0), "0");
    assert_eq!(decimal(u64::MAX), "18446744073709551615");
    assert_eq!(hex(0xbeef), "beef");
    assert_eq!(write_bytes(&[0, 0xab, 0x0c], false), "00ab0c");
    assert_eq!(write_bytes(&[0, 0xab, 0x0c], true), "00AB0C");
    let parse = |s: &str, base, max| parse_bounded(&characters(s), base, max);
    assert_eq!(parse("18446744073709551615", 10, u64::MAX), Some(u64::MAX));
    assert_eq!(parse("18446744073709551616", 10, u64::MAX), None);
    assert_eq!(parse("+42", 10, 42), Some(42));
    assert_eq!(parse("43", 10, 42), None);
    assert_eq!(parse("a", 10, 42), None);
    assert_eq!(parse("Ff", 16, 255), Some(255));
    assert_eq!(parse("", 10, 1), None);
    assert_eq!(parse("\u{661}", 10, 9), None);
    for n in [0, 9, 10, 4711, u64::MAX] {
        assert_eq!(parse(&decimal(n), 10, u64::MAX), Some(n));
        assert_eq!(parse(&hex(n), 16, u64::MAX), Some(n));
    }
}

#[test]
fn text_is_cut_and_compared() {
    assert_eq!(split_on("a,,b", ','), vec!["a", "", "b"]);
    assert_eq!(split_on("", ','), vec![""]);
    assert_eq!(join(&split_on("\u{e5},b,", ','), ","), "\u{e5},b,");
    assert_eq!(join(&[], ","), "");
    assert_eq!(trim(" \u{2003}x y\t\n"), "x y");
    assert_eq!(trim("\u{200b}"), "\u{200b}");
    assert_eq!(slice("h\u{e5}llo", 1, 3), "\u{e5}l");
    assert!(starts_with("usb://0", "usb://"));
    assert!(!starts_with("us", "usb://"));
    assert!(contains_char("a?b", '?'));
    assert!(!contains_char("ab", '?'));
    assert!(contains_text(&strings(&["a", "b"]), "b"));
    assert!(!contains_text(&strings(&["a", "b"]), "c"));
    assert!(same("x", "x") && !same("x", "y"));
    assert!(lower_is("Cf21BL", "cf21bl") && !lower_is("cf21", "cf21bl"));
    assert_eq!(bracketed_chars("[[12] x]"), vec!['1', '2']);
}

#[test]
fn every_white_space_character_is_trimmed() {
    for code in 0..=0x10ffffu32 {
        if let Some(c) = char::from_u32(code) {
            let kept = trim(&c.to_string());
            assert_eq!(kept.is_empty(), c.is_whitespace(), "U+{:04X}", code);
        }
    }
}
