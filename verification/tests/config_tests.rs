use iwled_rs::config::{load, Client, Config, ConfigError};
use iwled_rs::parse::{parse_u64, str_eq};

fn pairs(kv: &[(&str, &str)]) -> Vec<(String, String)> {
    kv.iter().map(|(k, v)| (k.to_string(), v.to_string())).collect()
}

fn full_global() -> Vec<(String, String)> {
    pairs(&[
        ("dump_delay", "30"),
        ("low_signal_cap", "50"),
        ("no_signal_trigger", "none"),
        ("no_signal_delay", "5"),
        ("signal_trigger", "default-on"),
        ("signal_delay", "1"),
        ("low_signal_trigger", "timer"),
        ("low_signal_delay", "2"),
    ])
}

#[test]
fn global_section_parses_all_eight_fields() {
    let c = Config::from_properties(&full_global()).unwrap();
    assert_eq!(c.dump_delay, 30);
    assert_eq!(c.low_signal_cap, 50);
    assert_eq!(c.no_signal_trigger, "none");
    assert_eq!(c.no_signal_delay, 5);
    assert_eq!(c.signal_trigger, "default-on");
    assert_eq!(c.signal_delay, 1);
    assert_eq!(c.low_signal_trigger, "timer");
    assert_eq!(c.low_signal_delay, 2);
}

#[test]
fn unknown_key_fails_load() {
    let mut props = full_global();
    props.push(("foo".to_string(), "1".to_string()));
    let e = Config::from_properties(&props).unwrap_err();
    assert_eq!(e, ConfigError::UnknownKey("foo".to_string()));
}

#[test]
fn invalid_numeric_value_is_reported_with_its_key() {
    let props = pairs(&[("dump_delay", "abc")]);
    let e = Config::from_properties(&props).unwrap_err();
    assert_eq!(e, ConfigError::InvalidValue("dump_delay".to_string()));
}

#[test]
fn first_missing_global_field_is_reported() {
    let props = pairs(&[("dump_delay", "30"), ("low_signal_cap", "50")]);
    let e = Config::from_properties(&props).unwrap_err();
    assert_eq!(e, ConfigError::MissingField("no_signal_trigger".to_string()));
}

#[test]
fn empty_global_section_misses_dump_delay_first() {
    let props: Vec<(String, String)> = Vec::new();
    let e = Config::from_properties(&props).unwrap_err();
    assert_eq!(e, ConfigError::MissingField("dump_delay".to_string()));
}

#[test]
fn duplicate_key_last_occurrence_wins() {
    let mut props = full_global();
    props.push(("dump_delay".to_string(), "99".to_string()));
    let c = Config::from_properties(&props).unwrap();
    assert_eq!(c.dump_delay, 99);
}

#[test]
fn client_section_parses_required_and_overrides() {
    let props = pairs(&[
        ("bssid", "AA:BB:CC:DD:EE:FF"),
        ("led", "led0"),
        ("low_signal_cap", "40"),
        ("no_signal_trigger", "heartbeat"),
    ]);
    let cl = Client::from_properties(&props).unwrap();
    assert_eq!(cl.bssid, "AA:BB:CC:DD:EE:FF");
    assert_eq!(cl.led, "led0");
    assert_eq!(cl.low_signal_cap, Some(40));
    assert_eq!(cl.no_signal_trigger, Some("heartbeat".to_string()));
    assert_eq!(cl.no_signal_delay, None);
    assert_eq!(cl.signal_trigger, None);
    assert_eq!(cl.signal_delay, None);
    assert_eq!(cl.low_signal_trigger, None);
    assert_eq!(cl.low_signal_delay, None);
}

#[test]
fn client_without_bssid_fails() {
    let props = pairs(&[("led", "led0")]);
    let e = Client::from_properties(&props).unwrap_err();
    assert_eq!(e, ConfigError::MissingField("bssid".to_string()));
}

#[test]
fn client_without_led_fails() {
    let props = pairs(&[("bssid", "AA:BB")]);
    let e = Client::from_properties(&props).unwrap_err();
    assert_eq!(e, ConfigError::MissingField("led".to_string()));
}

#[test]
fn client_invalid_override_fails() {
    let props = pairs(&[("bssid", "AA:BB"), ("led", "led0"), ("low_signal_delay", "x")]);
    let e = Client::from_properties(&props).unwrap_err();
    assert_eq!(e, ConfigError::InvalidValue("low_signal_delay".to_string()));
}

#[test]
fn client_unknown_key_fails() {
    let props = pairs(&[("bssid", "AA:BB"), ("led", "led0"), ("dump_delay", "3")]);
    let e = Client::from_properties(&props).unwrap_err();
    assert_eq!(e, ConfigError::UnknownKey("dump_delay".to_string()));
}

#[test]
fn load_takes_unnamed_global_and_named_clients_in_order() {
    let sections = vec![
        (None, full_global()),
        (Some("ap1".to_string()), pairs(&[("bssid", "AA:BB"), ("led", "led0")])),
        (Some("ap2".to_string()), pairs(&[("bssid", "CC:DD"), ("led", "led1")])),
    ];
    let (c, clients) = load(&sections).unwrap();
    assert_eq!(c.dump_delay, 30);
    assert_eq!(clients.len(), 2);
    assert_eq!(clients[0].bssid, "AA:BB");
    assert_eq!(clients[1].led, "led1");
}

#[test]
fn load_without_unnamed_section_fails() {
    let sections = vec![(
        Some("ap1".to_string()),
        pairs(&[("bssid", "AA:BB"), ("led", "led0")]),
    )];
    let e = load(&sections).unwrap_err();
    assert_eq!(e, ConfigError::MissingField("dump_delay".to_string()));
}

#[test]
fn load_reports_first_failing_section() {
    let sections = vec![
        (None, full_global()),
        (Some("ap1".to_string()), pairs(&[("bssid", "AA:BB"), ("led", "led0"), ("foo", "1")])),
        (Some("ap2".to_string()), pairs(&[("led", "led1")])),
    ];
    let e = load(&sections).unwrap_err();
    assert_eq!(e, ConfigError::UnknownKey("foo".to_string()));
}

#[test]
fn parse_u64_accepts_decimal_numerals() {
    assert_eq!(parse_u64("0"), Some(0));
    assert_eq!(parse_u64("123"), Some(123));
    assert_eq!(parse_u64("18446744073709551615"), Some(u64::MAX));
}

#[test]
fn parse_u64_rejects_empty_nondigit_and_overflow() {
    assert_eq!(parse_u64(""), None);
    assert_eq!(parse_u64("12a"), None);
    assert_eq!(parse_u64("-1"), None);
    assert_eq!(parse_u64(" 1"), None);
    assert_eq!(parse_u64("18446744073709551616"), None);
}

#[test]
fn str_eq_compares_contents() {
    assert!(str_eq("timer", "timer"));
    assert!(!str_eq("timer", "time"));
    assert!(!str_eq("", "a"));
    assert!(str_eq("", ""));
}
