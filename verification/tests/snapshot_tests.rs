use iwled_rs::snapshot::{RawStation, Snapshot};

#[test]
fn addresses_are_formatted_as_uppercase_hex_pairs() {
    let stations = vec![RawStation {
        bssid: Some(vec![0xAA, 0x0B, 0x5C]),
        signal: Some(vec![196]),
    }];
    let snap = Snapshot::build(&stations);
    assert_eq!(snap.lookup(&"AA:0B:5C".to_string()), Some(-60));
    assert_eq!(snap.lookup(&"AA:0B:5D".to_string()), None);
}

#[test]
fn lookup_matches_after_canonicalization() {
    let stations = vec![RawStation {
        bssid: Some(vec![0xAA, 0x0B, 0x5C]),
        signal: Some(vec![196]),
    }];
    let snap = Snapshot::build(&stations);
    assert_eq!(snap.lookup(&"aa:0b:5c".to_string()), Some(-60));
    assert_eq!(snap.lookup(&"aa-0b-5c".to_string()), Some(-60));
    assert_eq!(snap.lookup(&"Aa:0b:5C".to_string()), Some(-60));
    assert_eq!(snap.lookup(&"aa0b5c".to_string()), None);
}

#[test]
fn signal_byte_is_read_as_signed() {
    let stations = vec![
        RawStation { bssid: Some(vec![0x01]), signal: Some(vec![196]) },
        RawStation { bssid: Some(vec![0x02]), signal: Some(vec![40]) },
    ];
    let snap = Snapshot::build(&stations);
    assert_eq!(snap.lookup(&"01".to_string()), Some(-60));
    assert_eq!(snap.lookup(&"02".to_string()), Some(40));
}

#[test]
fn stations_without_address_or_readable_signal_are_omitted() {
    let stations = vec![
        RawStation { bssid: None, signal: Some(vec![196]) },
        RawStation { bssid: Some(vec![0x01]), signal: None },
        RawStation { bssid: Some(vec![0x02]), signal: Some(vec![1, 2]) },
        RawStation { bssid: Some(vec![0x03]), signal: Some(vec![200]) },
    ];
    let snap = Snapshot::build(&stations);
    assert_eq!(snap.lookup(&"01".to_string()), None);
    assert_eq!(snap.lookup(&"02".to_string()), None);
    assert_eq!(snap.lookup(&"03".to_string()), Some(-56));
}

#[test]
fn duplicate_addresses_resolve_last_write_wins() {
    let stations = vec![
        RawStation { bssid: Some(vec![0x01]), signal: Some(vec![10]) },
        RawStation { bssid: Some(vec![0x01]), signal: Some(vec![20]) },
    ];
    let snap = Snapshot::build(&stations);
    assert_eq!(snap.lookup(&"01".to_string()), Some(20));
}

#[test]
fn empty_query_yields_an_empty_snapshot() {
    let snap = Snapshot::build(&Vec::new());
    assert_eq!(snap.lookup(&"01".to_string()), None);
    assert_eq!(snap.entries.len(), 0);
}
