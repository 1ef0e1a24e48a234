use iwled_rs::config::{Client, Config};
use iwled_rs::engine::{evaluate, evaluate_all, normalize_signal, try_evaluate};
use iwled_rs::snapshot::{RawStation, Snapshot};

fn global() -> Config {
    Config {
        dump_delay: 30,
        low_signal_cap: 50,
        no_signal_trigger: "none".to_string(),
        no_signal_delay: 5,
        signal_trigger: "default-on".to_string(),
        signal_delay: 1,
        low_signal_trigger: "timer".to_string(),
        low_signal_delay: 2,
    }
}

fn plain_client(bssid: &str) -> Client {
    Client {
        bssid: bssid.to_string(),
        led: "led0".to_string(),
        low_signal_cap: None,
        no_signal_trigger: None,
        no_signal_delay: None,
        signal_trigger: None,
        signal_delay: None,
        low_signal_trigger: None,
        low_signal_delay: None,
    }
}

#[test]
fn normalization_shifts_by_one_hundred_and_clamps() {
    assert_eq!(normalize_signal(-60), 40);
    assert_eq!(normalize_signal(0), 100);
    assert_eq!(normalize_signal(-100), 0);
    assert_eq!(normalize_signal(-128), 0);
    assert_eq!(normalize_signal(127), 227);
}

#[test]
fn low_signal_timer_delay_scales_with_normalized_signal() {
    let g = global();
    let cl = plain_client("AA:BB");
    let r = evaluate(&g, &cl, Some(-60));
    assert_eq!(r.trigger, "timer");
    assert_eq!(r.delay_on, Some(80));
    assert_eq!(r.delay_off, Some(80));
}

#[test]
fn absent_station_with_non_timer_override_writes_no_delays() {
    let g = global();
    let mut cl = plain_client("AA:BB");
    cl.no_signal_trigger = Some("heartbeat".to_string());
    let r = evaluate(&g, &cl, None);
    assert_eq!(r.trigger, "heartbeat");
    assert_eq!(r.delay_on, None);
    assert_eq!(r.delay_off, None);
}

#[test]
fn absent_station_in_timer_mode_uses_delay_unscaled() {
    let mut g = global();
    g.no_signal_trigger = "timer".to_string();
    g.no_signal_delay = 7;
    let cl = plain_client("AA:BB");
    let r = evaluate(&g, &cl, None);
    assert_eq!(r.trigger, "timer");
    assert_eq!(r.delay_on, Some(7));
    assert_eq!(r.delay_off, Some(7));
}

#[test]
fn boundary_reading_counts_as_low_signal() {
    let mut g = global();
    g.low_signal_cap = 40;
    g.low_signal_trigger = "low-mode".to_string();
    g.signal_trigger = "normal-mode".to_string();
    let cl = plain_client("AA:BB");
    // normalized(-60) == 40 == cap: low side of the boundary
    let r = evaluate(&g, &cl, Some(-60));
    assert_eq!(r.trigger, "low-mode");
    // normalized(-59) == 41 > cap: normal
    let r = evaluate(&g, &cl, Some(-59));
    assert_eq!(r.trigger, "normal-mode");
}

#[test]
fn normal_signal_timer_delay_scales_with_normalized_signal() {
    let mut g = global();
    g.low_signal_cap = 10;
    g.signal_trigger = "timer".to_string();
    g.signal_delay = 3;
    let cl = plain_client("AA:BB");
    // normalized(-80) == 20, above the cap of 10
    let r = evaluate(&g, &cl, Some(-80));
    assert_eq!(r.delay_on, Some(60));
    // doubling the normalized signal doubles the delay: normalized(-60) == 40
    let r = evaluate(&g, &cl, Some(-60));
    assert_eq!(r.delay_on, Some(120));
}

#[test]
fn each_override_wins_over_the_global_default() {
    let g = global();

    let mut cl = plain_client("AA:BB");
    cl.low_signal_cap = Some(10);
    // normalized(-60) == 40 > 10: normal-signal instead of low-signal
    let r = evaluate(&g, &cl, Some(-60));
    assert_eq!(r.trigger, "default-on");

    let mut cl = plain_client("AA:BB");
    cl.no_signal_trigger = Some("x".to_string());
    assert_eq!(evaluate(&g, &cl, None).trigger, "x");

    let mut cl = plain_client("AA:BB");
    cl.no_signal_trigger = Some("timer".to_string());
    cl.no_signal_delay = Some(9);
    assert_eq!(evaluate(&g, &cl, None).delay_on, Some(9));

    let mut cl = plain_client("AA:BB");
    cl.signal_trigger = Some("y".to_string());
    assert_eq!(evaluate(&g, &cl, Some(0)).trigger, "y");

    let mut cl = plain_client("AA:BB");
    cl.signal_trigger = Some("timer".to_string());
    cl.signal_delay = Some(4);
    // normalized(0) == 100 > 50: normal-signal, delay 4 * 100
    assert_eq!(evaluate(&g, &cl, Some(0)).delay_on, Some(400));

    let mut cl = plain_client("AA:BB");
    cl.low_signal_trigger = Some("z".to_string());
    assert_eq!(evaluate(&g, &cl, Some(-60)).trigger, "z");

    let mut cl = plain_client("AA:BB");
    cl.low_signal_delay = Some(6);
    // low-signal timer: 6 * 40
    assert_eq!(evaluate(&g, &cl, Some(-60)).delay_on, Some(240));
}

#[test]
fn lowercase_configured_address_matches_its_station() {
    let g = global();
    let client = plain_client("aa:bb");
    let stations = vec![RawStation {
        bssid: Some(vec![0xAA, 0xBB]),
        signal: Some(vec![196]),
    }];
    let snap = Snapshot::build(&stations);
    let rs = evaluate_all(&g, &vec![client], &snap);
    let r = rs[0].clone().unwrap();
    // matched, classified low-signal, not treated as unseen
    assert_eq!(r.trigger, "timer");
    assert_eq!(r.delay_on, Some(80));
}

#[test]
fn try_evaluate_declines_on_delay_overflow() {
    let mut g = global();
    g.low_signal_delay = u64::MAX;
    let cl = plain_client("AA:BB");
    assert_eq!(try_evaluate(&g, &cl, Some(-60)), None);
    // and still evaluates where the product fits
    let r = try_evaluate(&g, &cl, None).unwrap();
    assert_eq!(r.trigger, "none");
}

#[test]
fn evaluate_all_matches_clients_against_the_snapshot() {
    let g = global();
    let seen = plain_client("AA:BB");
    let unseen = plain_client("CC:DD");
    let stations = vec![RawStation {
        bssid: Some(vec![0xAA, 0xBB]),
        signal: Some(vec![196]),  // -60 as a two's-complement byte
    }];
    let snap = Snapshot::build(&stations);
    let rs = evaluate_all(&g, &vec![seen, unseen], &snap);
    assert_eq!(rs.len(), 2);
    let seen_r = rs[0].clone().unwrap();
    assert_eq!(seen_r.trigger, "timer");
    assert_eq!(seen_r.delay_on, Some(80));
    let unseen_r = rs[1].clone().unwrap();
    assert_eq!(unseen_r.trigger, "none");
    assert_eq!(unseen_r.delay_on, None);
}
