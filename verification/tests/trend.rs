use lookout_core::model::{Cpu, Interface, Io, Memory, Utilization};
use lookout_core::{Config, Range, Sample, Trends};

const SECOND: i128 = 1_000_000_000;

fn at(seconds: i64) -> i128 {
    (1_760_000_000 + seconds as i128) * SECOND
}

fn sample(seconds: i64, cpu: u8) -> Sample {
    Sample {
        at: at(seconds),
        cpu_percent: cpu,
        memory_percent: 10,
        network_rx: 0,
        network_tx: 0,
        disk_utilization: 0,
        temperature_c: Some(42),
    }
}

#[test]
fn a_sample_reduces_a_live_reading() {
    let u = Utilization {
        cpu: Cpu { user: 3, system: 2, other: 1, ..Cpu::default() },
        memory: Memory { usage_percent: 7, ..Memory::default() },
        ..Utilization::default()
    };
    let s = Sample::new(at(0), &u, Some(42));
    assert_eq!(s.cpu_percent, 6);
    assert_eq!(s.memory_percent, 7);
    assert_eq!(s.temperature_c, Some(42));
    assert_eq!((s.network_rx, s.network_tx, s.disk_utilization), (0, 0, 0));
}

#[test]
fn a_sample_takes_the_aggregate_interface_and_the_disk_busy_figure() {
    let u = Utilization {
        network: vec![
            Interface { device: "eth0".into(), rx: 1, tx: 2 },
            Interface { device: "total".into(), rx: 30, tx: 40 },
        ],
        disk: Some(Io { read_bytes: 0, write_bytes: 0, read_ops: 0, write_ops: 0, utilization: 9 }),
        ..Utilization::default()
    };
    let s = Sample::new(at(0), &u, None);
    assert_eq!((s.network_rx, s.network_tx, s.disk_utilization), (30, 40, 9));
}

#[test]
fn the_hour_tier_takes_a_sample_every_five_seconds_and_the_day_tier_does_not() {
    let mut t = Trends::new();
    t.record(sample(0, 10));
    t.record(sample(5, 20));
    assert_eq!(t.window(Range::Hour, at(5)).len(), 2);
    assert_eq!(t.window(Range::Day, at(5)).len(), 1);
}

#[test]
fn a_sample_offered_too_soon_is_dropped_rather_than_stored() {
    let mut t = Trends::new();
    t.record(sample(0, 10));
    t.record(sample(1, 20));
    assert_eq!(t.window(Range::Hour, at(1)).len(), 1);
}

#[test]
fn a_sub_second_shortfall_is_still_too_soon() {
    let mut t = Trends::new();
    t.record(sample(0, 10));
    let mut late = sample(5, 20);
    late.at -= 1;
    t.record(late);
    assert_eq!(t.window(Range::Hour, at(5)).len(), 1);
}

#[test]
fn every_tier_accepts_the_first_sample_so_a_fresh_install_draws_something() {
    let mut t = Trends::new();
    t.record(sample(0, 10));
    for range in Range::ALL {
        assert_eq!(t.window(range, at(0)).len(), 1, "{range:?} should have it");
    }
}

#[test]
fn a_tier_drops_its_oldest_rather_than_growing_without_bound() {
    let mut t = Trends::new();
    let cap = Range::Hour.capacity();
    for i in 0..(cap as i64 * 2) {
        t.record(sample(i * 5, 50));
    }
    let held = t.window(Range::Hour, at(cap as i64 * 10));
    assert!(held.len() <= cap, "held {} > capacity {}", held.len(), cap);
}

#[test]
fn the_window_excludes_samples_older_than_the_range() {
    let mut t = Trends::new();
    t.record(sample(0, 10));
    let now = at(7200);
    assert!(t.window(Range::Hour, now).is_empty());
    assert_eq!(t.window(Range::Day, now).len(), 1);
}

#[test]
fn samples_come_back_oldest_first_so_a_chart_can_draw_them_in_order() {
    let mut t = Trends::new();
    for i in 0..4 {
        t.record(sample(i * 5, i as u8 * 10));
    }
    let w = t.window(Range::Hour, at(20));
    assert_eq!(w.first().expect("some").cpu_percent, 0);
    assert_eq!(w.last().expect("some").cpu_percent, 30);
}

#[test]
fn a_clock_that_jumps_backwards_restarts_the_window_instead_of_wedging_it() {
    let mut t = Trends::new();
    t.record(sample(10_000, 10));
    t.record(sample(0, 20));
    let w = t.window(Range::Hour, at(0));
    assert_eq!(w.len(), 1);
    assert_eq!(w[0].cpu_percent, 20);
}

#[test]
fn capacities_are_bounded_enough_to_persist() {
    let total: usize = Range::ALL.iter().map(|r| r.capacity()).sum();
    assert!(total < 10_000, "total capacity {total} is too large to write out");
    assert_eq!(total, 5620);
}

#[test]
fn history_counts_what_every_tier_holds() {
    let mut t = Trends::new();
    assert!(t.is_empty());
    assert_eq!(t.len(), 0);
    t.record(sample(0, 10));
    t.record(sample(5, 10));
    assert_eq!(t.len(), 5);
    assert!(!t.is_empty());
}

#[test]
fn ranges_label_themselves_and_know_their_cadence() {
    assert_eq!(Range::Hour.label(), "1 h");
    assert_eq!(Range::Month.label(), "30 d");
    assert_eq!((Range::Week.interval(), Range::Week.span()), (300, 604_800));
    assert_eq!(Range::Day.capacity(), 1441);
}

// ---- config -------------------------------------------------------------

#[test]
fn a_fresh_config_is_not_configured_and_does_not_connect_to_anything() {
    assert!(!Config::default().is_configured());
}

#[test]
fn an_address_and_account_are_enough_to_try() {
    let c = Config { address: "nas.ts.net".into(), account: "monitor".into(), ..Config::default() };
    assert!(c.is_configured());
    assert_eq!(c.host().base_url(), "https://nas.ts.net:5001");
}

#[test]
fn a_hand_edited_interval_is_clamped_into_range() {
    let c = Config { poll_interval: 0, ..Config::default() }.sanitised();
    assert_eq!(c.poll_interval, 1);
    let c = Config { poll_interval: 9999, ..Config::default() }.sanitised();
    assert_eq!(c.poll_interval, 60);
}

#[test]
fn a_zero_port_falls_back_to_the_conventional_one_for_the_scheme() {
    let https = Config { port: 0, https: true, ..Config::default() }.sanitised();
    assert_eq!(https.port, 5001);
    let http = Config { port: 0, https: false, ..Config::default() }.sanitised();
    assert_eq!(http.port, 5000);
}

#[test]
fn sanitising_twice_changes_nothing_more() {
    let once = Config { poll_interval: 0, port: 0, https: false, ..Config::default() }.sanitised();
    let twice = once.clone().sanitised();
    assert_eq!(once, twice);
}
