use lookout_core::json::{Json, Number};
use lookout_core::model::{
    Container, ContainerHealth, Cooling, Disk, Health, NetworkInterface, Package, Session, Severity, Share, State, Storage,
    SystemInfo, Ups, Volume,
};
use lookout_core::present::{
    banner_health, container_pill, cooling_rows, count, disk_allocation, disk_identity, exit_note, health_class,
    health_verdict, health_word, human_interval, interface_row, network_stats, package_row, package_stats,
    power_stats, prettify_status, session_row, session_stats, severity_class, share_totals, short_dsm, state_pill, state_word, system_stats,
    temperature_text, tick_labels, time_rows, transferred, ups_rows, verb, volume_status, overview_packages, Filter,
    Row, Stat,
};
use lookout_core::{connect_answer, row_actions, Config, ContainerAction, Range, Sample, Snapshot};

fn to_json(v: &serde_json::Value) -> Json {
    match v {
        serde_json::Value::Null => Json::Null,
        serde_json::Value::Bool(b) => Json::Bool(*b),
        serde_json::Value::Number(n) => Json::Number(if let Some(u) = n.as_u64() {
            Number::PosInt(u)
        } else if let Some(i) = n.as_i64() {
            Number::NegInt(i)
        } else {
            Number::Float(n.as_f64().expect("a number").to_bits())
        }),
        serde_json::Value::String(s) => Json::Str(s.clone()),
        serde_json::Value::Array(a) => Json::Array(a.iter().map(to_json).collect()),
        serde_json::Value::Object(o) => Json::Object(o.iter().map(|(k, v)| (k.clone(), to_json(v))).collect()),
    }
}

fn json(text: &str) -> Json {
    to_json(&serde_json::from_str(text).expect("valid JSON"))
}

fn badge(row: &Row) -> Option<(&str, &str)> {
    row.badge.as_ref().map(|(t, c)| (t.as_str(), *c))
}

fn stat(s: &Stat) -> (&str, &str, bool) {
    (s.value.as_str(), s.note.as_str(), s.warn)
}

// ---- the System page ----------------------------------------------------

#[test]
fn the_dsm_version_is_shortened_to_fit_a_tile() {
    assert_eq!(short_dsm(Some("DSM 7.2.2-72806 Update 3")), "7.2.2");
    assert_eq!(short_dsm(Some("DSM 7.2-64570")), "7.2");
}

#[test]
fn an_unexpected_version_string_is_shown_rather_than_mangled() {
    assert_eq!(short_dsm(Some("weird")), "weird");
    assert_eq!(short_dsm(None), "—");
}

#[test]
fn a_version_with_runs_of_white_space_still_finds_its_second_word() {
    assert_eq!(short_dsm(Some("  DSM \t 7.1.1-42962  ")), "7.1.1");
    assert_eq!(short_dsm(Some("DSM -beta")), "");
}

#[test]
fn the_system_tiles_read_from_the_record() {
    let info = SystemInfo::from_json(&json(
        r#"{"model": "DS-series", "firmware_ver": "DSM 7.2.2-72806 Update 3", "firmware_date": "2026/06/18",
            "up_time": "64:48:7", "sys_temp": 42, "sys_tempwarn": true}"#,
    ));
    let tiles = system_stats(&info);
    let tiles: Vec<_> = tiles.iter().map(stat).collect();
    assert_eq!(
        tiles,
        vec![
            ("DS-series", "model", false),
            ("7.2.2", "2026/06/18", false),
            ("2 days, 16 hours", "since last boot", false),
            ("42 °C", "system", true),
        ]
    );
    let empty = system_stats(&SystemInfo::default());
    assert_eq!(stat(&empty[0]), ("—", "model", false));
    assert_eq!(stat(&empty[3]), ("—", "system", false));
}

#[test]
fn ntp_is_badged_on_or_off() {
    let on = SystemInfo::from_json(&json(r#"{"enabled_ntp": true, "ntp_server": "pool.ntp.org"}"#));
    let rows = time_rows(&on);
    assert_eq!(rows[0].subtitle, "—");
    assert_eq!(rows[1].subtitle, "pool.ntp.org");
    assert_eq!(badge(&rows[1]), Some(("On", "success")));
    let off = time_rows(&SystemInfo::default());
    assert_eq!(off[1].subtitle, "disabled");
    assert_eq!(badge(&off[1]), Some(("Off", "dim-label")));
}

// ---- packages, sessions, network ---------------------------------------

#[test]
fn a_package_with_an_update_is_badged_as_an_invitation_not_a_fault() {
    let p = Package {
        name: "Synology Photos".into(),
        version: "1.7.0".into(),
        available_version: Some("1.8.0".into()),
        status: "running".into(),
        ..Package::default()
    };
    let row = package_row(&p);
    let (text, class) = badge(&row).expect("a badge");
    assert!(text.contains("1.8.0"));
    assert_eq!(class, "accent");
}

#[test]
fn a_running_package_without_an_update_reads_as_running() {
    let p = Package { name: "Container Manager".into(), status: "running".into(), ..Package::default() };
    assert_eq!(badge(&package_row(&p)).expect("a badge").1, "success");
    let stopped = Package { id: "x".into(), version: "1.0".into(), ..Package::default() };
    let row = package_row(&stopped);
    assert_eq!(row.subtitle, "1.0 · x");
    assert_eq!(badge(&row), Some(("Stopped", "dim-label")));
}

#[test]
fn our_own_session_is_marked_so_it_is_recognisable() {
    let s = Session { who: "admin".into(), is_current: true, ..Session::default() };
    assert_eq!(badge(&session_row(&s)).expect("a badge").0, "This session");
    let other = Session {
        who: "someone".into(),
        service: "SMB".into(),
        from: "192.0.2.9".into(),
        since: "08:00".into(),
        ..Session::default()
    };
    let row = session_row(&other);
    assert_eq!(row.subtitle, "SMB · 192.0.2.9 · since 08:00");
    assert!(row.badge.is_none());
}

#[test]
fn an_interface_row_gives_its_address_link_and_addressing() {
    let up = NetworkInterface {
        name: "ovs_eth0".into(),
        ip: Some("192.0.2.4".into()),
        netmask: Some("255.255.255.0".into()),
        speed_mbit: 10000,
        status: "Connected".into(),
        ..NetworkInterface::default()
    };
    let row = interface_row(&up);
    assert_eq!(row.subtitle, "192.0.2.4 / 255.255.255.0 · 10 GbE · static");
    assert_eq!(badge(&row), Some(("Connected", "success")));
    let down = NetworkInterface { name: "eth1".into(), dhcp: true, ..NetworkInterface::default() };
    let row = interface_row(&down);
    assert_eq!(row.subtitle, "no address · — · DHCP");
    assert_eq!(badge(&row), Some(("Disconnected", "dim-label")));
}

#[test]
fn the_package_tiles_count_and_warn_of_updates() {
    let ps = vec![
        Package { status: "running".into(), ..Package::default() },
        Package { status: "RUNNING".into(), version: "1".into(), available_version: Some("2".into()), ..Package::default() },
        Package { status: "stopped".into(), ..Package::default() },
    ];
    let tiles: Vec<_> = package_stats(&ps).iter().map(|s| (s.value.clone(), s.warn)).collect();
    assert_eq!(
        tiles,
        vec![("3".to_string(), false), ("2".to_string(), false), ("1".to_string(), false), ("1".to_string(), true)]
    );
}

#[test]
fn the_session_tiles_count_distinct_services_and_accounts() {
    let ss = vec![
        Session { who: "admin".into(), service: "DSM".into(), is_current: true, ..Session::default() },
        Session { who: "admin".into(), service: "SMB".into(), ..Session::default() },
        Session { who: "guest".into(), service: "SMB".into(), ..Session::default() },
    ];
    let tiles: Vec<String> = session_stats(&ss).iter().map(|s| s.value.clone()).collect();
    assert_eq!(tiles, vec!["3", "2", "2", "1"]);
}

#[test]
fn the_fastest_connected_link_is_the_one_reported() {
    let ns = vec![
        NetworkInterface { speed_mbit: 1000, status: "connected".into(), ip: Some("a".into()), ..NetworkInterface::default() },
        NetworkInterface { speed_mbit: 10000, status: "disconnected".into(), ..NetworkInterface::default() },
        NetworkInterface { speed_mbit: 1000, status: "connected".into(), ip: Some("b".into()), ..NetworkInterface::default() },
    ];
    let tiles = network_stats(&ns);
    let tiles: Vec<_> = tiles.iter().map(stat).collect();
    assert_eq!(
        tiles,
        vec![("3", "interfaces", false), ("2", "connected", false), ("1 GbE", "fastest link", false), ("b", "primary address", false)]
    );
    let none = network_stats(&[]);
    assert_eq!(stat(&none[1]), ("0", "connected", true));
    assert_eq!(stat(&none[2]), ("—", "fastest link", false));
}

// ---- temperature & power -------------------------------------------------

#[test]
fn the_power_tiles_name_the_hottest_drive_and_warn_when_drives_run_warm() {
    let snap = Snapshot {
        system: Some(SystemInfo { temperature_c: Some(41), ..SystemInfo::default() }),
        storage: Some(Storage {
            volumes: vec![],
            disks: vec![
                Disk { temperature_c: Some(47), ..Disk::default() },
                Disk { temperature_c: Some(49), ..Disk::default() },
                Disk { temperature_c: None, ..Disk::default() },
            ],
            pools: vec![],
        }),
        cooling: Some(Cooling { mode: Some("quietfan".into()), disk_temperature_fault: false }),
        ups: Some(Ups { enabled: true, charge_percent: Some(87), ..Ups::default() }),
        ..Snapshot::default()
    };
    let tiles = power_stats(&snap);
    let tiles: Vec<_> = tiles.iter().map(stat).collect();
    assert_eq!(
        tiles,
        vec![
            ("41 °C", "system", false),
            ("49 °C", "2 running warm", true),
            ("Quiet mode", "fan profile", false),
            ("87%", "battery", false),
        ]
    );
    let empty = power_stats(&Snapshot::default());
    let empty: Vec<_> = empty.iter().map(stat).collect();
    assert_eq!(
        empty,
        vec![("—", "system", false), ("—", "hottest drive", false), ("—", "fan profile", false), ("—", "battery", false)]
    );
}

#[test]
fn no_ups_configured_is_said_plainly_and_a_low_charge_warns() {
    let rows = ups_rows(&Ups::default());
    assert_eq!(rows.len(), 1);
    assert_eq!(rows[0].title, "No UPS");
    let low = Ups { enabled: true, charge_percent: Some(40), runtime_seconds: Some(900), ..Ups::default() };
    let rows = ups_rows(&low);
    assert_eq!(rows[1].subtitle, "40%");
    assert_eq!(badge(&rows[1]), Some(("Low charge", "warning")));
    assert_eq!(rows[2].subtitle, "15 min");
    assert_eq!(rows[3].subtitle, "—");
    let fault = cooling_rows(&Cooling { mode: None, disk_temperature_fault: true });
    assert_eq!(badge(&fault[1]), Some(("Fault", "warning")));
}

// ---- health words, volumes, containers, drives --------------------------

#[test]
fn health_maps_onto_style_classes_adwaita_already_defines() {
    assert_eq!(health_class(Health::Normal), "success");
    assert_eq!(health_class(Health::Critical), "error");
    assert_eq!(health_class(Health::Unknown), "dim-label");
    assert_eq!(health_word(Health::Unknown), "Unknown");
}

#[test]
fn a_compound_summary_status_reads_as_a_word() {
    assert_eq!(prettify_status("background_scrubbing"), "Scrubbing");
    assert_eq!(prettify_status("fs_normal"), "Normal");
    assert_eq!(prettify_status("volume_rebuilding"), "Volume rebuilding");
    assert_eq!(prettify_status(""), "");
}

#[test]
fn a_volume_reports_what_it_is_doing_not_just_that_it_is_healthy() {
    let scrubbing = Volume {
        health: Health::Warning,
        summary_status: Some("background_scrubbing".into()),
        ..Volume::default()
    };
    assert_eq!(volume_status(&scrubbing), ("Scrubbing".to_string(), "warning"));
    let quiet = Volume { health: Health::Normal, ..Volume::default() };
    assert_eq!(volume_status(&quiet), ("Normal".to_string(), "success"));
}

#[test]
fn a_running_container_that_fails_its_health_check_does_not_read_as_fine() {
    let running = Container { state: State::Running, ..Container::default() };
    assert_eq!(container_pill(&running), ("Running", "success"));
    let sick = Container { state: State::Running, health: Some(ContainerHealth::Unhealthy), ..Container::default() };
    assert_eq!(container_pill(&sick), ("Unhealthy", "error"));
    let warming = Container { state: State::Running, health: Some(ContainerHealth::Starting), ..Container::default() };
    assert_eq!(container_pill(&warming), ("Starting", "warning"));
}

#[test]
fn a_stopped_containers_stale_health_does_not_outrank_being_stopped() {
    let stopped = Container { state: State::Exited, health: Some(ContainerHealth::Healthy), ..Container::default() };
    assert_eq!(container_pill(&stopped), ("Exited", "dim-label"));
}

fn container() -> Container {
    Container {
        id: "abc".into(),
        name: "brain-server".into(),
        state: State::Running,
        status: "running".into(),
        uptime: Some(232_744),
        ..Container::default()
    }
}

#[test]
fn a_health_check_verdict_shows_only_when_the_image_defines_one() {
    assert_eq!(health_verdict(&container()), None);
    let healthy = Container { health: Some(ContainerHealth::Healthy), ..container() };
    assert_eq!(health_verdict(&healthy), Some(("Healthy", "success")));
    let sick = Container { health: Some(ContainerHealth::Unhealthy), ..container() };
    assert_eq!(state_word(sick.state), ("Running", "success"));
    assert_eq!(health_verdict(&sick), Some(("Unhealthy", "error")));
}

#[test]
fn a_stopped_container_says_why_unless_it_exited_cleanly() {
    let clean = Container { state: State::Exited, exit_code: Some(0), ..container() };
    assert_eq!(exit_note(&clean), None);
    let crashed = Container { state: State::Exited, exit_code: Some(137), ..container() };
    assert_eq!(exit_note(&crashed).as_deref(), Some("exit 137"));
    let oom = Container { state: State::Exited, exit_code: Some(137), oom_killed: true, ..container() };
    assert_eq!(exit_note(&oom).as_deref(), Some("out of memory"));
    assert_eq!(exit_note(&container()), None);
}

#[test]
fn a_project_status_is_capitalised_and_coloured_like_a_state() {
    assert_eq!(state_pill("RUNNING"), ("Running".to_string(), "success"));
    assert_eq!(state_pill("PARTIAL"), ("Partial".to_string(), "warning"));
    assert_eq!(state_pill("exited"), ("Exited".to_string(), "dim-label"));
    assert_eq!(state_pill(""), ("Unknown".to_string(), "warning"));
}

#[test]
fn counts_are_pluralised_and_buttons_named() {
    assert_eq!(count(1, "container"), "1 container");
    assert_eq!(count(3, "container"), "3 containers");
    assert_eq!(count(0, "project"), "0 projects");
    assert_eq!(verb(ContainerAction::Restart), "Restart");
}

fn disk() -> Disk {
    Disk {
        id: "sda".into(),
        name: "Drive 1".into(),
        model: Some("ST10000VN0008-2PJ103".into()),
        serial: Some("ZHZ0ABCD".into()),
        temperature_c: Some(47),
        size_bytes: 10_000_831_348_736,
        used_by: Some("reuse_1".into()),
        smart_health: Health::Normal,
        ..Disk::default()
    }
}

#[test]
fn identity_falls_back_when_dsm_omits_the_serial() {
    assert_eq!(disk_identity(&disk()), "ST10000VN0008-2PJ103\nZHZ0ABCD");
    let no_serial = Disk { serial: None, ..disk() };
    assert_eq!(disk_identity(&no_serial), "ST10000VN0008-2PJ103");
    let bare = Disk { id: "sdz".into(), ..Disk::default() };
    assert_eq!(disk_identity(&bare), "sdz");
}

#[test]
fn an_unallocated_drive_says_so_rather_than_being_blank() {
    assert_eq!(disk_allocation(&disk()), "reuse_1");
    let spare = Disk { used_by: None, ..disk() };
    assert_eq!(disk_allocation(&spare), "Unused");
}

#[test]
fn a_drive_with_no_temperature_sensor_shows_a_dash_not_zero() {
    assert_eq!(temperature_text(disk().temperature_c), "47 °C");
    let d = Disk { temperature_c: None, ..disk() };
    assert_eq!(temperature_text(d.temperature_c), "—");
    assert!(!d.is_hot());
    assert_eq!(temperature_text(Some(-3)), "-3 °C");
}

// ---- banner, log filter, ticks -------------------------------------------

#[test]
fn the_banner_puts_a_hot_box_before_the_storage_verdict() {
    let storage = Storage { volumes: vec![Volume { health: Health::Critical, ..Volume::default() }], disks: vec![], pools: vec![] };
    let hot = SystemInfo { temperature_warning: true, ..SystemInfo::default() };
    assert_eq!(banner_health(&hot, Some(&storage)), Health::Warning);
    assert_eq!(banner_health(&SystemInfo::default(), Some(&storage)), Health::Critical);
    assert_eq!(banner_health(&SystemInfo::default(), None), Health::Unknown);
}

#[test]
fn all_admits_everything_and_each_other_filter_is_exclusive() {
    assert!(Filter::All.admits(Severity::Info));
    assert!(Filter::All.admits(Severity::Error));
    assert!(Filter::Error.admits(Severity::Error));
    assert!(!Filter::Error.admits(Severity::Warning));
    assert!(!Filter::Info.admits(Severity::Error));
    assert_eq!(Filter::Warning.label(), "Warning");
}

#[test]
fn tick_labels_end_in_now_and_start_at_the_full_span() {
    let hour = tick_labels(Range::Hour);
    assert_eq!(hour[0], "-60m");
    assert_eq!(hour[2], "-30m");
    assert_eq!(hour[4], "now");
}

#[test]
fn tick_labels_change_unit_with_the_range() {
    assert_eq!(tick_labels(Range::Day)[0], "-24h");
    assert_eq!(tick_labels(Range::Week)[0], "-7d");
    assert_eq!(tick_labels(Range::Month)[0], "-30d");
    assert_eq!(tick_labels(Range::Day), vec!["-24h", "-18h", "-12h", "-6h", "now"]);
}

#[test]
fn the_interval_reads_in_the_unit_that_suits_it() {
    assert_eq!(human_interval(Range::Hour), "5 s");
    assert_eq!(human_interval(Range::Day), "1 min");
    assert_eq!(human_interval(Range::Month), "30 min");
}

fn package(name: &str, status: &str, available: Option<&str>) -> Package {
    Package {
        name: name.into(),
        version: "1.0".into(),
        status: status.into(),
        available_version: available.map(|a| a.to_string()),
        ..Package::default()
    }
}

#[test]
fn the_overview_lists_updates_then_running_then_the_rest_and_at_most_six() {
    let ps = vec![
        package("Alpha", "stopped", None),
        package("Beta", "running", None),
        package("Gamma", "stopped", Some("2.0")),
        package("Delta", "RUNNING", Some("1.1")),
        package("Epsilon", "running", None),
        package("Zeta", "stopped", None),
        package("Eta", "stopped", Some("1.0")),
        package("Theta", "running", None),
    ];
    let names: Vec<&str> = overview_packages(&ps).iter().map(|&i| ps[i].name.as_str()).collect();
    // Delta has an update and runs; Gamma has one; an "update" to the
    // installed version is none, so Eta is just stopped.
    assert_eq!(names, vec!["Delta", "Gamma", "Beta", "Epsilon", "Theta", "Alpha"]);
    assert!(overview_packages(&[]).is_empty());
}

fn moving(rx: u64, tx: u64) -> Sample {
    Sample {
        at: 0,
        cpu_percent: 0,
        memory_percent: 0,
        network_rx: rx,
        network_tx: tx,
        disk_utilization: 0,
        temperature_c: None,
    }
}

#[test]
fn the_bytes_moved_are_rates_times_the_tier_interval() {
    let samples = [moving(100, 20), moving(0, 5), moving(3, 0)];
    // (120 + 5 + 3) bytes per second, each held for five seconds.
    assert_eq!(transferred(&samples, Range::Hour), 640);
    // The same rates held a minute each on the day tier.
    assert_eq!(transferred(&samples, Range::Day), 7_680);
    assert_eq!(transferred(&[], Range::Month), 0);
}

#[test]
fn the_share_tiles_add_up_usage_and_count_quotas_and_hidden_shares() {
    let shares = [
        Share { name: "homes".into(), used_bytes: 95, quota_bytes: Some(100), ..Share::default() },
        Share { name: "Games".into(), used_bytes: 13_000_000_000_000, hidden: true, ..Share::default() },
        Share { name: "backup".into(), used_bytes: 5, quota_bytes: Some(1_000), hidden: true, ..Share::default() },
    ];
    assert_eq!(share_totals(&shares), (13_000_000_000_100, 2, 2));
    assert_eq!(share_totals(&[]), (0, 0, 0));
}

#[test]
fn a_log_pill_is_coloured_by_severity_and_information_is_dimmed() {
    assert_eq!(severity_class(Severity::Error), "error");
    assert_eq!(severity_class(Severity::Warning), "warning");
    assert_eq!(severity_class(Severity::Info), "dim-label");
}

#[test]
fn a_package_container_is_flagged_so_it_gets_no_buttons() {
    let mut c = container();
    c.is_package = true;
    assert!(row_actions(&c).is_empty());
    assert_eq!(row_actions(&container()), vec![ContainerAction::Stop, ContainerAction::Restart]);
    let stopped = Container { state: State::Exited, ..container() };
    assert_eq!(row_actions(&stopped), vec![ContainerAction::Start]);
    let paused = Container { state: State::Paused, ..container() };
    assert_eq!(row_actions(&paused), vec![ContainerAction::Stop, ContainerAction::Restart]);
}

#[test]
fn the_connect_dialog_trims_what_was_typed_and_keeps_the_port_it_cannot_read() {
    let base = Config { port: 5001, device_id: Some("dev".into()), poll_interval: 0, ..Config::default() };
    let a = connect_answer(&base, "  nas.local \n", "50x1", true, false, " admin ", " secret ", "   ");
    assert_eq!(a.config.address, "nas.local");
    assert_eq!(a.config.account, "admin");
    assert_eq!(a.config.port, 5001);
    assert!(a.config.https);
    assert!(!a.config.verify_tls);
    assert_eq!(a.config.device_id.as_deref(), Some("dev"));
    // Sanitised: a zero interval is clamped.
    assert_eq!(a.config.poll_interval, 1);
    assert_eq!(a.password, " secret ");
    assert_eq!(a.otp_code, None);

    let b = connect_answer(&base, "nas", "+5000", false, true, "me", "pw", " 123456 ");
    assert_eq!(b.config.port, 5000);
    assert_eq!(b.otp_code.as_deref(), Some("123456"));
    // A zero port is the scheme's own; one past u16 keeps the old port.
    assert_eq!(connect_answer(&base, "nas", "0", false, true, "me", "pw", "").config.port, 5000);
    assert_eq!(connect_answer(&base, "nas", "70000", true, true, "me", "pw", "").config.port, 5001);
    assert_eq!(connect_answer(&base, "nas", " 5000", true, true, "me", "pw", "").config.port, 5001);
}
