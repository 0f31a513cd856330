use lookout_core::json::{Json, Number};
use lookout_core::model::system::{parse_uptime, titlecase};
use lookout_core::model::{
    format_uptime, owning_project, unowned_containers, Container, ContainerHealth, Cooling, Disk, Health, LogPage,
    NetworkInterface, Package, Project, Session, Severity, Share, State, Storage, SystemInfo, Ups, Utilization,
    Volume,
};

fn to_json(v: &serde_json::Value) -> Json {
    match v {
        serde_json::Value::Null => Json::Null,
        serde_json::Value::Bool(b) => Json::Bool(*b),
        serde_json::Value::Number(n) => Json::Number(if let Some(u) = n.as_u64() {
            Number::PosInt(u)
        } else if let Some(i) = n.as_i64() {
            Number::NegInt(i)
        } else {
            Number::Float(n.as_f64().expect("a number").to_bits())
        }),
        serde_json::Value::String(s) => Json::Str(s.clone()),
        serde_json::Value::Array(a) => Json::Array(a.iter().map(to_json).collect()),
        serde_json::Value::Object(o) => Json::Object(o.iter().map(|(k, v)| (k.clone(), to_json(v))).collect()),
    }
}

fn value(text: &str) -> serde_json::Value {
    serde_json::from_str(text).expect("valid JSON")
}

fn json(text: &str) -> Json {
    to_json(&value(text))
}

const MIB: f64 = 1024.0 * 1024.0;

// ---- containers ---------------------------------------------------------

fn listing() -> Json {
    json(
        r#"{"containers": [
            {"id": "abc123", "name": "brain-server",
             "image": "localhost:5050/brain-server:2026-08-04-2024",
             "status": "running", "up_time": 232744, "is_package": false},
            {"id": "def456", "name": "llama-embed",
             "image": "ghcr.io/ggml-org/llama.cpp:server",
             "status": "exited", "is_package": false}
        ]}"#,
    )
}

fn compose_container() -> serde_json::Value {
    value(
        r#"{"containers": [{
            "id": "109e190453a5", "name": "planner-server",
            "image": "localhost:5050/planner-server:2026-08-05-8d9cd52",
            "status": "running", "is_package": false,
            "up_time": null,
            "up_status": "Up 3 days (healthy)",
            "State": {
                "Status": "running", "Running": true, "Paused": false,
                "Restarting": false, "Dead": false, "OOMKilled": false,
                "ExitCode": 0, "Pid": 24821,
                "StartedAt": "2026-08-05T13:26:32.78343004Z",
                "FinishedAt": "0001-01-01T00:00:00Z",
                "Health": {"Status": "healthy", "FailingStreak": 0}
            }
        }]}"#,
    )
}

fn float(x: f64) -> Option<Number> {
    Some(Number::Float(x.to_bits()))
}

#[test]
fn a_listing_reads_end_to_end() {
    let cs = Container::list_from_json(&listing());
    assert_eq!(cs.len(), 2);
    assert_eq!(cs[0].name, "brain-server");
    assert_eq!(cs[0].state, State::Running);
    assert_eq!(cs[0].uptime, Some(232_744));
    assert_eq!(cs[1].state, State::Exited);
}

#[test]
fn container_uptime_is_seconds_here_unlike_the_systems_colon_string() {
    let cs = Container::list_from_json(&listing());
    assert_eq!(cs[0].uptime.expect("uptime"), 232_744);
}

#[test]
fn state_decides_which_button_the_row_offers() {
    assert!(State::from_word("running").is_up());
    assert!(State::from_word("paused").is_up());
    assert!(!State::from_word("exited").is_up());
    assert!(!State::Unknown.is_up());
}

#[test]
fn an_unrecognised_state_is_unknown_rather_than_running() {
    assert_eq!(State::from_word("half-way-up"), State::Unknown);
}

#[test]
fn resources_are_folded_in_by_name() {
    let mut cs = Container::list_from_json(&listing());
    Container::apply_resources(
        &mut cs,
        &json(r#"{"containers": [{"name": "brain-server", "cpu": 3.5, "memory": 104857600}]}"#),
    );
    assert_eq!(cs[0].cpu_percent, float(3.5));
    assert_eq!(cs[0].memory_bytes, Some(104_857_600));
    assert_eq!(cs[1].cpu_percent, None);
}

#[test]
fn a_resource_reply_for_a_container_we_do_not_have_is_ignored() {
    let mut cs = Container::list_from_json(&listing());
    Container::apply_resources(&mut cs, &json(r#"{"containers": [{"name": "ghost", "cpu": 9.0}]}"#));
    assert!(cs.iter().all(|c| c.cpu_percent.is_none()));
}

#[test]
fn a_projects_location_is_the_full_path_not_the_share_relative_one() {
    let ps = Project::list_from_json(&json(
        r#"{"55e222c4": {
            "id": "55e222c4", "name": "web", "status": "RUNNING",
            "path": "/volume1/docker/web", "share_path": "/docker/web",
            "containerIds": []
        }}"#,
    ));
    assert_eq!(ps[0].path.as_deref(), Some("/volume1/docker/web"));
    assert_eq!(ps[0].status, "RUNNING");
}

#[test]
fn projects_arrive_keyed_by_id_not_as_an_array() {
    let ps = Project::list_from_json(&json(
        r#"{
            "bddfea05-8010-4dd9-a1c8-8d93867040b8": {
                "id": "bddfea05-8010-4dd9-a1c8-8d93867040b8",
                "name": "web", "status": "running",
                "share_path": "/volume1/docker/web",
                "containerIds": ["abc123"]
            },
            "8ec29f37-76bb-49c9-bf07-9b30403fed54": {
                "id": "8ec29f37-76bb-49c9-bf07-9b30403fed54",
                "name": "brain", "status": "stopped", "containerIds": []
            }
        }"#,
    ));
    assert_eq!(ps.len(), 2);
    assert_eq!(ps[0].name, "brain");
    assert_eq!(ps[1].name, "web");
    assert_eq!(ps[1].container_ids, vec!["abc123"]);
}

#[test]
fn a_compose_container_has_an_uptime_even_though_up_time_is_null() {
    let cs = Container::list_from_json(&to_json(&compose_container()));
    assert_eq!(cs[0].uptime, None);
    assert_eq!(cs[0].started_at, Some(1_785_936_392));
    let now = 1_785_936_392 + 3 * 86_400;
    assert_eq!(cs[0].uptime_at(now), Some(3 * 86_400), "should fall back to State.StartedAt");
}

#[test]
fn a_flat_up_time_still_wins_where_dsm_sends_one() {
    let cs = Container::list_from_json(&listing());
    assert_eq!(cs[0].uptime_at(0), Some(232_744));
}

#[test]
fn a_stopped_container_reports_no_uptime_however_recently_it_ran() {
    let mut data = compose_container();
    data["containers"][0]["status"] = serde_json::Value::from("exited");
    data["containers"][0]["State"]["Running"] = serde_json::Value::from(false);
    let cs = Container::list_from_json(&to_json(&data));
    assert_eq!(cs[0].state, State::Exited);
    assert_eq!(cs[0].uptime_at(1_785_936_392 + 3 * 86_400), None);
}

#[test]
fn the_health_check_verdict_is_read_from_the_state_object() {
    let cs = Container::list_from_json(&to_json(&compose_container()));
    assert_eq!(cs[0].health, Some(ContainerHealth::Healthy));
    assert_eq!(cs[0].exit_code, Some(0));
    assert!(!cs[0].oom_killed);
}

#[test]
fn an_image_with_no_health_check_reports_none_rather_than_unhealthy() {
    let cs = Container::list_from_json(&listing());
    assert_eq!(cs[0].health, None);
    assert_eq!(ContainerHealth::from_word("nonsense"), None);
}

#[test]
fn an_oom_kill_is_visible_because_it_is_the_reason_it_is_down() {
    let mut data = compose_container();
    data["containers"][0]["status"] = serde_json::Value::from("exited");
    data["containers"][0]["State"]["OOMKilled"] = serde_json::Value::from(true);
    data["containers"][0]["State"]["ExitCode"] = serde_json::Value::from(137);
    let cs = Container::list_from_json(&to_json(&data));
    assert!(cs[0].oom_killed);
    assert_eq!(cs[0].exit_code, Some(137));
}

fn brain_project() -> Vec<Project> {
    Project::list_from_json(&json(
        r#"{"bddfea05-8010-4dd9-a1c8-8d93867040b8": {
            "id": "bddfea05-8010-4dd9-a1c8-8d93867040b8",
            "name": "brain", "status": "running",
            "share_path": "/volume1/docker/brain",
            "containerIds": ["abc123"]
        }}"#,
    ))
}

#[test]
fn a_project_gathers_the_containers_it_owns() {
    let containers = Container::list_from_json(&listing());
    let projects = brain_project();
    let owned = projects[0].containers_in(&containers);
    assert_eq!(owned.len(), 1);
    assert_eq!(owned[0].name, "brain-server");
}

#[test]
fn a_container_in_no_project_is_still_reachable() {
    let containers = Container::list_from_json(&listing());
    let projects = brain_project();
    let loose = unowned_containers(&projects, &containers);
    assert_eq!(loose.len(), 1);
    assert_eq!(loose[0].name, "llama-embed");
}

#[test]
fn a_container_can_name_the_project_that_owns_it() {
    let containers = Container::list_from_json(&listing());
    let projects = brain_project();
    assert_eq!(owning_project(&projects, &containers[0]).map(|p| p.name.as_str()), Some("brain"));
    assert!(owning_project(&projects, &containers[1]).is_none());
}

#[test]
fn with_no_projects_at_all_every_container_is_unowned() {
    let containers = Container::list_from_json(&listing());
    assert_eq!(unowned_containers(&[], &containers).len(), 2);
}

#[test]
fn an_empty_or_absent_reply_yields_an_empty_list() {
    assert!(Container::list_from_json(&json("{}")).is_empty());
    assert!(Project::list_from_json(&json("null")).is_empty());
}

// ---- log ----------------------------------------------------------------

fn log_sample() -> Json {
    json(
        r#"{
            "errorCount": 0, "warnCount": 1, "infoCount": 1, "total": 3206,
            "items": [
                {"descr": "Server back online.", "level": "info", "logtype": "System",
                 "orginalLogType": "system", "time": "2026/08/04 10:09:51", "who": "SYSTEM"},
                {"descr": "Volume degraded.", "level": "warn", "logtype": "System",
                 "time": "2026/08/04 10:10:00", "who": "SYSTEM"}
            ]
        }"#,
    )
}

#[test]
fn a_page_reads_its_entries_and_its_counts() {
    let p = LogPage::from_json(&log_sample());
    assert_eq!(p.entries.len(), 2);
    assert_eq!(p.total, 3206);
    assert_eq!(p.warning_count, 1);
    assert_eq!(p.entries[0].message, "Server back online.");
    assert_eq!(p.entries[0].who, "SYSTEM");
}

#[test]
fn dsm_abbreviates_severities_and_they_still_classify() {
    assert_eq!(Severity::from_word("err"), Severity::Error);
    assert_eq!(Severity::from_word("warn"), Severity::Warning);
    assert_eq!(Severity::from_word("info"), Severity::Info);
}

#[test]
fn an_unknown_severity_reads_as_info_rather_than_error() {
    assert_eq!(Severity::from_word("notice"), Severity::Info);
}

#[test]
fn severities_order_so_the_filter_can_ask_for_at_least() {
    assert!(Severity::Error > Severity::Warning);
    assert!(Severity::Warning > Severity::Info);
    let p = LogPage::from_json(&log_sample());
    assert_eq!(p.at_least(Severity::Warning).len(), 1);
    assert_eq!(p.at_least(Severity::Info).len(), 2);
}

#[test]
fn the_timestamp_is_kept_verbatim_rather_than_guessed_into_a_zone() {
    assert_eq!(LogPage::from_json(&log_sample()).entries[0].time, "2026/08/04 10:09:51");
}

#[test]
fn an_empty_reply_is_an_empty_page() {
    let p = LogPage::from_json(&json("{}"));
    assert!(p.entries.is_empty());
    assert_eq!(p.total, 0);
}

// ---- power --------------------------------------------------------------

#[test]
fn the_fan_reply_reads_its_yes_no_strings_as_flags() {
    let c = Cooling::from_json(&json(
        r#"{"all_disk_temp_fail": "no", "cool_fan": "yes", "dual_fan_speed": "coolfan", "fan_type": 11}"#,
    ));
    assert!(!c.disk_temperature_fault);
    assert_eq!(c.mode_label(), "Cool mode");
}

#[test]
fn a_disk_temperature_fault_is_picked_up() {
    let c = Cooling::from_json(&json(r#"{"all_disk_temp_fail": "yes"}"#));
    assert!(c.disk_temperature_fault);
}

#[test]
fn an_unrecognised_fan_mode_is_shown_rather_than_hidden() {
    let c = Cooling::from_json(&json(r#"{"dual_fan_speed": "somenewmode"}"#));
    assert_eq!(c.mode_label(), "somenewmode");
    assert_eq!(Cooling::from_json(&json("{}")).mode_label(), "—");
}

#[test]
fn a_ups_reads_end_to_end() {
    let u = Ups::from_json(&json(
        r#"{"enable": true, "manufacture": "APC", "model": "Back-UPS 1500", "charge": 100, "runtime": 3900, "mode": "usb"}"#,
    ));
    assert!(u.enabled);
    assert_eq!(u.description(), "APC Back-UPS 1500");
    assert_eq!(u.charge_percent, Some(100));
    assert_eq!(u.runtime_label(), "1 h 5 min");
}

#[test]
fn a_short_runtime_stays_in_minutes() {
    let u = Ups::from_json(&json(r#"{"runtime": 900}"#));
    assert_eq!(u.runtime_label(), "15 min");
}

#[test]
fn no_ups_is_absent_rather_than_a_zero_charge_battery() {
    let u = Ups::from_json(&json(r#"{"enable": false}"#));
    assert!(!u.enabled);
    assert_eq!(u.runtime_label(), "—");
    assert_eq!(u.description(), "Unknown UPS");
}

// ---- sessions -----------------------------------------------------------

fn session_sample() -> Json {
    json(
        r#"{"items": [
            {"who": "admin", "from": "100.101.102.103", "descr": "DSM",
             "first_login_time": "2026/08/04 09:58:03",
             "can_be_kicked": true, "is_current_connected": true},
            {"who": "someone", "from": "192.0.2.9", "descr": "SMB",
             "first_login_time": "2026/08/04 08:00:00",
             "can_be_kicked": true, "is_current_connected": false}
        ], "total": 2}"#,
    )
}

#[test]
fn sessions_read_end_to_end() {
    let ss = Session::list_from_json(&session_sample());
    assert_eq!(ss.len(), 2);
    assert_eq!(ss[1].who, "someone");
    assert_eq!(ss[1].service, "SMB");
    assert_eq!(ss[1].from, "192.0.2.9");
}

#[test]
fn the_session_doing_the_asking_cannot_be_ended_even_though_dsm_allows_it() {
    let ss = Session::list_from_json(&session_sample());
    assert!(ss[0].is_current);
    assert!(!ss[0].can_be_ended, "our own session must not be endable");
    assert!(ss[1].can_be_ended);
}

#[test]
fn a_session_dsm_refuses_to_end_stays_that_way() {
    let ss = Session::list_from_json(&json(
        r#"{"items": [{"who": "system", "can_be_kicked": false, "is_current_connected": false}]}"#,
    ));
    assert!(!ss[0].can_be_ended);
}

#[test]
fn the_service_falls_back_to_the_type_when_there_is_no_description() {
    let ss = Session::list_from_json(&json(r#"{"items": [{"who": "x", "type": "FTP"}]}"#));
    assert_eq!(ss[0].service, "FTP");
}

#[test]
fn session_an_empty_reply_is_an_empty_list() {
    assert!(Session::list_from_json(&json("{}")).is_empty());
}

// ---- storage ------------------------------------------------------------

fn storage_sample() -> Json {
    json(
        r#"{
            "volumes": [{
                "id": "volume_1", "device_type": "shr_1", "fs_type": "btrfs",
                "status": "normal", "summary_status": "background_scrubbing",
                "pool_path": "reuse_1", "vol_path": "/volume1", "disks": [],
                "size": {"total": "28770439729152", "used": "14604487745536",
                         "total_device": "29969208049664"}
            }],
            "disks": [
                {"id": "sda", "name": "Drive 1", "model": "ST10000VN0008-2PJ103",
                 "temp": 31, "smart_status": "normal", "status": "normal",
                 "size_total": "10000831348736", "used_by": "reuse_1"},
                {"id": "sdb", "name": "Drive 2", "model": "ST10000VN0008-2PJ103",
                 "temp": 47, "smart_status": "normal", "status": "normal",
                 "size_total": "10000831348736", "used_by": "reuse_1"}
            ],
            "storagePools": [{
                "id": "reuse_1", "device_type": "shr_1", "status": "normal",
                "disks": ["sda", "sdb"],
                "size": {"total": "29969208049664", "used": "14604487745536"}
            }]
        }"#,
    )
}

#[test]
fn byte_counts_past_two_to_the_fifty_third_survive_as_strings() {
    let s = Storage::from_json(&storage_sample());
    assert_eq!(s.volumes[0].total_bytes, 28_770_439_729_152);
    assert_eq!(s.volumes[0].used_bytes, 14_604_487_745_536);
    assert_eq!(s.volumes[0].free_bytes(), 28_770_439_729_152 - 14_604_487_745_536);
}

#[test]
fn a_volume_with_no_display_name_falls_back_to_its_id() {
    assert_eq!(Storage::from_json(&storage_sample()).volumes[0].name, "volume_1");
}

#[test]
fn a_disks_capacity_is_flat_while_a_volumes_is_nested() {
    assert_eq!(Storage::from_json(&storage_sample()).disks[0].size_bytes, 10_000_831_348_736);
}

#[test]
fn a_drive_at_forty_five_is_hot_and_one_below_is_not() {
    let s = Storage::from_json(&storage_sample());
    assert!(!s.disks[0].is_hot());
    assert!(s.disks[1].is_hot());
}

#[test]
fn dsm_status_words_map_onto_a_severity() {
    assert_eq!(Health::from_word("normal"), Health::Normal);
    assert_eq!(Health::from_word("degrade"), Health::Warning);
    assert_eq!(Health::from_word("crashed"), Health::Critical);
    assert_eq!(Health::from_word("reshaping-sideways"), Health::Unknown);
}

#[test]
fn a_pool_rebuilding_is_a_warning_not_a_clean_bill() {
    assert_eq!(Health::from_word("background"), Health::Warning);
}

#[test]
fn the_worst_health_is_what_the_banner_reports() {
    let mut s = Storage::from_json(&storage_sample());
    assert_eq!(s.worst_health(), Health::Warning);
    s.disks[1].smart_health = Health::Critical;
    assert_eq!(s.worst_health(), Health::Critical);
}

#[test]
fn compound_summary_statuses_classify_rather_than_falling_through() {
    assert_eq!(Health::from_word("background_scrubbing"), Health::Warning);
    assert_eq!(Health::from_word("fs_normal"), Health::Normal);
    assert_eq!(Health::from_word("volume_rebuilding"), Health::Warning);
    assert_eq!(Health::from_word("crashed_scrubbing"), Health::Critical);
}

#[test]
fn unknown_does_not_outrank_a_real_failure() {
    let s = Storage {
        volumes: vec![Volume { health: Health::Critical, ..Volume::default() }],
        disks: vec![Disk { health: Health::Unknown, ..Disk::default() }],
        pools: vec![],
    };
    assert_eq!(s.worst_health(), Health::Critical);
}

#[test]
fn a_volume_knows_which_pool_it_sits_on() {
    let s = Storage::from_json(&storage_sample());
    assert_eq!(s.volumes[0].pool_id.as_deref(), Some("reuse_1"));
    assert_eq!(s.volumes[0].mount_path.as_deref(), Some("/volume1"));
}

#[test]
fn a_pool_gathers_its_volumes_and_its_drives() {
    let s = Storage::from_json(&storage_sample());
    let pool = &s.pools[0];
    assert_eq!(s.volumes_in(pool).len(), 1);
    assert_eq!(s.disks_in(pool).len(), 2);
}

#[test]
fn drives_are_matched_by_used_by_when_the_pool_lists_none() {
    let s = Storage::from_json(&json(
        r#"{"disks": [{"id": "sdz", "name": "Drive 9", "used_by": "reuse_1"}],
            "storagePools": [{"id": "reuse_1", "status": "normal"}]}"#,
    ));
    assert_eq!(s.disks_in(&s.pools[0]).len(), 1);
}

#[test]
fn a_drive_in_no_pool_is_still_reachable() {
    let s = Storage::from_json(&json(
        r#"{"disks": [{"id": "sda", "used_by": "reuse_1"}, {"id": "sdz", "used_by": ""}],
            "storagePools": [{"id": "reuse_1", "status": "normal", "disks": ["sda"]}]}"#,
    ));
    let loose = s.unassigned_disks();
    assert_eq!(loose.len(), 1);
    assert_eq!(loose[0].id, "sdz");
}

#[test]
fn a_scrubbing_volume_is_busy_rather_than_plainly_normal() {
    let s = Storage::from_json(&storage_sample());
    assert_eq!(s.volumes[0].summary_status.as_deref(), Some("background_scrubbing"));
    assert_eq!(s.volumes[0].health, Health::Warning);
}

#[test]
fn an_empty_reply_yields_nothing_rather_than_panicking() {
    let s = Storage::from_json(&json("{}"));
    assert!(s.volumes.is_empty() && s.disks.is_empty() && s.pools.is_empty());
    assert_eq!(s.worst_health(), Health::Unknown);
}

// ---- packages -----------------------------------------------------------

fn package_sample() -> Json {
    json(
        r#"{"packages": [
            {"id": "ContainerManager", "name": "Container Manager",
             "version": "24.0.2-1606", "additional": {"status": "running"}},
            {"id": "SynologyPhotos", "name": "Synology Photos",
             "version": "1.7.0-0794", "additional": {"status": "running"},
             "available_version": "1.8.0-0801"},
            {"id": "AntiVirus", "name": "Antivirus Essential",
             "version": "1.4.6-0272", "additional": {"status": "stopped"}}
        ]}"#,
    )
}

#[test]
fn packages_read_and_sort_by_name() {
    let ps = Package::list_from_json(&package_sample());
    assert_eq!(ps.len(), 3);
    assert_eq!(ps[0].name, "Antivirus Essential");
    assert_eq!(ps[1].name, "Container Manager");
    assert!(ps[1].is_running());
    assert!(!ps[0].is_running());
}

#[test]
fn an_update_is_a_different_version_not_a_parsed_comparison() {
    let ps = Package::list_from_json(&package_sample());
    let photos = ps.iter().find(|p| p.id == "SynologyPhotos").expect("photos");
    assert!(photos.has_update());
    let cm = ps.iter().find(|p| p.id == "ContainerManager").expect("cm");
    assert!(!cm.has_update());
}

#[test]
fn an_available_version_equal_to_the_installed_one_is_not_an_update() {
    let ps = Package::list_from_json(&json(
        r#"{"packages": [{"id": "x", "version": "1.0", "available_version": "1.0"}]}"#,
    ));
    assert!(!ps[0].has_update());
}

#[test]
fn a_package_with_no_display_name_falls_back_to_its_id() {
    let ps = Package::list_from_json(&json(r#"{"packages": [{"id": "Bare"}]}"#));
    assert_eq!(ps[0].name, "Bare");
}

#[test]
fn status_is_read_from_additional_where_dsm_actually_puts_it() {
    let ps = Package::list_from_json(&package_sample());
    assert!(ps.iter().any(|p| p.is_running()));
    assert_eq!(ps.iter().filter(|p| p.is_running()).count(), 2, "two of the three sample packages are running");
}

#[test]
fn a_package_listed_without_the_status_addition_is_not_claimed_to_be_running() {
    let ps = Package::list_from_json(&json(r#"{"packages": [{"id": "x", "name": "X"}]}"#));
    assert!(!ps[0].is_running());
}

#[test]
fn package_an_empty_reply_is_an_empty_list() {
    assert!(Package::list_from_json(&json("{}")).is_empty());
}

#[test]
fn packages_sort_without_regard_to_case_and_keep_ties_in_order() {
    let ps = Package::list_from_json(&json(
        r#"{"packages": [{"id": "b", "name": "beta"}, {"id": "A2", "name": "Alpha"},
                         {"id": "a1", "name": "alpha"}, {"id": "c", "name": "Gamma"}]}"#,
    ));
    let ids: Vec<&str> = ps.iter().map(|p| p.id.as_str()).collect();
    assert_eq!(ids, vec!["A2", "a1", "b", "c"]);
}

// ---- shares -------------------------------------------------------------

fn share_sample() -> Json {
    json(
        r#"{"shares": [
            {"name": "docker", "desc": "", "vol_path": "/volume1", "hidden": false,
             "is_usb_share": false, "quota_value": 0, "share_quota_used": 322.18359375},
            {"name": "Games", "desc": "", "vol_path": "/volume1", "hidden": false,
             "is_usb_share": false, "quota_value": 0, "share_quota_used": 12418721.0},
            {"name": "Capped", "desc": "", "vol_path": "/volume1",
             "quota_value": 1024.0, "share_quota_used": 512.0}
        ]}"#,
    )
}

#[test]
fn share_sizes_are_mebibytes_and_convert_to_bytes() {
    let s = Share::list_from_json(&share_sample());
    assert_eq!(s[1].used_bytes, (12_418_721.0 * MIB) as u64);
    assert!(s[1].used_bytes > 13_000_000_000_000);
}

#[test]
fn a_fractional_size_survives_the_conversion() {
    let s = Share::list_from_json(&share_sample());
    assert_eq!(s[0].used_bytes, (322.18359375 * MIB) as u64);
}

#[test]
fn a_negative_or_absent_size_reads_as_zero_rather_than_wrapping() {
    let s = Share::list_from_json(&json(r#"{"shares": [{"name": "odd", "share_quota_used": -1.0}, {"name": "blank"}]}"#));
    assert_eq!(s[0].used_bytes, 0);
    assert_eq!(s[1].used_bytes, 0);
}

#[test]
fn share_an_empty_reply_is_an_empty_list() {
    assert!(Share::list_from_json(&json("{}")).is_empty());
}

#[test]
fn a_zero_quota_is_no_quota_and_a_real_one_is_in_bytes() {
    let s = Share::list_from_json(&share_sample());
    assert_eq!(s[0].quota_bytes, None);
    assert_eq!(s[2].quota_bytes, Some(1024 * 1024 * 1024));
    assert_eq!(s[2].used_bytes, 512 * 1024 * 1024);
}

#[test]
fn sizes_convert_exactly_as_a_float_cast_would() {
    let cases = [0.1, 1.5, 1e-300, 5e-324, 123456.789, 1.7e13, 1.7e14, 1e300, f64::MAX];
    for x in cases {
        let text = format!(r#"{{"shares": [{{"share_quota_used": {x:e}, "quota_value": {x:e}}}]}}"#);
        let s = Share::list_from_json(&json(&text));
        let bits = f64::from_bits(serde_json::from_str::<f64>(&format!("{x:e}")).expect("a float").to_bits());
        assert_eq!(s[0].used_bytes, (bits * MIB) as u64, "{x}");
        assert_eq!(s[0].quota_bytes, Some((bits * MIB) as u64), "{x}");
    }
    let whole = Share::list_from_json(&json(r#"{"shares": [{"share_quota_used": 17592186044415}, {"share_quota_used": 17592186044416}]}"#));
    assert_eq!(whole[0].used_bytes, 17_592_186_044_415u64 * 1_048_576);
    assert_eq!(whole[1].used_bytes, u64::MAX);
}

#[test]
fn a_share_flags_what_it_is() {
    let s = Share::list_from_json(&json(
        r#"{"shares": [{"name": "usb", "desc": "stick", "vol_path": "/volumeUSB1", "hidden": "yes", "is_usb_share": true}]}"#,
    ));
    assert_eq!(s[0].description, "stick");
    assert_eq!(s[0].volume_path, "/volumeUSB1");
    assert!(s[0].hidden && s[0].is_usb);
}

// ---- system -------------------------------------------------------------

fn nas() -> Json {
    json(
        r#"{
            "cpu_clock_speed": 2200, "cpu_cores": "4", "cpu_family": "Xeon",
            "cpu_series": "D-1527", "cpu_vendor": "INTEL", "enabled_ntp": true,
            "firmware_date": "2026/06/18", "firmware_ver": "DSM 7.2.2-72806 Update 3",
            "model": "DS-series", "ntp_server": "pool.ntp.org", "ram_size": 32768,
            "serial": "REDACTED", "sys_temp": 42, "sys_tempwarn": false,
            "systempwarn": false, "temperature_warning": false,
            "time_zone_desc": "(GMT-05:00) Eastern Time", "up_time": "64:48:7"
        }"#,
    )
}

fn ghz(mhz: Option<u64>) -> Option<String> {
    mhz.map(|m| format!("{:.2}", m as f64 / 1000.0))
}

#[test]
fn the_real_reply_reads_end_to_end() {
    let info = SystemInfo::from_json(&nas());
    assert_eq!(info.model.as_deref(), Some("DS-series"));
    assert_eq!(info.firmware_version.as_deref(), Some("DSM 7.2.2-72806 Update 3"));
    assert_eq!(info.ram_mb, Some(32768));
    assert_eq!(info.cpu_cores, Some(4));
    assert!(!info.temperature_warning);
}

#[test]
fn temperature_comes_from_sys_temp_which_is_what_dsm_7_3_sends() {
    assert_eq!(SystemInfo::from_json(&nas()).temperature_c, Some(42));
}

#[test]
fn temperature_falls_back_to_the_older_spelling() {
    let info = SystemInfo::from_json(&json(r#"{"temperature": 43}"#));
    assert_eq!(info.temperature_c, Some(43));
}

#[test]
fn any_of_the_three_warning_spellings_raises_the_warning() {
    for key in ["sys_tempwarn", "systempwarn", "temperature_warning"] {
        let info = SystemInfo::from_json(&json(&format!(r#"{{"{key}": true}}"#)));
        assert!(info.temperature_warning, "{key} should raise it");
    }
}

#[test]
fn uptime_is_hours_minutes_seconds_not_days_hours_minutes_seconds() {
    let d = parse_uptime(&json(r#""64:48:7""#)).expect("should parse");
    assert_eq!(d, 64 * 3600 + 48 * 60 + 7);
    assert_eq!(format_uptime(d), "2 days, 16 hours");
}

#[test]
fn the_four_field_form_is_read_as_days_first() {
    let d = parse_uptime(&json(r#""3:04:05:06""#)).expect("should parse");
    assert_eq!(d, 3 * 86_400 + 4 * 3600 + 5 * 60 + 6);
}

#[test]
fn a_nonsense_uptime_is_absent_rather_than_zero() {
    assert_eq!(parse_uptime(&json(r#""not a time""#)), None);
    assert_eq!(parse_uptime(&json(r#""1:2""#)), None);
    assert_eq!(parse_uptime(&json("12345")), None);
}

#[test]
fn uptime_fields_may_carry_spaces_and_a_plus() {
    assert_eq!(parse_uptime(&json(r#"" 1 : +02 :3\t""#)), Some(3600 + 120 + 3));
    assert_eq!(parse_uptime(&json(r#""1::3""#)), None);
}

#[test]
fn uptime_renders_at_each_scale() {
    assert_eq!(format_uptime(90), "1 minute");
    assert_eq!(format_uptime(3 * 3600 + 120), "3 hours, 2 minutes");
    assert_eq!(format_uptime(86_400 + 3600), "1 day, 1 hour");
}

#[test]
fn the_cpu_reads_as_one_phrase_with_the_vendor_no_longer_shouting() {
    let info = SystemInfo::from_json(&nas());
    assert_eq!(
        info.cpu_description(ghz(info.cpu_clock_mhz).as_deref()).as_deref(),
        Some("Intel D-1527 · 4 cores @ 2.20 GHz")
    );
}

#[test]
fn an_empty_reply_produces_an_empty_record_rather_than_a_panic() {
    let info = SystemInfo::from_json(&json("{}"));
    assert_eq!(info, SystemInfo::default());
    assert_eq!(info.cpu_description(ghz(info.cpu_clock_mhz).as_deref()), None);
}

#[test]
fn a_vendor_is_titlecased_letter_by_letter() {
    assert_eq!(titlecase("INTEL"), "Intel");
    assert_eq!(titlecase("aMD"), "Amd");
    assert_eq!(titlecase(""), "");
}

// ---- utilization --------------------------------------------------------

fn utilization_sample() -> Json {
    json(
        r#"{
            "cpu": {"15min_load": 2, "1min_load": 27, "5min_load": 10,
                    "device": "System", "other_load": 1, "system_load": 0, "user_load": 0},
            "memory": {"avail_real": 24333872, "avail_swap": 21684140, "buffer": 85012,
                       "cached": 5707596, "device": "Memory", "memory_size": 33554432,
                       "real_usage": 7, "si_disk": 0, "so_disk": 0,
                       "total_real": 32641796, "total_swap": 21684140, "swap_usage": 0},
            "network": [{"device": "total", "rx": 1024, "tx": 2048},
                        {"device": "eth0", "rx": 1024, "tx": 2048}],
            "disk": {"total": {"device": "total", "read_access": 0, "read_byte": 9478,
                               "utilization": 2, "write_access": 12, "write_byte": 4096}},
            "space": {"total": {"device": "total", "read_access": 0, "read_byte": 0,
                                "utilization": 3, "write_access": 35, "write_byte": 578560}}
        }"#,
    )
}

#[test]
fn load_averages_are_kept_in_hundredths_as_dsm_sends_them() {
    let u = Utilization::from_json(&utilization_sample());
    assert_eq!((u.cpu.load_1, u.cpu.load_5, u.cpu.load_15), (27, 10, 2));
}

#[test]
fn cpu_percentages_sum_to_the_total() {
    let u = Utilization::from_json(&utilization_sample());
    assert_eq!(u.cpu.total(), 1);
}

#[test]
fn a_cpu_summing_past_one_hundred_is_capped_rather_than_wrapping() {
    let u = Utilization::from_json(&json(r#"{"cpu": {"user_load": 80, "system_load": 80, "other_load": 80}}"#));
    assert_eq!(u.cpu.total(), 100);
}

#[test]
fn memory_is_kilobytes_and_used_is_total_less_available() {
    let u = Utilization::from_json(&utilization_sample());
    assert_eq!(u.memory.total_kb, 32_641_796);
    assert_eq!(u.memory.used_kb(), 32_641_796 - 24_333_872);
    assert_eq!(u.memory.usage_percent, 7);
}

#[test]
fn available_memory_above_total_does_not_underflow_used() {
    let u = Utilization::from_json(&json(r#"{"memory": {"total_real": 100, "avail_real": 200}}"#));
    assert_eq!(u.memory.used_kb(), 0);
}

#[test]
fn the_aggregate_interface_is_found_by_name() {
    let u = Utilization::from_json(&utilization_sample());
    let total = u.network_total().expect("total should be present");
    assert_eq!(total.rx, 1024);
    assert_eq!(u.network.len(), 2);
}

#[test]
fn disk_and_volume_activity_are_read_separately() {
    let u = Utilization::from_json(&utilization_sample());
    assert_eq!(u.disk.expect("disk").read_bytes, 9478);
    assert_eq!(u.space.expect("space").write_bytes, 578_560);
    assert_eq!(u.space.expect("space").utilization, 3);
}

#[test]
fn an_empty_reply_is_all_zeroes_and_no_panic() {
    let u = Utilization::from_json(&json("{}"));
    assert_eq!(u, Utilization::default());
    assert!(u.network_total().is_none());
}

#[test]
fn out_of_range_percentages_are_clamped() {
    let u = Utilization::from_json(&json(r#"{"cpu": {"user_load": 250, "system_load": -5}}"#));
    assert_eq!(u.cpu.user, 100);
    assert_eq!(u.cpu.system, 0);
}

// ---- network ------------------------------------------------------------

fn network_sample() -> Json {
    json(
        r#"{
            "0": {"ifname": "ovs_eth0", "ip": "192.0.2.4", "mask": "255.255.255.0",
                  "speed": 10000, "status": "connected", "type": "ovseth", "use_dhcp": false},
            "1": {"ifname": "eth1", "ip": "", "mask": "",
                  "speed": 0, "status": "disconnected", "type": "eth", "use_dhcp": true}
        }"#,
    )
}

#[test]
fn interfaces_arrive_keyed_by_index_not_as_an_array() {
    let ns = NetworkInterface::list_from_json(&network_sample());
    assert_eq!(ns.len(), 2);
    assert_eq!(ns[0].name, "ovs_eth0");
    assert_eq!(ns[0].ip.as_deref(), Some("192.0.2.4"));
    assert!(ns[0].is_connected());
    assert!(!ns[1].is_connected());
}

#[test]
fn a_disconnected_interface_reports_no_address_rather_than_an_empty_string() {
    let ns = NetworkInterface::list_from_json(&network_sample());
    assert_eq!(ns[1].ip, None);
    assert_eq!(ns[1].netmask, None);
}

#[test]
fn ten_gigabit_reads_as_gbe_rather_than_ten_thousand() {
    let ns = NetworkInterface::list_from_json(&network_sample());
    assert_eq!(ns[0].speed_label(), "10 GbE");
    assert_eq!(ns[1].speed_label(), "—");
}

#[test]
fn an_odd_speed_keeps_its_own_unit() {
    let ns = NetworkInterface::list_from_json(&json(r#"{"0": {"speed": 100}}"#));
    assert_eq!(ns[0].speed_label(), "100 Mbit/s");
}

#[test]
fn interfaces_come_back_in_numeric_key_order() {
    let ns = NetworkInterface::list_from_json(&json(
        r#"{"10": {"ifname": "eth10"}, "2": {"ifname": "eth2"}, "1": {"ifname": "eth1"}}"#,
    ));
    let names: Vec<&str> = ns.iter().map(|n| n.name.as_str()).collect();
    assert_eq!(names, vec!["eth1", "eth2", "eth10"]);
}

#[test]
fn network_an_empty_reply_is_an_empty_list() {
    assert!(NetworkInterface::list_from_json(&json("{}")).is_empty());
    assert!(NetworkInterface::list_from_json(&json("null")).is_empty());
}

#[test]
fn a_key_that_is_not_a_number_sorts_last_and_a_non_object_is_skipped() {
    let ns = NetworkInterface::list_from_json(&json(
        r#"{"x": {"ifname": "odd"}, "3": {"ifname": "eth3"}, "4": "not an interface"}"#,
    ));
    let names: Vec<&str> = ns.iter().map(|n| n.name.as_str()).collect();
    assert_eq!(names, vec!["eth3", "odd"]);
}
