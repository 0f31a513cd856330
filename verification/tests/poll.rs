use lookout_core::dsm::{Capabilities, DsmError, Error};
use lookout_core::json::{Json, Number};
use lookout_core::poll::{assemble, overview_plan, should_poll, UNFOCUSED_EVERY};
use lookout_core::Slot;

fn to_json(v: &serde_json::Value) -> Json {
    match v {
        serde_json::Value::Null => Json::Null,
        serde_json::Value::Bool(b) => Json::Bool(*b),
        serde_json::Value::Number(n) => Json::Number(if let Some(u) = n.as_u64() {
            Number::PosInt(u)
        } else if let Some(i) = n.as_i64() {
            Number::NegInt(i)
        } else {
            Number::Float(n.as_f64().expect("a number").to_bits())
        }),
        serde_json::Value::String(s) => Json::Str(s.clone()),
        serde_json::Value::Array(a) => Json::Array(a.iter().map(to_json).collect()),
        serde_json::Value::Object(o) => Json::Object(o.iter().map(|(k, v)| (k.clone(), to_json(v))).collect()),
    }
}

fn json(text: &str) -> Json {
    to_json(&serde_json::from_str(text).expect("valid JSON"))
}

fn caps_with(names: &[&str]) -> Capabilities {
    let entries: Vec<String> =
        names.iter().map(|n| format!(r#""{n}": {{"minVersion": 1, "maxVersion": 1}}"#)).collect();
    Capabilities::parse(&json(&format!("{{{}}}", entries.join(",")))).expect("caps should parse")
}

fn full_caps() -> Capabilities {
    caps_with(&[
        "SYNO.Core.System",
        "SYNO.Core.System.Utilization",
        "SYNO.Storage.CGI.Storage",
        "SYNO.Docker.Container",
        "SYNO.Docker.Container.Resource",
        "SYNO.Docker.Project",
        "SYNO.Core.Share",
        "SYNO.Core.SyslogClient.Log",
        "SYNO.Core.Package",
        "SYNO.Core.CurrentConnection",
        "SYNO.Core.Network.Interface",
        "SYNO.Core.Hardware.FanSpeed",
        "SYNO.Core.ExternalDevice.UPS",
    ])
}

#[test]
fn a_full_host_is_asked_for_everything_in_one_request() {
    let plan = overview_plan(&full_caps());
    assert_eq!(plan.len(), 13);
    assert!(plan.has(Slot::Containers));
    assert!(plan.has(Slot::Projects));
}

#[test]
fn container_manager_without_the_project_api_still_lists_containers() {
    let plan = overview_plan(&caps_with(&["SYNO.Docker.Container"]));
    assert!(plan.has(Slot::Containers));
    assert!(!plan.has(Slot::Projects));
}

#[test]
fn a_host_without_container_manager_is_not_asked_about_containers() {
    let plan = overview_plan(&caps_with(&["SYNO.Core.System", "SYNO.Core.System.Utilization"]));
    assert!(!plan.has(Slot::Containers));
    assert!(!plan.has(Slot::ContainerResources));
    assert_eq!(plan.len(), 2);
}

#[test]
fn a_host_exposing_nothing_useful_yields_an_empty_plan() {
    let plan = overview_plan(&caps_with(&["SYNO.API.Auth"]));
    assert!(plan.is_empty());
}

#[test]
fn each_call_carries_the_parameters_dsm_needs() {
    let plan = overview_plan(&full_caps());
    let containers = plan.slots.iter().position(|s| *s == Slot::Containers).expect("containers asked for");
    let call = &plan.calls[containers];
    assert_eq!(call.api, "SYNO.Docker.Container");
    assert_eq!(call.method, "list");
    assert_eq!(
        call.params,
        vec![
            ("limit".to_string(), "-1".to_string()),
            ("offset".to_string(), "0".to_string()),
            ("type".to_string(), "\"all\"".to_string()),
        ]
    );
    let packages = plan.slots.iter().position(|s| *s == Slot::Packages).expect("packages asked for");
    assert_eq!(plan.calls[packages].params, vec![("additional".to_string(), "[\"status\"]".to_string())]);
    assert_eq!(plan.calls[packages].version, 1, "the host offers only 1 though 2 is understood");
}

fn ok_for(slot: &Slot) -> Result<Json, Error> {
    Ok(match slot {
        Slot::System => json(r#"{"model": "DS-series"}"#),
        Slot::Utilization => json(r#"{"cpu": {"user_load": 5}}"#),
        Slot::Storage => json(r#"{"volumes": [{"id": "volume_1", "status": "normal"}]}"#),
        Slot::Containers => json(
            r#"{"containers": [{"id": "a", "name": "web", "image": "example/web", "status": "running"}]}"#,
        ),
        Slot::ContainerResources => json(r#"{"containers": [{"name": "web", "cpu": 2.5, "memory": 1024}]}"#),
        Slot::Projects => json(
            r#"{"8ec29f37-76bb-49c9-bf07-9b30403fed54": {
                "id": "8ec29f37-76bb-49c9-bf07-9b30403fed54",
                "name": "web", "status": "running", "containerIds": ["a"]}}"#,
        ),
        Slot::Shares => json(r#"{"shares": [{"name": "docker"}]}"#),
        Slot::Log => json(r#"{"items": [], "total": 0}"#),
        Slot::Packages => json(r#"{"packages": []}"#),
        Slot::Sessions => json(r#"{"items": []}"#),
        Slot::Interfaces => json(r#"{"0": {"ifname": "eth0"}}"#),
        Slot::Cooling => json(r#"{"dual_fan_speed": "coolfan"}"#),
        Slot::Ups => json(r#"{"enable": false}"#),
    })
}

#[test]
fn results_land_in_the_slot_they_were_asked_for() {
    let plan = overview_plan(&full_caps());
    let results: Vec<Result<Json, Error>> = plan.slots.iter().map(ok_for).collect();
    let snap = assemble(&plan, results);
    assert_eq!(snap.system.expect("system").model.as_deref(), Some("DS-series"));
    assert_eq!(snap.storage.expect("storage").volumes.len(), 1);
    assert_eq!(snap.shares.expect("shares")[0].name, "docker");
    let projects = snap.projects.expect("projects");
    assert_eq!(projects[0].name, "web");
    assert_eq!(projects[0].container_ids, vec!["a"]);
    assert_eq!(snap.interfaces.expect("interfaces")[0].name, "eth0");
    assert_eq!(snap.cooling.expect("cooling").mode.as_deref(), Some("coolfan"));
    assert!(snap.failures.is_empty());
}

#[test]
fn container_resources_are_folded_into_the_container_list() {
    let plan = overview_plan(&full_caps());
    let results: Vec<Result<Json, Error>> = plan
        .slots
        .iter()
        .map(|slot| match slot {
            Slot::Containers | Slot::ContainerResources => ok_for(slot),
            _ => Ok(json("{}")),
        })
        .collect();
    let snap = assemble(&plan, results);
    let containers = snap.containers.expect("containers");
    assert_eq!(containers[0].cpu_percent, Some(Number::Float(2.5f64.to_bits())));
    assert_eq!(containers[0].memory_bytes, Some(1024));
}

#[test]
fn one_failed_call_costs_only_its_own_slot() {
    let plan = overview_plan(&full_caps());
    let results: Vec<Result<Json, Error>> = plan
        .slots
        .iter()
        .map(|slot| match slot {
            Slot::Storage => Err(Error::Dsm(DsmError::new(105, "SYNO.Storage.CGI.Storage"))),
            Slot::System => ok_for(slot),
            _ => Ok(json("{}")),
        })
        .collect();
    let snap = assemble(&plan, results);
    assert!(snap.storage.is_none());
    assert!(snap.system.is_some(), "one failure must not take the rest");
    assert_eq!(snap.failures.len(), 1);
    assert_eq!(snap.failures[0].0, Slot::Storage);
    assert_eq!(snap.failures[0].1, "This account does not have permission for that.");
    assert!(!snap.is_empty());
}

#[test]
fn a_snapshot_where_everything_failed_reads_as_empty() {
    let plan = overview_plan(&full_caps());
    let results: Vec<Result<Json, Error>> =
        plan.slots.iter().map(|_| Err(Error::Transport("connection refused".into()))).collect();
    let snap = assemble(&plan, results);
    assert!(snap.is_empty());
    assert_eq!(snap.failures.len(), 13);
}

#[test]
fn results_past_the_plan_are_not_paired_with_anything() {
    let plan = overview_plan(&caps_with(&["SYNO.Core.System"]));
    let results = vec![ok_for(&Slot::System), Err(Error::Malformed("extra".into()))];
    let snap = assemble(&plan, results);
    assert!(snap.system.is_some());
    assert!(snap.failures.is_empty());
}

#[test]
fn a_focused_window_polls_on_every_tick() {
    for tick in 0..20 {
        assert!(should_poll(true, tick), "tick {tick} should poll");
    }
}

#[test]
fn an_unfocused_window_polls_occasionally_rather_than_never() {
    let polls = (0..60).filter(|t| should_poll(false, *t)).count();
    assert_eq!(polls, 10);
    assert!(should_poll(false, 0), "the first tick after losing focus polls");
    assert!(!should_poll(false, 1));
    assert_eq!(UNFOCUSED_EVERY, 6);
}
