use lookout_core::dsm::client::{form_fields, login_call, session_from_login, token_header, Credentials, Host};
use lookout_core::dsm::Session;
use lookout_core::dsm::envelope::{compound_call, from_value, parse, split_compound};
use lookout_core::dsm::{as_bool, as_i64, as_u64, as_unix_seconds, quoted, Call, Capabilities, DsmError, Error};
use lookout_core::json::{Json, Number};
use lookout_core::{container_call, ContainerAction};

fn to_json(v: &serde_json::Value) -> Json {
    match v {
        serde_json::Value::Null => Json::Null,
        serde_json::Value::Bool(b) => Json::Bool(*b),
        serde_json::Value::Number(n) => Json::Number(if let Some(u) = n.as_u64() {
            Number::PosInt(u)
        } else if let Some(i) = n.as_i64() {
            Number::NegInt(i)
        } else {
            Number::Float(n.as_f64().expect("a number").to_bits())
        }),
        serde_json::Value::String(s) => Json::Str(s.clone()),
        serde_json::Value::Array(a) => Json::Array(a.iter().map(to_json).collect()),
        serde_json::Value::Object(o) => Json::Object(o.iter().map(|(k, v)| (k.clone(), to_json(v))).collect()),
    }
}

fn json(text: &str) -> Json {
    to_json(&serde_json::from_str(text).expect("valid JSON"))
}

fn sample_caps() -> Capabilities {
    Capabilities::parse(&json(
        r#"{
            "SYNO.API.Auth":            {"minVersion": 1, "maxVersion": 7, "path": "entry.cgi"},
            "SYNO.Core.System":         {"minVersion": 1, "maxVersion": 3, "path": "entry.cgi"},
            "SYNO.Docker.Container":    {"minVersion": 1, "maxVersion": 1, "path": "entry.cgi"},
            "SYNO.Storage.CGI.Storage": {"minVersion": 1, "maxVersion": 1, "path": "entry.cgi"}
        }"#,
    ))
    .expect("sample should parse")
}

// ---- capabilities -------------------------------------------------------

#[test]
fn a_present_api_is_found() {
    assert!(sample_caps().has("SYNO.Docker.Container"));
}

#[test]
fn an_absent_api_is_absent_so_its_section_can_be_hidden() {
    assert!(!sample_caps().has("SYNO.SurveillanceStation"));
    assert_eq!(sample_caps().version_for("SYNO.SurveillanceStation", 1), None);
}

#[test]
fn we_call_at_the_highest_version_we_understand_not_the_highest_offered() {
    assert_eq!(sample_caps().version_for("SYNO.Core.System", 1), Some(1));
}

#[test]
fn we_call_at_the_hosts_maximum_when_it_is_older_than_ours() {
    let caps = Capabilities::parse(&json(r#"{"SYNO.API.Auth": {"minVersion": 1, "maxVersion": 3}}"#))
        .expect("should parse");
    assert_eq!(caps.version_for("SYNO.API.Auth", 7), Some(3));
}

#[test]
fn an_api_whose_minimum_is_beyond_us_is_refused_rather_than_called_wrongly() {
    let caps = Capabilities::parse(&json(r#"{"SYNO.Future.Thing": {"minVersion": 9, "maxVersion": 9}}"#))
        .expect("should parse");
    assert_eq!(caps.version_for("SYNO.Future.Thing", 2), None);
}

#[test]
fn entries_without_versions_are_skipped_rather_than_failing_discovery() {
    let caps = Capabilities::parse(&json(
        r#"{"SYNO.Good": {"minVersion": 1, "maxVersion": 2}, "SYNO.Odd": {"path": "entry.cgi"}}"#,
    ))
    .expect("should parse");
    assert!(caps.has("SYNO.Good"));
    assert!(!caps.has("SYNO.Odd"));
}

#[test]
fn a_reply_listing_nothing_usable_is_an_error() {
    assert!(Capabilities::parse(&json("{}")).is_err());
    assert!(Capabilities::parse(&json(r#""nope""#)).is_err());
}

#[test]
fn a_catalogue_counts_what_it_could_read() {
    let caps = sample_caps();
    assert_eq!(caps.len(), 4);
    assert!(!caps.is_empty());
}

// ---- host, login --------------------------------------------------------

#[test]
fn the_default_host_is_dsm_over_https() {
    let h = Host::new("nas.local");
    assert_eq!(h.base_url(), "https://nas.local:5001");
    assert_eq!(h.entry_url(), "https://nas.local:5001/webapi/entry.cgi");
    assert!(h.verify_tls);
}

#[test]
fn plain_http_is_expressible_for_a_diskstation_on_a_trusted_network() {
    let h = Host { address: "10.0.0.4".into(), port: 5000, https: false, verify_tls: true };
    assert_eq!(h.base_url(), "http://10.0.0.4:5000");
}

#[test]
fn a_login_is_auth_version_seven_asking_for_a_session() {
    let call = login_call(&Credentials::new("monitor", "pw"));
    assert_eq!(call.api, "SYNO.API.Auth");
    assert_eq!(call.version, 7);
    assert_eq!(call.method, "login");
    assert!(call.params.iter().any(|(k, v)| k == "account" && v == "monitor"));
}

#[test]
fn a_login_reply_without_a_sid_is_malformed() {
    let creds = Credentials::new("monitor", "pw");
    let ok = session_from_login(&json(r#"{"sid": "abc", "synotoken": "tok"}"#), &creds).expect("a session");
    assert_eq!(ok.sid, "abc");
    assert_eq!(ok.synotoken.as_deref(), Some("tok"));
    assert!(matches!(session_from_login(&json("{}"), &creds), Err(Error::Malformed(_))));
}

// ---- envelope -----------------------------------------------------------

#[test]
fn a_successful_reply_yields_its_data() {
    let v = parse("SYNO.Core.System", r#"{"success":true,"data":{"model":"DS-series"}}"#).expect("should parse");
    match v.get("model") {
        Some(Json::Str(s)) => assert_eq!(s, "DS-series"),
        other => panic!("expected the model, got {other:?}"),
    }
}

#[test]
fn a_success_with_no_data_is_still_a_success() {
    let v = parse("SYNO.API.Auth", r#"{"success":true}"#).expect("should parse");
    assert!(matches!(v, Json::Null));
}

#[test]
fn a_failure_carries_its_code_and_the_api_that_produced_it() {
    let e = parse("SYNO.Core.System", r#"{"success":false,"error":{"code":119}}"#).expect_err("should fail");
    match e {
        Error::Dsm(d) => {
            assert_eq!(d.code, 119);
            assert_eq!(d.api, "SYNO.Core.System");
        },
        other => panic!("expected a DSM error, got {other:?}"),
    }
}

#[test]
fn error_120_keeps_the_parameter_dsm_objected_to() {
    let body = r#"{"success":false,"error":{"code":120,"errors":{"name":"id","reason":"required"}}}"#;
    let e = parse("SYNO.Foto.BackgroundTask.Info", body).expect_err("should fail");
    match e {
        Error::Dsm(d) => assert_eq!(d.parameter.as_deref(), Some("id")),
        other => panic!("expected a DSM error, got {other:?}"),
    }
}

#[test]
fn a_failure_with_no_error_object_still_fails() {
    let e = parse("SYNO.Core.System", r#"{"success":false}"#).expect_err("should fail");
    assert!(matches!(e, Error::Dsm(_)));
}

#[test]
fn a_reply_without_success_is_malformed() {
    let e = parse("SYNO.Core.System", r#"{"data":{}}"#).expect_err("should fail");
    assert!(matches!(e, Error::Malformed(_)));
}

#[test]
fn a_proxy_error_page_is_malformed_rather_than_a_dsm_refusal() {
    // The distinction matters: this means "something is in front of your
    // DiskStation", not "your DiskStation said no".
    let e = parse("SYNO.Core.System", "<html>502 Bad Gateway</html>").expect_err("html is not an envelope");
    assert!(matches!(e, Error::Malformed(_)));
}

#[test]
fn a_parse_failure_names_the_call_and_the_parsers_reason() {
    match parse("SYNO.Core.System", "<html>") {
        Err(Error::Malformed(why)) => {
            assert!(why.starts_with("SYNO.Core.System: "));
            assert!(why.len() > "SYNO.Core.System: ".len());
        },
        other => panic!("expected a malformed reply, got {other:?}"),
    }
    // An envelope that is JSON but not an object is read as such.
    assert!(matches!(parse("SYNO.Core.System", "[1, 2]"), Err(Error::Malformed(_))));
}

#[test]
fn a_compound_request_carries_each_call_with_its_parameters_as_json() {
    let calls = vec![
        Call::new("SYNO.Core.System", 1, "info"),
        Call::new("SYNO.Docker.Container", 1, "list").param("limit", "-1").param("type", "all"),
        Call::new("SYNO.Docker.Container", 1, "start").param("name", &quoted("web")),
    ];
    let call = compound_call(&calls).expect("no floats here");
    assert_eq!(call.api, "SYNO.Entry.Request");
    assert_eq!(call.version, 1);
    assert_eq!(call.method, "request");
    assert_eq!(call.params[0], ("stop_when_error".to_string(), "false".to_string()));
    assert_eq!(call.params[1], ("mode".to_string(), "\"parallel\"".to_string()));
    assert_eq!(call.params[2].0, "compound");
    // `-1` travels as a number, `all` (not JSON) as the string it was, and
    // the quoted name as a string; serde_json's map writes keys in order.
    assert_eq!(
        call.params[2].1,
        r#"[{"api":"SYNO.Core.System","method":"info","version":1},{"api":"SYNO.Docker.Container","limit":-1,"method":"list","type":"all","version":1},{"api":"SYNO.Docker.Container","method":"start","name":"web","version":1}]"#
    );
}

#[test]
fn a_compound_parameter_holding_a_float_is_refused() {
    let calls = vec![Call::new("SYNO.Core.System", 1, "info").param("ratio", "0.5")];
    assert!(compound_call(&calls).is_none());
    assert_eq!(compound_call(&Vec::new()).expect("empty is fine").params[2].1, "[]");
}

#[test]
fn string_parameters_are_quoted_and_escaped() {
    assert_eq!(quoted("brain-server"), "\"brain-server\"");
    assert_eq!(quoted(r#"od"d"#), r#""od\"d""#);
}

#[test]
fn control_characters_and_backslashes_are_escaped_the_json_way() {
    assert_eq!(quoted("a\\b"), r#""a\\b""#);
    assert_eq!(quoted("tab\there"), r#""tab\there""#);
    assert_eq!(quoted("\u{1}"), r#""\u0001""#);
    assert_eq!(quoted(""), "\"\"");
}

#[test]
fn a_compound_reply_is_split_into_one_result_per_call() {
    let calls = vec![Call::new("SYNO.Core.System", 1, "info"), Call::new("SYNO.Docker.Container", 1, "list")];
    let data = json(
        r#"{
            "has_fail": true,
            "result": [
                {"api": "SYNO.Core.System", "success": true, "data": {"model": "DS-series"}},
                {"api": "SYNO.Docker.Container", "success": false, "error": {"code": 102}}
            ]
        }"#,
    );
    let out = split_compound(&calls, data).expect("should split");
    match out[0].as_ref().expect("first call succeeded").get("model") {
        Some(Json::Str(s)) => assert_eq!(s, "DS-series"),
        other => panic!("expected the model, got {other:?}"),
    }
    let err = out[1].as_ref().expect_err("second call failed");
    assert!(matches!(err, Error::Dsm(d) if d.code == 102));
}

#[test]
fn a_compound_reply_of_the_wrong_length_is_refused_rather_than_misaligned() {
    let calls = vec![Call::new("SYNO.Core.System", 1, "info"), Call::new("SYNO.Docker.Container", 1, "list")];
    let data = json(r#"{"result": [{"success": true, "data": {}}]}"#);
    assert!(matches!(split_compound(&calls, data), Err(Error::Malformed(_))));
}

#[test]
fn a_compound_reply_with_no_result_list_is_malformed() {
    let calls = vec![Call::new("SYNO.Core.System", 1, "info")];
    match split_compound(&calls, json(r#"{"has_fail": false}"#)) {
        Err(Error::Malformed(m)) => assert_eq!(m, "compound reply had no `result` array"),
        other => panic!("expected a malformed reply, got {other:?}"),
    }
}

// ---- errors -------------------------------------------------------------

#[test]
fn session_codes_ask_for_a_fresh_login() {
    for code in [105, 106, 107, 119] {
        let e = Error::Dsm(DsmError::new(code, "SYNO.Core.System"));
        assert!(e.needs_login(), "code {code} should send us back to login");
    }
}

#[test]
fn a_missing_method_is_not_a_session_problem() {
    let e = Error::Dsm(DsmError::new(103, "SYNO.Core.System"));
    assert!(!e.needs_login());
    assert!(!e.is_transient());
}

#[test]
fn a_busy_diskstation_is_worth_retrying_but_a_refusal_is_not() {
    assert!(DsmError::new(117, "x").is_transient());
    assert!(DsmError::new(118, "x").is_transient());
    assert!(!DsmError::new(402, "x").is_transient());
}

#[test]
fn unreachable_hosts_are_transient_and_malformed_replies_are_not() {
    assert!(Error::Transport("connection refused".into()).is_transient());
    assert!(!Error::Malformed("expected object".into()).is_transient());
}

#[test]
fn only_the_pre_code_states_ask_for_an_otp() {
    assert!(DsmError::new(403, "SYNO.API.Auth").needs_otp());
    assert!(DsmError::new(406, "SYNO.API.Auth").needs_otp());
    assert!(!DsmError::new(404, "SYNO.API.Auth").needs_otp());
}

#[test]
fn an_invalid_parameter_names_the_parameter_when_dsm_named_it() {
    let mut e = DsmError::new(120, "SYNO.Foto.BackgroundTask.Info");
    e.parameter = Some("id".into());
    assert!(e.message().contains("`id`"));
}

#[test]
fn an_undocumented_code_reports_the_number_rather_than_inventing_prose() {
    let m = DsmError::new(4711, "SYNO.Docker.Project").message();
    assert!(m.contains("4711"));
    assert!(m.contains("SYNO.Docker.Project"));
}

#[test]
fn each_failure_reads_as_its_own_sentence() {
    assert_eq!(
        Error::Transport("connection refused".into()).describe(),
        "could not reach the DiskStation: connection refused"
    );
    assert_eq!(Error::Malformed("x".into()).describe(), "unexpected reply from the DiskStation: x");
    assert_eq!(Error::Dsm(DsmError::new(117, "x")).describe(), "The DiskStation is busy.");
    assert_eq!(
        DsmError::new(4711, "SYNO.Docker.Project").message(),
        "SYNO.Docker.Project refused the request (error 4711)."
    );
}

// ---- loosely typed values ----------------------------------------------

#[test]
fn a_docker_start_time_reads_as_a_unix_timestamp() {
    assert_eq!(as_unix_seconds(&json(r#""2026-08-05T13:26:32.78343004Z""#)), Some(1_785_936_392));
    assert_eq!(as_unix_seconds(&json(r#""1970-01-01T00:00:00Z""#)), Some(0));
}

#[test]
fn a_numeric_offset_is_applied_rather_than_ignored() {
    let utc = as_unix_seconds(&json(r#""2026-08-08T12:57:13Z""#)).expect("utc");
    let east = as_unix_seconds(&json(r#""2026-08-08T08:57:13-04:00""#)).expect("offset");
    assert_eq!(utc, east);
}

#[test]
fn dockers_never_sentinel_is_absent_rather_than_a_huge_uptime() {
    assert_eq!(as_unix_seconds(&json(r#""0001-01-01T00:00:00Z""#)), None);
    assert_eq!(as_unix_seconds(&json("null")), None);
    assert_eq!(as_unix_seconds(&json(r#""not a timestamp""#)), None);
}

#[test]
fn leap_years_and_century_rules_land_on_the_right_day() {
    let feb29 = as_unix_seconds(&json(r#""2000-02-29T00:00:00Z""#)).expect("2000-02-29");
    let mar01 = as_unix_seconds(&json(r#""2000-03-01T00:00:00Z""#)).expect("2000-03-01");
    assert_eq!(mar01 - feb29, 86_400);
    let feb28 = as_unix_seconds(&json(r#""1900-02-28T00:00:00Z""#));
    assert_eq!(feb28, None, "before the epoch is not a start time");
}

#[test]
fn byte_counts_read_the_same_whether_they_arrive_as_strings_or_numbers() {
    assert_eq!(as_u64(&json(r#""28770439729152""#)), Some(28_770_439_729_152));
    assert_eq!(as_u64(&json("31")), Some(31));
    assert_eq!(as_u64(&json("null")), None);
    assert_eq!(as_u64(&json(r#""not a number""#)), None);
}

#[test]
fn signed_reads_cope_with_both_spellings_too() {
    assert_eq!(as_i64(&json(r#""-5""#)), Some(-5));
    assert_eq!(as_i64(&json("42")), Some(42));
}

#[test]
fn dsm_spells_true_several_ways_and_all_of_them_read_as_true() {
    for v in ["true", r#""yes""#, r#""true""#, "1"] {
        assert_eq!(as_bool(&json(v)), Some(true), "{v} should be true");
    }
    for v in ["false", r#""no""#, r#""false""#, "0"] {
        assert_eq!(as_bool(&json(v)), Some(false), "{v} should be false");
    }
    assert_eq!(as_bool(&json(r#""maybe""#)), None);
}

// ---- container actions --------------------------------------------------

#[test]
fn a_container_action_becomes_the_call_dsm_expects() {
    let call = ContainerAction::Stop.call(1, "brain-server");
    assert_eq!(call.api, "SYNO.Docker.Container");
    assert_eq!(call.method, "stop");
    assert_eq!(call.version, 1);
    assert_eq!(call.params, vec![("name".to_string(), "\"brain-server\"".to_string())]);
}

#[test]
fn the_container_name_is_json_quoted_because_dsm_refuses_it_otherwise() {
    let call = ContainerAction::Start.call(1, "web");
    assert_eq!(call.params[0].1, "\"web\"");
    assert!(call.params[0].1.starts_with('"'));
}

#[test]
fn a_name_with_a_quote_in_it_is_escaped_rather_than_breaking_the_json() {
    let call = ContainerAction::Start.call(1, r#"od"d"#);
    assert_eq!(call.params[0].1, r#""od\"d""#);
}

#[test]
fn stopping_and_restarting_confirm_but_starting_does_not() {
    assert!(ContainerAction::Stop.needs_confirmation());
    assert!(ContainerAction::Restart.needs_confirmation());
    assert!(!ContainerAction::Start.needs_confirmation());
}

#[test]
fn every_action_has_a_method_and_a_past_tense_for_the_toast() {
    for action in [ContainerAction::Start, ContainerAction::Stop, ContainerAction::Restart] {
        assert!(!action.method().is_empty());
        assert!(!action.past_tense().is_empty());
    }
    assert_eq!(ContainerAction::Restart.past_tense(), "restarted");
}

#[test]
fn a_diskstation_without_container_manager_has_nowhere_to_send_an_action() {
    let caps = Capabilities::parse(&json(r#"{"SYNO.Core.System": {"minVersion": 1, "maxVersion": 1}}"#))
        .expect("should parse");
    match container_call(&caps, ContainerAction::Start, "web") {
        Err(Error::Malformed(m)) => assert_eq!(m, "this DiskStation has no Container Manager"),
        other => panic!("expected a refusal, got {other:?}"),
    }
    let call = container_call(&sample_caps(), ContainerAction::Restart, "web").expect("a call");
    assert_eq!(call.method, "restart");
    assert_eq!(call.version, 1);
}

#[test]
fn a_call_posts_its_name_version_method_parameters_and_then_the_session() {
    let call = Call::new("SYNO.Docker.Container", 1, "list").param("limit", "-1").param("type", "\"all\"");
    let pairs = |f: Vec<(String, String)>| f.into_iter().map(|(k, v)| format!("{k}={v}")).collect::<Vec<_>>();
    assert_eq!(
        pairs(form_fields(&call, &None)),
        vec!["api=SYNO.Docker.Container", "version=1", "method=list", "limit=-1", "type=\"all\""]
    );
    let session = Session { sid: "abc".into(), synotoken: Some("tok".into()), device_id: None };
    let with = pairs(form_fields(&Call::new("SYNO.Core.System", 3, "info"), &Some(session.clone())));
    assert_eq!(with, vec!["api=SYNO.Core.System", "version=3", "method=info", "_sid=abc"]);
    assert_eq!(token_header(&Some(session)), Some("tok"));
    assert_eq!(token_header(&Some(Session { sid: "abc".into(), ..Session::default() })), None);
    assert_eq!(token_header(&None), None);
}
