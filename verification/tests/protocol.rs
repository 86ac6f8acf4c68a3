use machina_monitor::json::Json;
use machina_monitor::mmp::{
    command_kind, dispatch, greeting, greeting_message, outcome_matches, service_call, Command,
    CpuInfo, Outcome, ServiceCall,
};
use machina_monitor::wire::encode;

fn answer(cmd: &str, version: &str, outcome: &Outcome) -> String {
    encode(&dispatch(cmd, version, outcome))
}

#[test]
fn greeting_advertises_version() {
    assert_eq!(
        greeting("0.1.0"),
        r#"{"QMP":{"capabilities":[],"version":{"machina":{"major":0,"micro":0,"minor":1}}}}"#
    );
}

#[test]
fn greeting_tree_has_qmp_member() {
    let g = greeting_message("4.5.6");
    let triple = Json::Obj(vec![
        ("major".to_string(), Json::Num(4)),
        ("minor".to_string(), Json::Num(5)),
        ("micro".to_string(), Json::Num(6)),
    ]);
    let expected = Json::Obj(vec![(
        "QMP".to_string(),
        Json::Obj(vec![
            ("version".to_string(), Json::Obj(vec![("machina".to_string(), triple)])),
            ("capabilities".to_string(), Json::Arr(vec![])),
        ]),
    )]);
    assert_eq!(g, expected);
}

#[test]
fn capabilities_returns_empty_object() {
    assert_eq!(answer("qmp_capabilities", "0.1.0", &Outcome::Done), r#"{"return":{}}"#);
}

#[test]
fn query_version_returns_triple_and_package() {
    assert_eq!(
        answer("query-version", "2.5.7", &Outcome::Done),
        r#"{"return":{"package":"machina","qemu":{"major":2,"micro":7,"minor":5}}}"#
    );
}

#[test]
fn greeting_and_query_version_agree() {
    let version = "3.14.159-dev";
    let g: serde_json::Value = serde_json::from_str(&greeting(version)).unwrap();
    let q: serde_json::Value =
        serde_json::from_str(&answer("query-version", version, &Outcome::Done)).unwrap();
    assert_eq!(g["QMP"]["version"]["machina"], q["return"]["qemu"]);
    assert_eq!(q["return"]["qemu"]["minor"], serde_json::Value::from(14u64));
}

#[test]
fn query_status_reports_running() {
    assert_eq!(
        answer("query-status", "0.1.0", &Outcome::Running(true)),
        r#"{"return":{"running":true}}"#
    );
    assert_eq!(
        answer("query-status", "0.1.0", &Outcome::Running(false)),
        r#"{"return":{"running":false}}"#
    );
}

#[test]
fn state_commands_return_empty_object() {
    for cmd in ["stop", "cont", "quit", "system_powerdown"] {
        assert_eq!(answer(cmd, "0.1.0", &Outcome::Done), r#"{"return":{}}"#);
    }
}

#[test]
fn query_cpus_lists_each_cpu() {
    let cpus = Outcome::Cpus(vec![
        CpuInfo { cpu_index: 0, halted: false, arch: "riscv64".to_string() },
        CpuInfo { cpu_index: 12, halted: true, arch: "riscv64".to_string() },
    ]);
    assert_eq!(
        answer("query-cpus-fast", "0.1.0", &cpus),
        [
            r#"{"return":[{"arch":"riscv64","cpu-index":0,"halted":false,"props":{"core-id":0},"#,
            r#""qom-path":"/machine/cpu[0]","target":"riscv64","thread-id":0},"#,
            r#"{"arch":"riscv64","cpu-index":12,"halted":true,"props":{"core-id":12},"#,
            r#""qom-path":"/machine/cpu[12]","target":"riscv64","thread-id":0}]}"#,
        ]
        .concat()
    );
}

#[test]
fn query_cpus_with_no_cpu_is_empty_list() {
    assert_eq!(answer("query-cpus-fast", "0.1.0", &Outcome::Cpus(vec![])), r#"{"return":[]}"#);
}

#[test]
fn system_reset_is_deferred() {
    assert_eq!(
        answer("system_reset", "0.1.0", &Outcome::Done),
        r#"{"error":{"class":"GenericError","desc":"system_reset not implemented (deferred)"}}"#
    );
}

#[test]
fn unknown_command_is_not_found() {
    assert_eq!(
        answer("frobnicate", "0.1.0", &Outcome::Done),
        r#"{"error":{"class":"CommandNotFound","desc":"command 'frobnicate' not found"}}"#
    );
    assert_eq!(
        answer("", "0.1.0", &Outcome::Done),
        r#"{"error":{"class":"CommandNotFound","desc":"command '' not found"}}"#
    );
}

#[test]
fn unknown_command_name_is_escaped() {
    assert_eq!(
        answer("a\"b", "0.1.0", &Outcome::Done),
        r#"{"error":{"class":"CommandNotFound","desc":"command 'a\"b' not found"}}"#
    );
}

#[test]
fn command_names_are_exact() {
    assert_eq!(command_kind("qmp_capabilities"), Command::Capabilities);
    assert_eq!(command_kind("query-version"), Command::QueryVersion);
    assert_eq!(command_kind("query-status"), Command::QueryStatus);
    assert_eq!(command_kind("stop"), Command::Stop);
    assert_eq!(command_kind("cont"), Command::Cont);
    assert_eq!(command_kind("quit"), Command::Quit);
    assert_eq!(command_kind("system_powerdown"), Command::SystemPowerdown);
    assert_eq!(command_kind("query-cpus-fast"), Command::QueryCpusFast);
    assert_eq!(command_kind("system_reset"), Command::SystemReset);
    assert_eq!(command_kind("Quit"), Command::Unknown);
    assert_eq!(command_kind("quit "), Command::Unknown);
}

#[test]
fn service_calls_of_commands() {
    assert_eq!(service_call("query-status"), ServiceCall::QueryStatus);
    assert_eq!(service_call("stop"), ServiceCall::Stop);
    assert_eq!(service_call("cont"), ServiceCall::Cont);
    assert_eq!(service_call("quit"), ServiceCall::Quit);
    assert_eq!(service_call("system_powerdown"), ServiceCall::Quit);
    assert_eq!(service_call("query-cpus-fast"), ServiceCall::QueryCpus);
    assert_eq!(service_call("qmp_capabilities"), ServiceCall::Nothing);
    assert_eq!(service_call("query-version"), ServiceCall::Nothing);
    assert_eq!(service_call("system_reset"), ServiceCall::Nothing);
    assert_eq!(service_call("nope"), ServiceCall::Nothing);
}

#[test]
fn powerdown_is_answered_like_quit() {
    assert_eq!(service_call("system_powerdown"), service_call("quit"));
    assert_eq!(
        answer("system_powerdown", "1.0.0", &Outcome::Done),
        answer("quit", "1.0.0", &Outcome::Done)
    );
}

#[test]
fn outcomes_fit_their_calls() {
    assert!(outcome_matches(ServiceCall::QueryStatus, &Outcome::Running(true)));
    assert!(!outcome_matches(ServiceCall::QueryStatus, &Outcome::Done));
    assert!(outcome_matches(ServiceCall::QueryCpus, &Outcome::Cpus(vec![])));
    assert!(!outcome_matches(ServiceCall::Stop, &Outcome::Running(false)));
    assert!(outcome_matches(ServiceCall::Nothing, &Outcome::Done));
}

#[test]
fn every_answer_has_one_return_or_error_member() {
    let cases = [
        ("qmp_capabilities", Outcome::Done),
        ("query-version", Outcome::Done),
        ("query-status", Outcome::Running(true)),
        ("stop", Outcome::Done),
        ("query-cpus-fast", Outcome::Cpus(vec![])),
        ("system_reset", Outcome::Done),
        ("whatever", Outcome::Done),
    ];
    for (cmd, outcome) in cases.iter() {
        let v: serde_json::Value = serde_json::from_str(&answer(cmd, "0.1.0", outcome)).unwrap();
        let obj = v.as_object().unwrap();
        assert_eq!(obj.len(), 1);
        if let Some(err) = obj.get("error") {
            assert!(err["class"].is_string());
            assert!(err["desc"].is_string());
        } else {
            assert!(obj.contains_key("return"));
        }
    }
}

#[test]
fn answers_are_single_lines() {
    let odd = "line\nbreak\r\u{1}";
    let text = answer(odd, "0.1.0", &Outcome::Done);
    assert!(text.chars().all(|c| c >= ' '));
    assert!(text.contains("line\\nbreak\\r\\u0001"));
    assert!(greeting("1.2.3").chars().all(|c| c >= ' '));
}
