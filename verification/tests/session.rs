use machina_monitor::mmp::{dispatch, Outcome};
use machina_monitor::session::{blank, ends_session, server_stops, Accepted, Session, Step};
use machina_monitor::wire::encode;

fn reply_text(step: Step) -> String {
    match step {
        Step::Reply(j) => encode(&j),
        other => panic!("expected a reply, got {:?}", other),
    }
}

fn run_name(step: Step) -> String {
    match step {
        Step::Run(c) => c,
        other => panic!("expected a command, got {:?}", other),
    }
}

#[test]
fn fresh_session_is_not_negotiated() {
    assert!(!Session::new().negotiated());
}

#[test]
fn blank_lines_are_skipped() {
    let mut s = Session::new();
    assert!(matches!(s.receive(""), Step::Skip));
    assert!(matches!(s.receive("  \t \r"), Step::Skip));
    assert!(matches!(s.receive("\u{a0}\u{3000}"), Step::Skip));
    assert!(!s.negotiated());
}

#[test]
fn blank_recognises_white_space_only() {
    assert!(blank(""));
    assert!(blank(" \t\n\u{2028}"));
    assert!(!blank(" x "));
    assert!(!blank("\u{200b}"));
}

#[test]
fn command_before_capabilities_is_refused() {
    let mut s = Session::new();
    let step = s.receive(r#"{"execute":"query-status"}"#);
    assert_eq!(
        reply_text(step),
        r#"{"error":{"class":"CommandNotFound","desc":"qmp_capabilities required first"}}"#
    );
    assert!(!s.negotiated());
}

#[test]
fn capabilities_then_commands_run() {
    let mut s = Session::new();
    assert_eq!(run_name(s.receive(r#"{"execute":"qmp_capabilities"}"#)), "qmp_capabilities");
    assert!(s.negotiated());
    assert_eq!(run_name(s.receive(r#"{"execute":"query-status","arguments":{}}"#)), "query-status");
    assert_eq!(run_name(s.receive(r#" {"execute":"qmp_capabilities"} "#)), "qmp_capabilities");
    assert!(s.negotiated());
}

#[test]
fn parse_error_is_answered_and_session_goes_on() {
    let mut s = Session::new();
    let step = s.receive("{");
    assert_eq!(
        reply_text(step),
        r#"{"error":{"class":"GenericError","desc":"JSON parse error: EOF while parsing an object at line 1 column 1"}}"#
    );
    assert!(!s.negotiated());
    assert_eq!(run_name(s.receive(r#"{"execute":"qmp_capabilities"}"#)), "qmp_capabilities");
}

#[test]
fn request_without_execute_string_runs_empty_name() {
    let mut s = Session::new();
    s.receive(r#"{"execute":"qmp_capabilities"}"#);
    assert_eq!(run_name(s.receive(r#"{"execute":5}"#)), "");
    assert_eq!(run_name(s.receive("[1,2]")), "");
    assert_eq!(run_name(s.receive("{}")), "");
    assert_eq!(
        encode(&dispatch("", "0.1.0", &Outcome::Done)),
        r#"{"error":{"class":"CommandNotFound","desc":"command '' not found"}}"#
    );
}

#[test]
fn missing_execute_before_capabilities_is_refused() {
    let mut s = Session::new();
    let step = s.receive("{}");
    assert_eq!(
        reply_text(step),
        r#"{"error":{"class":"CommandNotFound","desc":"qmp_capabilities required first"}}"#
    );
}

#[test]
fn quit_and_powerdown_end_the_session() {
    assert!(ends_session("quit"));
    assert!(ends_session("system_powerdown"));
    assert!(!ends_session("stop"));
    assert!(!ends_session("qmp_capabilities"));
    assert!(!ends_session(""));
}

#[test]
fn negotiation_is_kept_after_errors() {
    let mut s = Session::new();
    s.receive(r#"{"execute":"qmp_capabilities"}"#);
    let _ = s.receive("not json");
    let _ = s.receive("   ");
    assert!(s.negotiated());
    assert_eq!(run_name(s.receive(r#"{"execute":"stop"}"#)), "stop");
}

#[test]
fn reading_with_capabilities_runs_it() {
    let mut s = Session::new();
    let step = s.on_reading(Ok(Some("qmp_capabilities".to_string())));
    assert_eq!(run_name(step), "qmp_capabilities");
    assert!(s.negotiated());
}

#[test]
fn reading_error_is_answered_with_its_text() {
    let mut s = Session::new();
    let step = s.on_reading(Err("boom at line 1 column 2".to_string()));
    assert_eq!(
        reply_text(step),
        r#"{"error":{"class":"GenericError","desc":"JSON parse error: boom at line 1 column 2"}}"#
    );
    assert!(!s.negotiated());
}

#[test]
fn reading_without_command_before_capabilities_is_refused() {
    let mut s = Session::new();
    let step = s.on_reading(Ok(None));
    assert_eq!(
        reply_text(step),
        r#"{"error":{"class":"CommandNotFound","desc":"qmp_capabilities required first"}}"#
    );
    s.on_reading(Ok(Some("qmp_capabilities".to_string())));
    assert_eq!(run_name(s.on_reading(Ok(None))), "");
    assert_eq!(run_name(s.on_reading(Ok(Some("stop".to_string())))), "stop");
}

#[test]
fn server_stops_after_quit_or_requested_quit() {
    assert!(server_stops(&Accepted::Served(true)));
    assert!(!server_stops(&Accepted::Served(false)));
    assert!(server_stops(&Accepted::Failed(true)));
    assert!(!server_stops(&Accepted::Failed(false)));
}
