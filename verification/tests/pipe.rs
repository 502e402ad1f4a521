use serde_json::Value;
use spec_windows::hook::{
    hook_output, step as hook_step, HookAction, HookEvent, HookInput, HookOutput, HookState,
    SpecResponse,
};
use spec_windows::json::get_text;
use spec_windows::protocol::{
    classify_line, frame_line, message_kind, pipe_name, Incoming, MessageKind, Request, Response,
};
use spec_windows::session::{
    preview, step as session_step, PendingRequest, SessionAction, SessionEvent, SessionState,
};

fn text(s: &str) -> Option<String> {
    Some(s.to_string())
}

fn json(s: &str) -> Value {
    serde_json::from_str(s).unwrap()
}

fn input(mode: Option<&str>) -> HookInput {
    HookInput {
        session_id: text("s"),
        prompt_id: text("p"),
        tool_use_id: text("t"),
        cwd: text("/tmp"),
        tool_name: text("Bash"),
        permission_mode: mode.map(|m| m.to_string()),
        tool_input: json("{\"command\": \"ls\"}"),
    }
}

fn request() -> Request {
    Request::new(
        "t".to_string(),
        "s".to_string(),
        "/tmp".to_string(),
        "Bash".to_string(),
        json("{\"command\": \"ls\"}"),
    )
}

fn message(msg_type: &str, decision: Option<&str>, reason: Option<&str>) -> HookEvent {
    HookEvent::Received(SpecResponse {
        msg_type: msg_type.to_string(),
        decision: decision.map(|d| d.to_string()),
        reason: reason.map(|r| r.to_string()),
    })
}

fn printed(decision: &str, reason: &str) -> HookOutput {
    HookOutput {
        hook_event_name: "PreToolUse".to_string(),
        permission_decision: decision.to_string(),
        permission_decision_reason: reason.to_string(),
    }
}

#[test]
fn the_pipe_has_a_default_name() {
    assert_eq!(pipe_name(None), "spec");
    assert_eq!(pipe_name(text("other")), "other");
    assert_eq!(pipe_name(text("")), "");
}

#[test]
fn a_request_is_marked_as_one() {
    let r = request();
    assert_eq!(r.msg_type, "request");
    assert_eq!(r.request_id, "t");
    assert_eq!(r.session_id, "s");
    assert_eq!(r.cwd, "/tmp");
    assert_eq!(r.tool_name, "Bash");
    assert_eq!(r.tool_input, json("{\"command\":\"ls\"}"));
}

#[test]
fn lines_end_with_a_newline() {
    assert_eq!(frame_line("{}"), "{}\n");
    assert_eq!(frame_line(""), "\n");
}

#[test]
fn lines_are_told_apart() {
    assert_eq!(classify_line(""), Incoming::Empty);
    assert_eq!(classify_line(" \t\r\n"), Incoming::Empty);
    assert_eq!(classify_line("{oops\n"), Incoming::NotJson);
    assert_eq!(
        classify_line("  {\"type\":\"request\"} \r\n"),
        Incoming::Request("{\"type\":\"request\"}".to_string())
    );
    assert_eq!(
        classify_line("{\"a\":1,\"type\":\"usage\"}\n"),
        Incoming::Usage("{\"a\":1,\"type\":\"usage\"}".to_string())
    );
    assert_eq!(classify_line("{\"type\":\"ack\"}\n"), Incoming::Unknown);
    assert_eq!(classify_line("{\"type\":1}\n"), Incoming::Unknown);
    assert_eq!(classify_line("{}\n"), Incoming::Unknown);
    assert_eq!(classify_line("[\"type\"]\n"), Incoming::Unknown);
    assert_eq!(classify_line("\"request\"\n"), Incoming::Unknown);
}

#[test]
fn a_framed_message_is_classified_as_before() {
    for line in ["", "{}", "{\"type\":\"usage\"}", " {\"type\":\"request\"}", "x"] {
        assert_eq!(classify_line(&frame_line(line)), classify_line(line));
    }
}

#[test]
fn whitespace_is_that_of_unicode() {
    for c in '\0'..=char::MAX {
        let blank = classify_line(&c.to_string()) == Incoming::Empty;
        assert_eq!(blank, c.is_whitespace(), "{:x}", c as u32);
    }
}

#[test]
fn kinds_go_by_the_tag() {
    assert_eq!(message_kind(text("request")), MessageKind::Request);
    assert_eq!(message_kind(text("usage")), MessageKind::Usage);
    assert_eq!(message_kind(text("Request")), MessageKind::Unknown);
    assert_eq!(message_kind(None), MessageKind::Unknown);
}

#[test]
fn members_are_read_where_they_are_texts() {
    let v = json("{\"a\":\"x\\n\",\"b\":1,\"c\":{\"a\":\"y\"}}");
    assert_eq!(get_text(&v, "a"), text("x\n"));
    assert_eq!(get_text(&v, "b"), None);
    assert_eq!(get_text(&v, "c"), None);
    assert_eq!(get_text(&v, "d"), None);
    assert_eq!(get_text(&json("[\"a\"]"), "a"), None);
}

#[test]
fn the_preview_is_the_start_of_the_compact_text() {
    assert_eq!(preview(&json("{ \"b\" : [1, 2.5, null], \"a\" : \"é\" }")), "{\"a\":\"é\",\"b\":[1,2.5,null]}");
    let long = Value::String("é".repeat(100));
    assert_eq!(preview(&long), format!("\"{}", "é".repeat(59)));
    let exact = Value::String("x".repeat(58));
    assert_eq!(preview(&exact), format!("\"{}\"", "x".repeat(58)));
    assert_eq!(preview(&Value::Null), "null");
}

#[test]
fn a_call_is_named_by_its_own_id_first() {
    assert_eq!(input(None).into_request(), request());
    let mut i = input(None);
    i.tool_use_id = None;
    assert_eq!(i.into_request().request_id, "p");
    let mut i = input(None);
    i.tool_use_id = None;
    i.prompt_id = None;
    assert_eq!(i.into_request().request_id, "s-Bash");
    let i = HookInput {
        session_id: None,
        prompt_id: None,
        tool_use_id: None,
        cwd: None,
        tool_name: None,
        permission_mode: None,
        tool_input: Value::Null,
    };
    let r = i.into_request();
    assert_eq!(r.request_id, "-");
    assert_eq!(r.session_id, "");
    assert_eq!(r.cwd, "");
    assert_eq!(r.tool_name, "");
    assert_eq!(r.tool_input, Value::Null);
}

#[test]
fn calls_of_one_prompt_have_names_of_their_own() {
    let mut a = input(None);
    let mut b = input(None);
    a.tool_use_id = text("t1");
    b.tool_use_id = text("t2");
    assert_eq!(a.prompt_id, b.prompt_id);
    assert_ne!(a.into_request().request_id, b.into_request().request_id);
}

#[test]
fn only_an_interactive_session_is_asked() {
    assert!(input(Some("default")).asks());
    assert!(!input(Some("acceptEdits")).asks());
    assert!(!input(Some("")).asks());
    assert!(!input(None).asks());
    for mode in [Some("plan"), Some("Default"), None] {
        assert_eq!(
            hook_step(HookState::Idle, HookEvent::Payload(input(mode))),
            (HookState::Done, HookAction::Exit)
        );
    }
}

#[test]
fn a_decision_is_printed_after_the_handshake() {
    for (decision, reason, expected) in [
        ("allow", None, "Aprovado pela bandeja do Spec"),
        ("deny", None, "Negado pela bandeja do Spec"),
        ("deny", Some("no"), "no"),
    ] {
        let (s, a) = hook_step(HookState::Idle, HookEvent::Payload(input(Some("default"))));
        assert_eq!(a, HookAction::Connect);
        let (s, a) = hook_step(s, HookEvent::Connected);
        assert_eq!(a, HookAction::Send(request()));
        let (s, a) = hook_step(s, HookEvent::Sent);
        assert_eq!(a, HookAction::Receive { timeout_ms: 300 });
        let (s, a) = hook_step(s, message("ack", None, None));
        assert_eq!(a, HookAction::Receive { timeout_ms: 55_000 });
        let (s, a) = hook_step(s, message("decision", Some(decision), reason));
        assert_eq!(s, HookState::Done);
        assert_eq!(a, HookAction::Print(printed(decision, expected)));
    }
}

#[test]
fn every_failure_is_silent() {
    let states = || {
        vec![
            HookState::Idle,
            HookState::Connecting(request()),
            HookState::Sending,
            HookState::AwaitingAck,
            HookState::AwaitingDecision,
            HookState::Done,
        ]
    };
    for s in states() {
        assert_eq!(hook_step(s, HookEvent::Failed), (HookState::Done, HookAction::Exit));
    }
    let out_of_turn = [
        (HookState::AwaitingAck, message("decision", Some("allow"), None)),
        (HookState::AwaitingDecision, message("ack", None, None)),
        (HookState::AwaitingDecision, message("decision", None, Some("why"))),
        (HookState::AwaitingDecision, message("decision", Some("maybe"), None)),
        (HookState::Done, message("decision", Some("allow"), None)),
        (HookState::Sending, HookEvent::Connected),
    ];
    for (s, e) in out_of_turn {
        assert_eq!(hook_step(s, e), (HookState::Done, HookAction::Exit));
    }
}

#[test]
fn outputs_are_for_allow_and_deny_only() {
    assert_eq!(hook_output(text("allow"), None), Some(printed("allow", "Aprovado pela bandeja do Spec")));
    assert_eq!(hook_output(text("deny"), text("r")), Some(printed("deny", "r")));
    assert_eq!(hook_output(text("ask"), text("r")), None);
    assert_eq!(hook_output(None, text("r")), None);
}

fn arrived() -> SessionEvent {
    SessionEvent::Arrived { request: request(), reply: 9 }
}

#[test]
fn a_session_acknowledges_registers_waits_and_answers() {
    let (s, a) = session_step(SessionState::Opened, arrived());
    assert_eq!(a, SessionAction::Send(Response::Ack { request_id: "t".to_string() }));
    let (s, a) = session_step(s, SessionEvent::Sent);
    assert_eq!(
        a,
        SessionAction::Register(PendingRequest {
            request_id: "t".to_string(),
            tool_name: "Bash".to_string(),
            tool_input_preview: "{\"command\":\"ls\"}".to_string(),
            reply: 9,
        })
    );
    let (s, a) = session_step(s, SessionEvent::Registered);
    assert_eq!(a, SessionAction::Wait { timeout_ms: 600_000 });
    let (s, a) = session_step(
        s,
        SessionEvent::Decided { decision: "deny".to_string(), reason: text("r") },
    );
    assert_eq!(
        a,
        SessionAction::Send(Response::Decision {
            request_id: "t".to_string(),
            decision: "deny".to_string(),
            reason: text("r"),
        })
    );
    for e in [SessionEvent::Sent, SessionEvent::Failed] {
        assert_eq!(
            session_step(SessionState::Closing, e),
            (SessionState::Closed, SessionAction::Close)
        );
    }
    assert_eq!(s, SessionState::Closing);
}

#[test]
fn an_unanswered_request_expires() {
    let (s, a) = session_step(SessionState::Waiting("t".to_string()), SessionEvent::Failed);
    assert_eq!(a, SessionAction::Expire("t".to_string()));
    assert_eq!(s, SessionState::Closing);
}

#[test]
fn a_session_closes_when_something_fails() {
    for s in [
        SessionState::Opened,
        SessionState::Acknowledging(request(), 1),
        SessionState::Registering("t".to_string()),
        SessionState::Closed,
    ] {
        assert_eq!(
            session_step(s, SessionEvent::Failed),
            (SessionState::Closed, SessionAction::Close)
        );
    }
}
