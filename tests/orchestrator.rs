use tui_chat::entry::{Field, LogEntry};
use tui_chat::json::Json;
use tui_chat::orchestrator::{Action, Orchestrator, Phase, Reply};
use tui_chat::session::Session;

fn text(s: &str) -> Json {
    Json::Text(s.to_owned())
}

fn object(members: Vec<(&str, Json)>) -> Json {
    Json::Object(members.into_iter().map(|(k, v)| (k.to_owned(), v)).collect())
}

fn greet_session() -> Orchestrator {
    let s = Session::new_at("greet", "chat-1".to_owned(), 1000);
    Orchestrator::start(Some(s.to_document())).unwrap()
}

fn entry(id: &str, attrs: Vec<(&str, &str)>) -> LogEntry {
    LogEntry {
        id: id.to_owned(),
        attributes: attrs.into_iter().map(|(l, t)| (l.to_owned(), Field::Text(t.to_owned()))).collect(),
    }
}

#[test]
fn wait_reply_publishes_greeting_and_waits() {
    let mut o = greet_session();
    assert_eq!(o.session.script, "greet");
    let reply = object(vec![
        ("command", text("Wait")),
        ("context", object(vec![])),
        ("user_output", text("Hello!")),
    ]);
    let actions = o.on_reply(Reply::Success(reply), 2000);
    assert_eq!(actions.len(), 3);
    assert_eq!(
        actions[0],
        Action::Publish { label: "Robot".to_owned(), texts: vec!["Hello!".to_owned()] }
    );
    assert_eq!(actions[1], Action::Persist);
    assert_eq!(actions[2], Action::ReadAfter { cursor: "0-0".to_owned() });
    assert_eq!(o.phase, Phase::Waiting);
    assert_eq!(o.session.timestamp, 2000);
    assert_eq!(o.session.context.get("context"), &object(vec![]));
    assert_eq!(o.session.context.get("user_input"), &Json::List(vec![]));
}

#[test]
fn finish_reply_clears_context_and_stops() {
    let mut o = greet_session();
    let reply = object(vec![("command", text("Finish")), ("context", object(vec![("x", Json::Int(1))]))]);
    let actions = o.on_reply(Reply::Success(reply), 3000);
    assert_eq!(o.phase, Phase::Finished);
    assert_eq!(o.session.context, Json::Object(vec![]));
    assert_eq!(actions, vec![
        Action::Publish { label: "Robot".to_owned(), texts: vec![] },
        Action::Persist,
        Action::Stop,
    ]);
    assert!(o.stopped());
}

#[test]
fn rejected_reply_fails_without_change() {
    let mut o = greet_session();
    let actions = o.on_reply(Reply::Rejected, 3000);
    assert_eq!(actions, vec![Action::Stop]);
    assert_eq!(o.phase, Phase::Failed);
    assert_eq!(o.session, Session::new_at("greet", "chat-1".to_owned(), 1000));
}

#[test]
fn unreachable_interpreter_fails() {
    let mut o = greet_session();
    let actions = o.on_reply(Reply::Unreachable, 3000);
    assert_eq!(actions, vec![Action::Stop]);
    assert_eq!(o.phase, Phase::Failed);
    assert_eq!(o.session.timestamp, 1000);
}

#[test]
fn pause_and_operator_store_and_stop() {
    let mut o = greet_session();
    let actions = o.on_reply(Reply::Success(object(vec![("command", text("Pause"))])), 5);
    assert_eq!(o.phase, Phase::Paused);
    assert_eq!(actions[1], Action::Persist);
    assert_eq!(actions[2], Action::Stop);

    let mut o = greet_session();
    let reply = object(vec![
        ("command", text("Operator")),
        ("context", object(vec![("step", Json::Int(2))])),
    ]);
    let actions = o.on_reply(Reply::Success(reply), 5);
    assert_eq!(o.phase, Phase::Escalated);
    assert_eq!(actions.len(), 3);
    assert_eq!(o.operator_message(), None);
    o.session.context.set("operator_message", text("call me"));
    assert_eq!(o.operator_message(), Some(&"call me".to_owned()));
}

#[test]
fn unknown_verdict_halts_without_storing() {
    let mut o = greet_session();
    let reply = object(vec![("command", text("Dance")), ("user_output", Json::List(vec![text("a"), Json::Int(3), text("b")]))]);
    let actions = o.on_reply(Reply::Success(reply), 7);
    assert_eq!(o.phase, Phase::Halted);
    assert_eq!(actions, vec![
        Action::Publish { label: "Robot".to_owned(), texts: vec!["a".to_owned(), "b".to_owned()] },
        Action::Unrecognized { command: text("Dance") },
        Action::Stop,
    ]);
    assert_eq!(o.session.timestamp, 1000);
}

#[test]
fn waiting_collects_user_texts_in_order() {
    let mut o = greet_session();
    o.on_reply(Reply::Success(object(vec![("command", text("Wait"))])), 10);
    let entries = vec![
        entry("100-0", vec![("Robot", "Hello!")]),
        entry("101-0", vec![("Customer", "hi")]),
        entry("101-1", vec![("Customer", "there"), ("Robot", "x")]),
    ];
    let actions = o.on_entries(&entries, 20);
    assert_eq!(actions, vec![Action::Persist, Action::Invoke]);
    assert_eq!(o.phase, Phase::Invoking);
    assert_eq!(o.session.cursor, "101-1");
    assert_eq!(o.session.timestamp, 20);
    assert_eq!(o.session.context.get("user_input"), &Json::List(vec![text("hi"), text("there")]));
}

#[test]
fn waiting_skips_entries_before_cursor_and_reads_again() {
    let mut o = greet_session();
    o.session.cursor = "200-0".to_owned();
    o.on_reply(Reply::Success(object(vec![("command", text("Wait"))])), 10);
    let old = vec![entry("150-0", vec![("Customer", "stale")]), entry("201-0", vec![("Robot", "r")])];
    let actions = o.on_entries(&old, 20);
    assert_eq!(actions, vec![Action::ReadAfter { cursor: "201-0".to_owned() }]);
    assert_eq!(o.phase, Phase::Waiting);
    assert_eq!(o.session.timestamp, 10);
    let actions = o.on_read_failure();
    assert_eq!(actions, vec![Action::Stop]);
    assert_eq!(o.phase, Phase::Failed);
}

#[test]
fn start_without_document_gives_none() {
    assert!(Orchestrator::start(None).is_none());
    assert!(Orchestrator::start(Some(object(vec![("chat_id", text("c"))]))).is_none());
}

#[test]
fn failed_store_fails_the_session() {
    let mut o = greet_session();
    o.on_reply(Reply::Success(object(vec![("command", text("Pause"))])), 5);
    let actions = o.on_persist_failure();
    assert_eq!(actions, vec![Action::Stop]);
    assert_eq!(o.phase, Phase::Failed);
    assert_eq!(o.session.timestamp, 5);
}

#[test]
fn missing_command_is_reported_as_null() {
    let mut o = greet_session();
    let actions = o.on_reply(Reply::Success(object(vec![])), 5);
    assert_eq!(actions[1], Action::Unrecognized { command: Json::Null });
    assert_eq!(o.phase, Phase::Halted);
}
