use tui_chat::json::Json;
use tui_chat::session::{user_output_texts, Session};

fn text(s: &str) -> Json {
    Json::Text(s.to_owned())
}

#[test]
fn stored_session_reads_back_equal() {
    let mut s = Session::new_at("greet", "chat-9".to_owned(), 42);
    s.context.set("context", Json::Object(vec![("x".to_owned(), Json::Int(1))]));
    s.cursor = "17-2".to_owned();
    let doc = s.to_document();
    let back = Session::from_document(doc).unwrap();
    let mut expected = Session::new_at("greet", "chat-9".to_owned(), 42);
    expected.context.set("context", Json::Object(vec![("x".to_owned(), Json::Int(1))]));
    expected.cursor = "17-2".to_owned();
    assert_eq!(back, expected);
}

#[test]
fn document_without_cursor_starts_at_the_beginning() {
    let mut doc = Session::new_at("s", "c".to_owned(), 1).to_document();
    doc.take("cursor");
    let back = Session::from_document(doc).unwrap();
    assert_eq!(back.cursor, "0-0");
    let mut bad = Session::new_at("s", "c".to_owned(), 1).to_document();
    bad.set("started", text("yesterday"));
    assert!(Session::from_document(bad).is_none());
}

#[test]
fn new_session_defaults() {
    let s = Session::new("greet");
    assert_eq!(s.script, "greet");
    assert_eq!(s.username, "Customer");
    assert_eq!(s.robot, "Robot");
    assert_eq!(s.operator, "Operator");
    assert_eq!(s.cursor, "0-0");
    assert_eq!(s.started, s.timestamp);
    assert!(s.started > 0);
    assert_eq!(s.chat_id.len(), 36);
    assert_eq!(s.chat_id.matches('-').count(), 4);
    assert_eq!(s.chat_id.chars().nth(14), Some('4'));
    assert!(s.chat_id.chars().all(|c| c == '-' || c.is_ascii_digit() || ('a'..='f').contains(&c)));
    assert_ne!(Session::new("greet").chat_id, s.chat_id);
    assert_eq!(s.context, Json::Object(vec![]));
}

#[test]
fn touch_refreshes_timestamp_only() {
    let mut s = Session::new_at("g", "c".to_owned(), 5);
    s.touch_at(9);
    assert_eq!(s.timestamp, 9);
    assert_eq!(s.started, 5);
    s.touch();
    assert!(s.timestamp > 9);
}

#[test]
fn user_output_forms() {
    assert_eq!(user_output_texts(&text("Hello!")), vec!["Hello!".to_owned()]);
    assert_eq!(user_output_texts(&Json::Null), Vec::<String>::new());
    assert_eq!(
        user_output_texts(&Json::List(vec![text("a"), Json::Bool(true), text("b")])),
        vec!["a".to_owned(), "b".to_owned()]
    );
    assert_eq!(
        user_output_texts(&Json::Object(vec![("2".to_owned(), text("y")), ("1".to_owned(), text("x"))])),
        vec!["y".to_owned(), "x".to_owned()]
    );
}
