use tui_chat::connector::{
    entry_signals_at, incoming_message_with, make_incoming_message, make_timestamp_string, post_attribute, replay, replay_with, InputLoop,
};
use tui_chat::entry::{Field, LogEntry};
use tui_chat::signals::{ConnectorEvent, ControllerSignal};

fn entry(id: &str, attrs: Vec<(&str, &str)>) -> LogEntry {
    LogEntry {
        id: id.to_owned(),
        attributes: attrs.into_iter().map(|(l, t)| (l.to_owned(), Field::Text(t.to_owned()))).collect(),
    }
}

fn incoming(from: &str, message: &str) -> ControllerSignal {
    ControllerSignal::IncomingMessage { from: from.to_owned(), message: message.to_owned() }
}

#[test]
fn timestamp_text() {
    assert_eq!(make_timestamp_string("$"), "");
    assert_eq!(make_timestamp_string("abc-1"), "");
    assert_eq!(make_timestamp_string("9223372036854775808-0"), "");
    let t = make_timestamp_string("1700000000000-0");
    assert_eq!(t.len(), 19);
    assert!(t.contains("/2023 "));
    assert_eq!(t.matches(':').count(), 2);
    assert_eq!(make_timestamp_string("0-0").len(), 19);
    assert_eq!(make_timestamp_string("253402214399999-5").len(), 19);
    for id in ["0-0", "1700000000000-7", "253402214399999-5"] {
        let t: Vec<char> = make_timestamp_string(id).chars().collect();
        for (i, c) in t.iter().enumerate() {
            match i {
                2 | 5 => assert_eq!(*c, '/'),
                10 => assert_eq!(*c, ' '),
                13 | 16 => assert_eq!(*c, ':'),
                _ => assert!(c.is_ascii_digit()),
            }
        }
    }
}

#[test]
fn messages_carry_stamp_and_text() {
    assert_eq!(make_incoming_message("T", &"ann".to_owned(), &Field::Text("hi".to_owned())), incoming("ann", "T. \"hi\""));
    assert_eq!(
        make_incoming_message("", &"x".to_owned(), &Field::Other("int(3) (not text)".to_owned())),
        incoming("x", ". \"int(3) (not text)\"")
    );
    assert_eq!(
        make_incoming_message("T", &"q".to_owned(), &Field::Text("say \"yes\"\n".to_owned())),
        incoming("q", "T. \"say \\\"yes\\\"\\n\"")
    );
    assert_eq!(incoming_message_with("T", &"ann".to_owned(), "hi"), incoming("ann", "T. hi"));
    let e = entry("1-0", vec![("a", "1"), ("b", "2")]);
    assert_eq!(entry_signals_at(&e, "S"), vec![incoming("a", "S. \"1\""), incoming("b", "S. \"2\"")]);
}

#[test]
fn catch_up_reproduces_transcript() {
    let h = vec![entry("1-0", vec![("a", "x")]), entry("2-0", vec![]), entry("3-0", vec![("b", "y"), ("a", "z")])];
    let stamps = vec!["s1".to_owned(), "s2".to_owned(), "s3".to_owned()];
    let first = replay_with(&h, &stamps);
    assert_eq!(first, vec![incoming("a", "s1. \"x\""), incoming("b", "s3. \"y\""), incoming("a", "s3. \"z\"")]);
    assert_eq!(replay_with(&h, &stamps), first);
    let mut l = InputLoop::new();
    assert_eq!(l.last_id, "$");
    let a = l.catch_up(&h);
    l.last_id = "2-0".to_owned();
    let b = l.catch_up(&h);
    assert_eq!(a, b);
    assert_eq!(a.len(), 3);
    assert_eq!(l.last_id, "2-0");
    assert_eq!(replay(&vec![]), vec![]);
}

#[test]
fn tailing_moves_resume_point() {
    let mut l = InputLoop::new();
    let none = l.on_batch(&vec![]);
    assert!(none.is_empty());
    assert_eq!(l.last_id, "$");
    let got = l.on_batch(&vec![entry("5-0", vec![("a", "p")]), entry("5-1", vec![("b", "q")])]);
    assert_eq!(got.len(), 2);
    assert_eq!(l.last_id, "5-1");
    assert_eq!(l.on_read_error("timeout"), ControllerSignal::Info { message: "REDIS ERROR: timeout".to_owned() });
}

#[test]
fn outbound_post_attribute() {
    let r = post_attribute(&"me".to_owned(), ConnectorEvent::Post { message: "m".to_owned() });
    assert_eq!(r, ("me".to_owned(), "m".to_owned()));
}
