use std::rc::Rc;
use tui_chat::mediator::{connection_title, submit, take_content, transcript_line, Connection, Effect, Mediator};
use tui_chat::signals::{ConnectorEvent, ControllerSignal};

fn incoming(from: &str, message: &str) -> ControllerSignal {
    ControllerSignal::IncomingMessage { from: from.to_owned(), message: message.to_owned() }
}

#[test]
fn drain_answers_in_send_order() {
    let mut m = Mediator::new(4);
    let mut input = String::new();
    assert!(m.send(incoming("a", "1")).is_ok());
    assert!(m.send(ControllerSignal::Info { message: "i".to_owned() }).is_ok());
    assert!(m.send(incoming("b", "2")).is_ok());
    assert!(m.send(ControllerSignal::OutgoingMessage { message: "lost".to_owned() }).is_ok());
    assert_eq!(m.send(ControllerSignal::Quit), Err(ControllerSignal::Quit));
    let effects = m.process_signals(&mut input);
    assert_eq!(effects, vec![
        Effect::Append { from: "a".to_owned(), message: "1".to_owned() },
        Effect::Notice { message: "i".to_owned() },
        Effect::Append { from: "b".to_owned(), message: "2".to_owned() },
        Effect::Dropped,
    ]);
    assert!(m.queue.is_empty());
    assert!(m.running);
}

#[test]
fn second_connect_is_refused_with_one_notice() {
    let mut m = Mediator::new(8);
    let mut input = String::new();
    m.send(ControllerSignal::ConnectTo { username: Some("ann".to_owned()), chat_id: None }).unwrap();
    m.send(ControllerSignal::ConnectTo { username: None, chat_id: Some("7".to_owned()) }).unwrap();
    m.send(ControllerSignal::OutgoingMessage { message: "hey".to_owned() }).unwrap();
    let effects = m.process_signals(&mut input);
    assert_eq!(effects, vec![
        Effect::Connect { username: "ann".to_owned(), chat_id: "42".to_owned(), title: "ann @ 42".to_owned() },
        Effect::Refused,
        Effect::Post(ConnectorEvent::Post { message: "hey".to_owned() }),
        Effect::Notice { message: "RUNTIME ERROR:\ntrying to connect when already connected.".to_owned() },
    ]);
    assert_eq!(m.connection, Connection::Connected { username: "ann".to_owned(), chat_id: "42".to_owned() });
}

#[test]
fn default_connection_labels() {
    let mut m = Mediator::new(2);
    let mut input = String::new();
    let (e, next) = m.dispatch(ControllerSignal::ConnectTo { username: None, chat_id: None }, &mut input);
    assert_eq!(e, Effect::Connect { username: "NONAME".to_owned(), chat_id: "42".to_owned(), title: "NONAME @ 42".to_owned() });
    assert_eq!(next, None);
}

#[test]
fn submit_empty_gives_notice_only() {
    let mut input = String::new();
    let r = submit(&mut input);
    assert_eq!(r, ControllerSignal::Info {
        message: "You are trying to send an empty message to the chat.\nThis is forbidden.".to_owned()
    });
    assert_eq!(input, "");
}

#[test]
fn submit_text_gives_one_outgoing_message_and_clears() {
    let mut m = Mediator::new(4);
    m.send(ControllerSignal::ConnectTo { username: None, chat_id: None }).unwrap();
    m.send(ControllerSignal::Submit).unwrap();
    let mut input = "good day".to_owned();
    let effects = m.process_signals(&mut input);
    assert_eq!(input, "");
    assert_eq!(effects.len(), 3);
    assert_eq!(effects[1], Effect::Submitted);
    assert_eq!(effects[2], Effect::Post(ConnectorEvent::Post { message: "good day".to_owned() }));
}

#[test]
fn quit_stops() {
    let mut m = Mediator::new(1);
    let mut input = "kept".to_owned();
    m.send(ControllerSignal::Quit).unwrap();
    assert_eq!(m.process_signals(&mut input), vec![Effect::Stop]);
    assert!(!m.running);
    assert_eq!(input, "kept");
}

#[test]
fn input_field_content() {
    assert_eq!(take_content(Rc::new(String::new())), None);
    assert_eq!(take_content(Rc::new("bob".to_owned())), Some("bob".to_owned()));
    assert_eq!(connection_title("a", "b"), "a @ b");
    assert_eq!(transcript_line("ann", "hi"), "[ann] -> hi");
}

#[test]
fn closed_channel_stops() {
    let mut m = Mediator::new(2);
    assert_eq!(m.on_disconnected(), Effect::Stop);
    assert!(!m.running);
}

#[test]
fn submitted_message_posted_only_once_connected() {
    let mut m = Mediator::new(4);
    m.send(ControllerSignal::Submit).unwrap();
    m.send(ControllerSignal::ConnectTo { username: None, chat_id: None }).unwrap();
    m.send(ControllerSignal::Submit).unwrap();
    let mut input = "first".to_owned();
    let effects = m.process_signals(&mut input);
    assert_eq!(effects.len(), 5);
    assert_eq!(effects[0], Effect::Submitted);
    assert!(matches!(effects[1], Effect::Connect { .. }));
    assert_eq!(effects[2], Effect::Submitted);
    assert_eq!(effects[3], Effect::Post(ConnectorEvent::Post { message: "first".to_owned() }));
    assert_eq!(effects[4], Effect::Notice {
        message: "You are trying to send an empty message to the chat.\nThis is forbidden.".to_owned()
    });
}
