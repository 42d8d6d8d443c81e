use tui_chat::entry::{is_past_cursor, parse_decimal, parse_entry_id, split_id, EntryId};
use tui_chat::interpret::Command;
use tui_chat::json::{extract_one_string_from_array, find_key, Json};
use tui_chat::text::same_text;

#[test]
fn command_names() {
    assert_eq!(Command::from("Wait"), Command::Wait);
    assert_eq!(Command::from("Finish"), Command::Finish);
    assert_eq!(Command::from("Pause"), Command::Pause);
    assert_eq!(Command::from("Operator"), Command::Operator);
    assert_eq!(Command::from("wait"), Command::Noop);
    assert_eq!(Command::from(""), Command::Noop);
}

#[test]
fn same_text_compares_characters() {
    assert!(same_text("héllo", "héllo"));
    assert!(!same_text("héllo", "hello"));
    assert!(!same_text("ab", "abc"));
}

#[test]
fn json_fields() {
    let mut d = Json::empty_object();
    assert_eq!(d.get("a"), &Json::Null);
    d.set("a", Json::Int(1));
    d.set("b", Json::Text("t".to_owned()));
    d.set("a", Json::Bool(false));
    assert_eq!(d, Json::Object(vec![("a".to_owned(), Json::Bool(false)), ("b".to_owned(), Json::Text("t".to_owned()))]));
    assert_eq!(d.get("b").as_text(), Some(&"t".to_owned()));
    assert_eq!(d.take("a"), Json::Bool(false));
    assert_eq!(d.get("a"), &Json::Null);
    assert_eq!(Json::Int(3).get("a"), &Json::Null);
    let mut n = Json::Null;
    n.set("k", Json::Int(4));
    assert_eq!(n, Json::Object(vec![("k".to_owned(), Json::Int(4))]));
    let m = vec![("x".to_owned(), Json::Null), ("y".to_owned(), Json::Null), ("x".to_owned(), Json::Int(1))];
    assert_eq!(find_key(&m, "x"), Some(0));
    assert_eq!(find_key(&m, "z"), None);
}

#[test]
fn entry_identifiers() {
    assert_eq!(parse_entry_id("1700000000000-3"), Some(EntryId { millis: 1700000000000, seq: 3 }));
    assert_eq!(parse_entry_id("$"), None);
    assert_eq!(parse_entry_id("12-"), None);
    assert_eq!(parse_entry_id("1a-2"), None);
    assert_eq!(parse_entry_id("18446744073709551616-0"), None);
    assert_eq!(parse_decimal("18446744073709551615"), Some(u64::MAX));
    assert_eq!(parse_decimal(""), None);
    assert_eq!(split_id("5-6-7"), Some(("5", "6-7")));
    assert!(is_past_cursor("5-1", "5-0"));
    assert!(is_past_cursor("6-0", "5-9"));
    assert!(!is_past_cursor("5-0", "5-0"));
    assert!(is_past_cursor("1-0", "$"));
    assert!(!is_past_cursor("junk", "0-0"));
}

#[test]
fn first_text_of_list() {
    let l = Json::List(vec![Json::Text("ann".to_owned()), Json::Text("bob".to_owned())]);
    assert_eq!(extract_one_string_from_array(&l), Some("ann".to_owned()));
    assert_eq!(extract_one_string_from_array(&Json::List(vec![])), None);
    assert_eq!(extract_one_string_from_array(&Json::List(vec![Json::Int(1)])), None);
    assert_eq!(extract_one_string_from_array(&Json::Text("ann".to_owned())), None);
}
