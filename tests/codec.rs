use group_chat::codec::ChatMessage;

#[test]
fn serialize_joins_with_delimiter() {
    let m = ChatMessage::new("alice", "hello there");
    assert_eq!(m.serialize(), "alice: hello there");
}

#[test]
fn deserialize_splits_fields() {
    let m = ChatMessage::deserialize("bob: hi").unwrap();
    assert_eq!(m.username, "bob");
    assert_eq!(m.message, "hi");
}

#[test]
fn round_trip_without_delimiter_in_fields() {
    let cases = [("alice", "hello"), ("", ""), ("a:b", "c d"), ("ünï:", " çødé"), ("x", "")];
    for (u, msg) in cases.iter() {
        let m = ChatMessage::new(u, msg);
        let back = ChatMessage::deserialize(&m.serialize()).unwrap();
        assert_eq!(back, m);
    }
}

#[test]
fn delimiter_ambiguity_first_wins() {
    let m = ChatMessage::deserialize("a: b: c").unwrap();
    assert_eq!(m.username, "a");
    assert_eq!(m.message, "b: c");
}

#[test]
fn username_with_delimiter_does_not_round_trip() {
    let m = ChatMessage::new("a: b", "c");
    let back = ChatMessage::deserialize(&m.serialize()).unwrap();
    assert_eq!(back.username, "a");
    assert_eq!(back.message, "b: c");
    assert!(back != m);
}

#[test]
fn deserialize_without_delimiter_is_none() {
    assert!(ChatMessage::deserialize("no delimiter here").is_none());
    assert!(ChatMessage::deserialize("colon:without space").is_none());
    assert!(ChatMessage::deserialize("").is_none());
    assert!(ChatMessage::deserialize(":").is_none());
}

#[test]
fn deserialize_edge_positions() {
    let m = ChatMessage::deserialize(": ").unwrap();
    assert_eq!(m.username, "");
    assert_eq!(m.message, "");
    let m = ChatMessage::deserialize("::  x").unwrap();
    assert_eq!(m.username, ":");
    assert_eq!(m.message, " x");
    let m = ChatMessage::deserialize("é: ü").unwrap();
    assert_eq!(m.username, "é");
    assert_eq!(m.message, "ü");
}

#[test]
fn duplicate_keeps_fields() {
    let m = ChatMessage::new("u", "m");
    assert_eq!(m.duplicate(), m);
}
