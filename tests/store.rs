use group_chat::codec::ChatMessage;
use group_chat::store::{MessageLog, StoreError, REPLAY_LIMIT};

#[test]
fn replay_returns_most_recent_window() {
    let mut log = MessageLog::new();
    for i in 1..=150 {
        log.append("G", ChatMessage::new("u", &format!("m{}", i))).unwrap();
    }
    let r = log.replay("G", REPLAY_LIMIT);
    assert_eq!(r.len(), 100);
    for (k, m) in r.iter().enumerate() {
        assert_eq!(m.message, format!("m{}", k + 51));
    }
}

#[test]
fn replay_short_history_is_whole() {
    let mut log = MessageLog::new();
    log.append("G", ChatMessage::new("a", "1")).unwrap();
    log.append("H", ChatMessage::new("b", "2")).unwrap();
    log.append("G", ChatMessage::new("c", "3")).unwrap();
    let r = log.replay("G", 100);
    assert_eq!(r, vec![ChatMessage::new("a", "1"), ChatMessage::new("c", "3")]);
    assert_eq!(log.replay("H", 100), vec![ChatMessage::new("b", "2")]);
    assert!(log.replay("none", 100).is_empty());
    assert!(log.replay("G", 0).is_empty());
    assert_eq!(log.replay("G", 1), vec![ChatMessage::new("c", "3")]);
}

#[test]
fn append_ids_increase() {
    let mut log = MessageLog::new();
    let a = log.append("G", ChatMessage::new("a", "1")).unwrap();
    let b = log.append("H", ChatMessage::new("a", "2")).unwrap();
    let c = log.append("G", ChatMessage::new("a", "3")).unwrap();
    assert_eq!((a, b, c), (1, 2, 3));
}

#[test]
fn append_refused_when_ids_used_up() {
    let mut log = MessageLog::resume(u64::MAX - 1);
    assert_eq!(log.append("G", ChatMessage::new("a", "1")), Ok(u64::MAX - 1));
    assert_eq!(log.append("G", ChatMessage::new("a", "2")), Err(StoreError::IdsExhausted));
    assert_eq!(log.replay("G", 10), vec![ChatMessage::new("a", "1")]);
}
