use group_chat::client::{Application, ClientAction, ConnectStep, Event, Model, RECONNECT_DELAY_MS};
use group_chat::codec::ChatMessage;

fn connected_app() -> Application {
    let mut app = Application::new("ws://127.0.0.1:9001", "alice", "general");
    app.connect_result(true);
    app
}

#[test]
fn new_session_is_empty() {
    let app = Application::new("ws://h:1", "alice", "general");
    assert_eq!(app.model.url, "ws://h:1");
    assert_eq!(app.model.username, "alice");
    assert_eq!(app.model.group, "general");
    assert!(app.model.text_area.is_empty());
    assert!(app.model.messages.is_empty());
    assert!(!app.active);
    assert_eq!(app.attempts, 0);
}

#[test]
fn reconnect_after_three_failures() {
    let mut app = Application::new("ws://h:1", "alice", "general");
    let mut waited = 0;
    for _ in 0..3 {
        match app.connect_result(false) {
            ConnectStep::Retry { delay_ms } => waited += delay_ms,
            other => panic!("unexpected {:?}", other),
        }
        assert!(!app.active);
    }
    match app.connect_result(true) {
        ConnectStep::Handshake(first) => assert_eq!(first, "general"),
        other => panic!("unexpected {:?}", other),
    }
    assert!(app.active);
    assert_eq!(app.attempts, 4);
    assert_eq!(waited, 3 * RECONNECT_DELAY_MS);
    assert_eq!(RECONNECT_DELAY_MS, 1000);
}

#[test]
fn typing_and_backspace() {
    let mut app = connected_app();
    assert!(matches!(app.update(Event::Input('h')), ClientAction::Idle));
    app.update(Event::Input('i'));
    app.update(Event::Input('!'));
    assert_eq!(app.model.text_area, "hi!");
    app.update(Event::Backspace);
    assert_eq!(app.model.text_area, "hi");
    app.update(Event::Backspace);
    app.update(Event::Backspace);
    app.update(Event::Backspace);
    assert_eq!(app.model.text_area, "");
}

#[test]
fn send_encodes_and_clears() {
    let mut app = connected_app();
    app.update(Event::Input('h'));
    app.update(Event::Input('i'));
    match app.update(Event::Send) {
        ClientAction::Transmit(line) => assert_eq!(line, "alice: hi"),
        other => panic!("unexpected {:?}", other),
    }
    assert_eq!(app.model.text_area, "");
    assert!(app.model.messages.is_empty());
    assert!(matches!(app.update(Event::Send), ClientAction::Idle));
}

#[test]
fn send_waits_for_connection() {
    let mut app = Application::new("ws://h:1", "alice", "general");
    app.update(Event::Input('x'));
    assert!(matches!(app.update(Event::Send), ClientAction::Idle));
    assert_eq!(app.model.text_area, "x");
}

#[test]
fn passed_on_events() {
    let mut app = connected_app();
    assert!(matches!(app.update(Event::Quit), ClientAction::Quit));
    assert!(matches!(app.update(Event::Restart), ClientAction::Restart));
    assert!(matches!(app.update(Event::Refresh), ClientAction::Idle));
    match app.update(Event::Resize { width: 80, height: 24 }) {
        ClientAction::Resize { width, height } => assert_eq!((width, height), (80, 24)),
        other => panic!("unexpected {:?}", other),
    }
    app.update(Event::ReciveMessage(ChatMessage::new("bob", "yo")));
    assert_eq!(app.model.messages, vec![ChatMessage::new("bob", "yo")]);
}

#[test]
fn receive_frames() {
    let mut app = connected_app();
    assert!(matches!(app.receive(Some("bob: hello".to_string())), ClientAction::Idle));
    assert!(matches!(app.receive(Some("garbage".to_string())), ClientAction::Idle));
    assert!(matches!(app.receive(Some("carol: a: b".to_string())), ClientAction::Idle));
    assert_eq!(
        app.model.messages,
        vec![ChatMessage::new("bob", "hello"), ChatMessage::new("carol", "a: b")]
    );
    assert!(matches!(app.receive(None), ClientAction::Restart));
    assert!(!app.active);
    assert_eq!(app.model.messages.len(), 2);
}

#[test]
fn restart_keeps_history() {
    let mut app = connected_app();
    app.receive(Some("bob: hello".to_string()));
    app.update(Event::Input('z'));
    app.restart();
    assert!(!app.active);
    assert_eq!(app.attempts, 0);
    assert_eq!(app.model.messages.len(), 1);
    assert_eq!(app.model.text_area, "z");
}

#[test]
fn model_default_is_empty() {
    let m = Model::default();
    assert!(m.url.is_empty() && m.username.is_empty() && m.group.is_empty());
    assert!(m.text_area.is_empty() && m.messages.is_empty());
}
