use group_chat::client::{handle_key, key_event, Event, Key, KeyKind};

#[test]
fn key_bindings() {
    assert!(matches!(handle_key(Key::Esc), Some(Event::Quit)));
    assert!(matches!(handle_key(Key::Enter), Some(Event::Send)));
    assert!(matches!(handle_key(Key::Backspace), Some(Event::Backspace)));
    assert!(matches!(handle_key(Key::Char('x')), Some(Event::Input('x'))));
    assert!(handle_key(Key::Other).is_none());
}

#[test]
fn control_c_quits_and_only_presses_count() {
    assert!(matches!(key_event(Key::Char('c'), KeyKind::Release, true), Some(Event::Quit)));
    assert!(matches!(key_event(Key::Char('c'), KeyKind::Press, false), Some(Event::Input('c'))));
    assert!(key_event(Key::Char('a'), KeyKind::Release, false).is_none());
    assert!(key_event(Key::Enter, KeyKind::Repeat, false).is_none());
    assert!(matches!(key_event(Key::Char('a'), KeyKind::Press, true), Some(Event::Input('a'))));
}

