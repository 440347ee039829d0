use group_chat::client::Event;
use group_chat::state::State;

#[test]
fn counts_c_and_collects_others() {
    let mut s = State::new();
    s.update(&Event::Input('a'));
    s.update(&Event::Input('c'));
    s.update(&Event::Input('b'));
    s.update(&Event::Input('c'));
    s.update(&Event::Refresh);
    s.update(&Event::Quit);
    s.update(&Event::Resize { width: 1, height: 2 });
    assert_eq!(s.counter, 2);
    assert_eq!(s.text_area, "ab");
}

#[test]
fn counter_wraps() {
    let mut s = State::default();
    s.counter = u32::MAX;
    s.update(&Event::Input('c'));
    assert_eq!(s.counter, 0);
}
