use group_chat::registry::{GroupRegistry, Member};
use tokio::sync::mpsc::{unbounded_channel, UnboundedReceiver};

fn member(id: u64) -> (Member, UnboundedReceiver<String>) {
    let (tx, rx) = unbounded_channel();
    (Member { id, outbound: tx }, rx)
}

#[test]
fn register_appends_in_order() {
    let mut r = GroupRegistry::new();
    let (a, _ra) = member(1);
    let (b, _rb) = member(2);
    let (c, _rc) = member(3);
    r.register("g", a);
    r.register("h", b);
    r.register("g", c);
    assert_eq!(r.members("g"), vec![1, 3]);
    assert_eq!(r.members("h"), vec![2]);
    assert_eq!(r.members("none"), Vec::<u64>::new());
}

#[test]
fn fan_out_reaches_group_only() {
    let mut r = GroupRegistry::new();
    let mut in_g = Vec::new();
    for id in 0..4u64 {
        let (m, rx) = member(id);
        r.register("G", m);
        in_g.push(rx);
    }
    let (h, mut rx_h) = member(10);
    r.register("H", h);
    let report = r.broadcast("G", "alice: hi");
    assert_eq!(report, vec![(0, true), (1, true), (2, true), (3, true)]);
    for rx in in_g.iter_mut() {
        assert_eq!(rx.try_recv().unwrap(), "alice: hi");
        assert!(rx.try_recv().is_err());
    }
    assert!(rx_h.try_recv().is_err());
    assert_eq!(r.members("G"), vec![0, 1, 2, 3]);
}

#[test]
fn empty_group_gets_nothing() {
    let mut r = GroupRegistry::new();
    let (g, mut rx_g) = member(1);
    r.register("G", g);
    let report = r.broadcast("H", "x: y");
    assert!(report.is_empty());
    assert!(rx_g.try_recv().is_err());
    assert_eq!(r.members("G"), vec![1]);
    assert_eq!(r.members("H"), Vec::<u64>::new());
}

#[test]
fn closed_member_is_pruned_lazily() {
    let mut r = GroupRegistry::new();
    let (a, mut ra) = member(1);
    let (b, rb) = member(2);
    let (c, mut rc) = member(3);
    r.register("G", a);
    r.register("G", b);
    r.register("G", c);
    drop(rb);
    assert_eq!(r.members("G"), vec![1, 2, 3]);
    let report = r.broadcast("G", "a: one");
    assert_eq!(report, vec![(1, true), (2, false), (3, true)]);
    assert_eq!(r.members("G"), vec![1, 3]);
    let report = r.broadcast("G", "a: two");
    assert_eq!(report, vec![(1, true), (3, true)]);
    assert_eq!(ra.try_recv().unwrap(), "a: one");
    assert_eq!(ra.try_recv().unwrap(), "a: two");
    assert_eq!(rc.try_recv().unwrap(), "a: one");
    assert_eq!(rc.try_recv().unwrap(), "a: two");
}

#[test]
fn prune_by_outcomes() {
    let mut r = GroupRegistry::new();
    let mut keep = Vec::new();
    for id in 1..=4u64 {
        let (m, rx) = member(id);
        r.register("G", m);
        keep.push(rx);
    }
    r.prune("G", &vec![true, false, true]);
    assert_eq!(r.members("G"), vec![1, 3, 4]);
    r.prune("G", &vec![false, true, false]);
    assert_eq!(r.members("G"), vec![3]);
    r.prune("other", &vec![false]);
    assert_eq!(r.members("G"), vec![3]);
}

#[test]
fn two_joins_to_one_group_both_stay() {
    let mut r = GroupRegistry::new();
    let (a, _ra) = member(7);
    let (b, _rb) = member(8);
    r.register("G", a);
    r.register("G", b);
    assert_eq!(r.members("G"), vec![7, 8]);
    let mut r2 = GroupRegistry::new();
    let (a, _ra2) = member(7);
    let (b, _rb2) = member(8);
    r2.register("G", b);
    r2.register("G", a);
    assert_eq!(r2.members("G"), vec![8, 7]);
}
