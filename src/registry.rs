//! The group registry: for each group name, the outbound channels of the
//! connections that joined it, in order of joining. A broadcast hands a line
//! to every member of one group and drops each member whose channel refused it.

use vstd::prelude::*;

verus! {

#[verifier::external_type_specification]
#[verifier::external_body]
#[verifier::reject_recursive_types(T)]
pub struct ExUnboundedSender<T>(tokio::sync::mpsc::UnboundedSender<T>);

/// Relies on tokio's `UnboundedSender::send`: the line is queued without
/// blocking, and the send is refused once the receiving half is gone. Whether
/// it is refused depends on the other task, so nothing is promised here.
#[verifier::external_body]
fn deliver(outbound: &tokio::sync::mpsc::UnboundedSender<String>, line: String) -> (ok: bool) {
    outbound.send(line).is_ok()
}

/// One registered connection: its number and the sending half of its
/// outbound channel.
pub struct Member {
    pub id: u64,
    pub outbound: tokio::sync::mpsc::UnboundedSender<String>,
}

/// The numbers of a list of members, in order.
pub open spec fn ids_of(members: Seq<Member>) -> Seq<u64> {
    members.map_values(|m: Member| m.id)
}

/// The members of group `g` in the registry's model, none when it has no entry.
pub open spec fn members_in(v: Map<Seq<char>, Seq<u64>>, g: Seq<char>) -> Seq<u64> {
    if v.contains_key(g) {
        v[g]
    } else {
        Seq::empty()
    }
}

/// The model after member `id` joins group `g`: appended to its list, which is
/// created when missing.
pub open spec fn after_register(v: Map<Seq<char>, Seq<u64>>, g: Seq<char>, id: u64) -> Map<
    Seq<char>,
    Seq<u64>,
> {
    v.insert(g, members_in(v, g).push(id))
}

/// The member at position `i` stays after a send with outcomes `ok`: its send
/// succeeded, or no outcome was given for it.
pub open spec fn stays(ok: Seq<bool>, i: int) -> bool {
    i >= ok.len() || ok[i]
}

/// The members of `ids` that stay after a send with outcomes `ok`, in order.
pub open spec fn survivors(ids: Seq<u64>, ok: Seq<bool>) -> Seq<u64>
    decreases ids.len(),
{
    if ids.len() == 0 {
        Seq::empty()
    } else {
        let rest = survivors(ids.drop_last(), ok);
        if stays(ok, ids.len() - 1) {
            rest.push(ids.last())
        } else {
            rest
        }
    }
}

/// The model after the members of group `g` whose sends failed are dropped;
/// unchanged when `g` has no entry.
pub open spec fn after_prune(v: Map<Seq<char>, Seq<u64>>, g: Seq<char>, ok: Seq<bool>) -> Map<
    Seq<char>,
    Seq<u64>,
> {
    if v.contains_key(g) {
        v.insert(g, survivors(v[g], ok))
    } else {
        v
    }
}

/// The outcomes of a fan-out report, in order.
pub open spec fn outcomes_of(report: Seq<(u64, bool)>) -> Seq<bool> {
    report.map_values(|d: (u64, bool)| d.1)
}

/// The members a fan-out report names, in order.
pub open spec fn reached_of(report: Seq<(u64, bool)>) -> Seq<u64> {
    report.map_values(|d: (u64, bool)| d.0)
}

/// The members of `members` whose outcome in `delivered` says they stay, in
/// order.
fn retain_delivered(members: Vec<Member>, delivered: &Vec<bool>) -> (kept: Vec<Member>)
    ensures
        ids_of(kept@) == survivors(ids_of(members@), delivered@),
{
    let ghost all = ids_of(members@);
    let n = members.len();
    let mut rest = members;
    let mut kept: Vec<Member> = Vec::new();
    let mut i: usize = 0;
    while i < n
        invariant
            n == all.len(),
            i <= n,
            rest@.len() == n - i,
            ids_of(rest@) == all.subrange(i as int, n as int),
            ids_of(kept@) == survivors(all.take(i as int), delivered@),
        decreases n - i,
    {
        let ghost before = rest@;
        assert(ids_of(before)[0] == before[0].id);
        assert(all.subrange(i as int, n as int)[0] == all[i as int]);
        let m = rest.remove(0);
        assert(m.id == all[i as int]);
        assert(all.take(i + 1).drop_last() =~= all.take(i as int));
        if i >= delivered.len() || delivered[i] {
            kept.push(m);
            assert(ids_of(kept@) =~= survivors(all.take(i as int), delivered@).push(m.id));
        }
        i = i + 1;
        assert forall|j: int| 0 <= j < rest@.len() implies #[trigger] ids_of(rest@)[j] == all.subrange(
            i as int,
            n as int,
        )[j] by {
            assert(rest@[j] == before[j + 1]);
            assert(ids_of(before)[j + 1] == before[j + 1].id);
        }
        assert(ids_of(rest@) =~= all.subrange(i as int, n as int));
    }
    assert(all.take(n as int) =~= all);
    kept
}

/// The model after the members `ids` join group `g` one after another.
pub open spec fn register_all(v: Map<Seq<char>, Seq<u64>>, g: Seq<char>, ids: Seq<u64>) -> Map<
    Seq<char>,
    Seq<u64>,
>
    decreases ids.len(),
{
    if ids.len() == 0 {
        v
    } else {
        after_register(register_all(v, g, ids.drop_last()), g, ids.last())
    }
}

/// Joins to one group append to its list and touch no other group.
proof fn lemma_register_all(v: Map<Seq<char>, Seq<u64>>, g: Seq<char>, h: Seq<char>, ids: Seq<u64>)
    requires
        g != h,
    ensures
        members_in(register_all(v, g, ids), g) == members_in(v, g) + ids,
        members_in(register_all(v, g, ids), h) == members_in(v, h),
    decreases ids.len(),
{
    if ids.len() > 0 {
        lemma_register_all(v, g, h, ids.drop_last());
        assert(members_in(v, g) + ids =~= (members_in(v, g) + ids.drop_last()).push(ids.last()));
    }
}

/// Each survivor is a member whose outcome says it stays, and each member
/// whose outcome says it stays survives.
proof fn lemma_survivors(ids: Seq<u64>, ok: Seq<bool>)
    ensures
        forall|x: u64|
            #![trigger survivors(ids, ok).contains(x)]
            survivors(ids, ok).contains(x) ==> exists|j: int|
                0 <= j < ids.len() && ids[j] == x && stays(ok, j),
        forall|j: int| 0 <= j < ids.len() && stays(ok, j) ==> survivors(ids, ok).contains(ids[j]),
    decreases ids.len(),
{
    if ids.len() > 0 {
        let init = ids.drop_last();
        let n = ids.len() - 1;
        lemma_survivors(init, ok);
        let rest = survivors(init, ok);
        assert forall|x: u64| #[trigger] survivors(ids, ok).contains(x) implies exists|j: int|
            0 <= j < ids.len() && ids[j] == x && stays(ok, j) by {
            if rest.contains(x) {
                let j = choose|j: int| 0 <= j < init.len() && init[j] == x && stays(ok, j);
                assert(ids[j] == x);
            } else {
                let k = choose|k: int| 0 <= k < survivors(ids, ok).len() && survivors(ids, ok)[k] == x;
                assert(stays(ok, n) && x == ids[n]);
            }
        }
        assert forall|j: int| 0 <= j < ids.len() && stays(ok, j) implies survivors(
            ids,
            ok,
        ).contains(ids[j]) by {
            if j < n {
                assert(init[j] == ids[j]);
                assert(rest.contains(ids[j]));
                let k = choose|k: int| 0 <= k < rest.len() && rest[k] == ids[j];
                assert(survivors(ids, ok)[k] == ids[j]);
            } else {
                assert(survivors(ids, ok)[rest.len() as int] == ids[j]);
            }
        }
    }
}

/// Fan-out reaches the whole group and nobody else: after the members `ids`
/// join group `g` of an empty registry, a broadcast to `g` tries exactly
/// `ids`, in order of joining, and group `h` still has no member afterwards.
pub proof fn lemma_fan_out_reaches_group(
    g: Seq<char>,
    h: Seq<char>,
    ids: Seq<u64>,
    report: Seq<(u64, bool)>,
)
    requires
        g != h,
        reached_of(report) == members_in(register_all(Map::empty(), g, ids), g),
    ensures
        reached_of(report) == ids,
        members_in(register_all(Map::empty(), g, ids), h) == Seq::<u64>::empty(),
        members_in(after_prune(register_all(Map::empty(), g, ids), g, outcomes_of(report)), h)
            == Seq::<u64>::empty(),
{
    let v = Map::<Seq<char>, Seq<u64>>::empty();
    lemma_register_all(v, g, h, ids);
    assert(members_in(v, g) + ids =~= ids);
}

/// Lazy pruning: a member whose send failed is gone from its group, so the
/// next broadcast does not try it, while every member whose send succeeded
/// stays and is tried again. Other groups are untouched. Member numbers are
/// distinct within the group, as each connection joins once.
pub proof fn lemma_failed_member_pruned(
    v: Map<Seq<char>, Seq<u64>>,
    g: Seq<char>,
    ok: Seq<bool>,
    k: int,
)
    requires
        members_in(v, g).no_duplicates(),
        0 <= k < members_in(v, g).len(),
        k < ok.len(),
        !ok[k],
    ensures
        !members_in(after_prune(v, g, ok), g).contains(members_in(v, g)[k]),
        forall|j: int|
            0 <= j < members_in(v, g).len() && stays(ok, j) ==> members_in(
                after_prune(v, g, ok),
                g,
            ).contains(#[trigger] members_in(v, g)[j]),
        forall|h: Seq<char>| h != g ==> members_in(after_prune(v, g, ok), h) == members_in(v, h),
{
    let ids = members_in(v, g);
    lemma_survivors(ids, ok);
    if survivors(ids, ok).contains(ids[k]) {
        let j = choose|j: int| 0 <= j < ids.len() && ids[j] == ids[k] && stays(ok, j);
        assert(j != k);
    }
}

/// Joins to one group never evict each other: after `a` and then `b` join
/// group `g`, its list is the earlier members followed by `a` and `b`.
pub proof fn lemma_joins_keep_each_other(
    v: Map<Seq<char>, Seq<u64>>,
    g: Seq<char>,
    a: u64,
    b: u64,
)
    ensures
        members_in(after_register(after_register(v, g, a), g, b), g) == members_in(v, g).push(
            a,
        ).push(b),
        members_in(after_register(after_register(v, g, a), g, b), g).contains(a),
        members_in(after_register(after_register(v, g, a), g, b), g).contains(b),
        forall|h: Seq<char>|
            h != g ==> members_in(after_register(after_register(v, g, a), g, b), h) == members_in(
                v,
                h,
            ),
{
    let r = members_in(after_register(after_register(v, g, a), g, b), g);
    assert(r[r.len() - 2] == a);
    assert(r[r.len() - 1] == b);
}

struct GroupEntry {
    name: String,
    members: Vec<Member>,
}

/// The mapping from group name to the members that joined it.
pub struct GroupRegistry {
    groups: Vec<GroupEntry>,
    model: Ghost<Map<Seq<char>, Seq<u64>>>,
}

impl View for GroupRegistry {
    type V = Map<Seq<char>, Seq<u64>>;

    closed spec fn view(&self) -> Map<Seq<char>, Seq<u64>> {
        self.model@
    }
}

impl GroupRegistry {
    /// Each entry stands in the model under its name, the model holds no other
    /// name, and no name has two entries.
    pub closed spec fn wf(&self) -> bool {
        &&& forall|i: int|
            #![trigger self.groups@[i]]
            0 <= i < self.groups@.len() ==> {
                &&& self.model@.contains_key(self.groups@[i].name@)
                &&& self.model@[self.groups@[i].name@] == ids_of(self.groups@[i].members@)
            }
        &&& forall|g: Seq<char>|
            #![trigger self.model@.contains_key(g)]
            self.model@.contains_key(g) ==> exists|i: int|
                0 <= i < self.groups@.len() && self.groups@[i].name@ == g
        &&& forall|i: int, j: int|
            0 <= i < self.groups@.len() && 0 <= j < self.groups@.len() && i != j
                ==> self.groups@[i].name@ != self.groups@[j].name@
    }

    /// A registry with no group.
    pub fn new() -> (r: GroupRegistry)
        ensures
            r.wf(),
            r@ == Map::<Seq<char>, Seq<u64>>::empty(),
    {
        GroupRegistry { groups: Vec::new(), model: Ghost(Map::empty()) }
    }

    /// The position of the entry named `key`, if there is one.
    fn find(&self, key: &String) -> (r: Option<usize>)
        requires
            self.wf(),
        ensures
            match r {
                Some(k) => k < self.groups@.len() && self.groups@[k as int].name@ == key@,
                None => !self@.contains_key(key@),
            },
    {
        let mut i: usize = 0;
        while i < self.groups.len()
            invariant
                self.wf(),
                i <= self.groups@.len(),
                forall|j: int| 0 <= j < i ==> self.groups@[j].name@ != key@,
            decreases self.groups@.len() - i,
        {
            if self.groups[i].name == *key {
                return Some(i);
            }
            i = i + 1;
        }
        None
    }

    /// Appends `member` to the list of `group`, creating the list when the
    /// group has none. Earlier members of every group stay as they were.
    pub fn register(&mut self, group: &str, member: Member)
        requires
            old(self).wf(),
        ensures
            final(self).wf(),
            final(self)@ == after_register(old(self)@, group@, member.id),
    {
        let key = String::from_str(group);
        let id = member.id;
        match self.find(&key) {
            Some(k) => {
                let mut entry = self.groups.remove(k);
                let ghost before = ids_of(entry.members@);
                entry.members.push(member);
                assert(ids_of(entry.members@) =~= before.push(id));
                self.groups.insert(k, entry);
                self.model = Ghost(after_register(self.model@, group@, id));
                proof {
                    assert(self.groups@ =~= old(self).groups@.update(k as int, self.groups@[k as int]));
                    self.lemma_wf_after_update(old(self).groups@, k as int);
                }
            },
            None => {
                let ghost old_groups = self.groups@;
                let mut members: Vec<Member> = Vec::new();
                members.push(member);
                assert(ids_of(members@) =~= seq![id]);
                self.groups.push(GroupEntry { name: key, members });
                self.model = Ghost(after_register(self.model@, group@, id));
                proof {
                    let n = old_groups.len() as int;
                    assert forall|i: int| 0 <= i < n implies self.groups@[i] == old_groups[i] by {}
                    assert forall|g: Seq<char>| #[trigger] self.model@.contains_key(g) implies exists|
                        i: int,
                    | 0 <= i < self.groups@.len() && self.groups@[i].name@ == g by {
                        if g == group@ {
                            assert(self.groups@[n].name@ == g);
                        } else {
                            assert(old(self).model@.contains_key(g));
                            let i = choose|i: int| 0 <= i < n && old_groups[i].name@ == g;
                            assert(self.groups@[i].name@ == g);
                        }
                    }
                }
            },
        }
    }

    /// The members of `group` in order of joining; none when it has no entry.
    pub fn members(&self, group: &str) -> (r: Vec<u64>)
        requires
            self.wf(),
        ensures
            r@ == members_in(self@, group@),
    {
        let key = String::from_str(group);
        let mut r: Vec<u64> = Vec::new();
        match self.find(&key) {
            Some(k) => {
                let members = &self.groups[k].members;
                let mut i: usize = 0;
                while i < members.len()
                    invariant
                        i <= members@.len(),
                        r@ == ids_of(members@).take(i as int),
                    decreases members@.len() - i,
                {
                    r.push(members[i].id);
                    i = i + 1;
                    assert(r@ =~= ids_of(members@).take(i as int));
                }
                assert(r@ =~= ids_of(members@));
            },
            None => {},
        }
        r
    }

    /// Drops from `group` each member whose outcome in `delivered` (by
    /// position) is `false`; the others keep their order. Nothing changes when
    /// the group has no entry.
    pub fn prune(&mut self, group: &str, delivered: &Vec<bool>)
        requires
            old(self).wf(),
        ensures
            final(self).wf(),
            final(self)@ == after_prune(old(self)@, group@, delivered@),
    {
        let key = String::from_str(group);
        match self.find(&key) {
            Some(k) => {
                let entry = self.groups.remove(k);
                let GroupEntry { name, members } = entry;
                let kept = retain_delivered(members, delivered);
                self.groups.insert(k, GroupEntry { name, members: kept });
                self.model = Ghost(after_prune(self.model@, group@, delivered@));
                proof {
                    assert(self.groups@ =~= old(self).groups@.update(k as int, self.groups@[k as int]));
                    self.lemma_wf_after_update(old(self).groups@, k as int);
                }
            },
            None => {},
        }
    }

    /// Hands `line` to every member of `group`, in order of joining, then drops
    /// each member whose channel refused it. The report names each member
    /// tried, in order, with the outcome of its send. A group with no entry is
    /// left alone and gets an empty report.
    pub fn broadcast(&mut self, group: &str, line: &str) -> (report: Vec<(u64, bool)>)
        requires
            old(self).wf(),
        ensures
            final(self).wf(),
            reached_of(report@) == members_in(old(self)@, group@),
            final(self)@ == after_prune(old(self)@, group@, outcomes_of(report@)),
    {
        let key = String::from_str(group);
        let mut report: Vec<(u64, bool)> = Vec::new();
        match self.find(&key) {
            Some(k) => {
                let mut delivered: Vec<bool> = Vec::new();
                let members = &self.groups[k].members;
                let mut i: usize = 0;
                while i < members.len()
                    invariant
                        i <= members@.len(),
                        report@.len() == i,
                        reached_of(report@) == ids_of(members@).take(i as int),
                        delivered@ == outcomes_of(report@),
                    decreases members@.len() - i,
                {
                    let ok = deliver(&members[i].outbound, String::from_str(line));
                    let ghost prev = report@;
                    report.push((members[i].id, ok));
                    delivered.push(ok);
                    proof {
                        assert(ids_of(members@)[i as int] == members@[i as int].id);
                        assert forall|j: int| 0 <= j <= i implies #[trigger] reached_of(report@)[j]
                            == ids_of(members@)[j] by {
                            if j < i {
                                assert(report@[j] == prev[j]);
                                assert(reached_of(prev)[j] == ids_of(members@).take(i as int)[j]);
                            }
                        }
                    }
                    i = i + 1;
                    assert(reached_of(report@) =~= ids_of(members@).take(i as int));
                    assert(delivered@ =~= outcomes_of(report@));
                }
                assert(reached_of(report@) =~= ids_of(members@));
                self.prune(group, &delivered);
            },
            None => {},
        }
        report
    }

    /// After entry `k` of `old_groups` was replaced and the model updated to
    /// match, the registry is well formed again.
    proof fn lemma_wf_after_update(&self, old_groups: Seq<GroupEntry>, k: int)
        requires
            0 <= k < old_groups.len(),
            self.groups@ == old_groups.update(k, self.groups@[k]),
            self.groups@[k].name@ == old_groups[k].name@,
            forall|i: int|
                #![trigger old_groups[i]]
                0 <= i < old_groups.len() && i != k ==> {
                    &&& self.model@.contains_key(old_groups[i].name@)
                    &&& self.model@[old_groups[i].name@] == ids_of(old_groups[i].members@)
                },
            self.model@.contains_key(self.groups@[k].name@),
            self.model@[self.groups@[k].name@] == ids_of(self.groups@[k].members@),
            forall|g: Seq<char>|
                #![trigger self.model@.contains_key(g)]
                self.model@.contains_key(g) ==> exists|i: int|
                    0 <= i < old_groups.len() && old_groups[i].name@ == g,
            forall|i: int, j: int|
                0 <= i < old_groups.len() && 0 <= j < old_groups.len() && i != j
                    ==> old_groups[i].name@ != old_groups[j].name@,
        ensures
            self.wf(),
    {
        assert forall|i: int|
            #![trigger self.groups@[i]]
            0 <= i < self.groups@.len() implies {
                &&& self.model@.contains_key(self.groups@[i].name@)
                &&& self.model@[self.groups@[i].name@] == ids_of(self.groups@[i].members@)
            } by {
            if i != k {
                assert(self.groups@[i] == old_groups[i]);
            }
        }
        assert forall|g: Seq<char>| #[trigger] self.model@.contains_key(g) implies exists|i: int|
            0 <= i < self.groups@.len() && self.groups@[i].name@ == g by {
            let i = choose|i: int| 0 <= i < old_groups.len() && old_groups[i].name@ == g;
            assert(self.groups@[i].name@ == g);
        }
    }
}

} // verus!
