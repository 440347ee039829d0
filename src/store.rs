//! The message log: every chat message of every group, each under a strictly
//! increasing id, with replay of the most recent messages of one group,
//! oldest first.

use vstd::prelude::*;
use crate::codec::ChatMessage;

verus! {

/// How many messages a newly joined member is sent.
pub const REPLAY_LIMIT: usize = 100;

/// One logged message, as the log's model sees it: id, group, and the
/// message's username and text.
pub type Record = (u64, Seq<char>, (Seq<char>, Seq<char>));

/// The username and text of each message, in order.
pub open spec fn pairs_of(v: Seq<ChatMessage>) -> Seq<(Seq<char>, Seq<char>)> {
    v.map_values(|m: ChatMessage| m.view_pair())
}

/// The messages of group `g` among `records`, in log order.
pub open spec fn history_of(records: Seq<Record>, g: Seq<char>) -> Seq<(Seq<char>, Seq<char>)>
    decreases records.len(),
{
    if records.len() == 0 {
        Seq::empty()
    } else {
        let rest = history_of(records.drop_last(), g);
        if records.last().1 == g {
            rest.push(records.last().2)
        } else {
            rest
        }
    }
}

/// The last `limit` items of `h`, in their order; all of `h` when it is shorter.
pub open spec fn most_recent<T>(h: Seq<T>, limit: nat) -> Seq<T> {
    if h.len() <= limit {
        h
    } else {
        h.subrange(h.len() - limit, h.len() as int)
    }
}

/// Why an append was refused.
#[derive(Debug, PartialEq, Eq)]
pub enum StoreError {
    /// Every id has been handed out.
    IdsExhausted,
}

/// A logged message.
pub struct StoredMessage {
    pub id: u64,
    pub group: String,
    pub message: ChatMessage,
}

impl StoredMessage {
    pub open spec fn record(&self) -> Record {
        (self.id, self.group@, self.message.view_pair())
    }
}

/// An append-only log of chat messages.
pub struct MessageLog {
    entries: Vec<StoredMessage>,
    next_id: u64,
}

impl View for MessageLog {
    type V = Seq<Record>;

    closed spec fn view(&self) -> Seq<Record> {
        self.entries@.map_values(|e: StoredMessage| e.record())
    }
}

impl MessageLog {
    /// Ids increase strictly along the log and stay below the next id.
    pub closed spec fn wf(&self) -> bool {
        &&& forall|i: int, j: int|
            0 <= i < j < self.entries@.len() ==> self.entries@[i].id < self.entries@[j].id
        &&& forall|i: int| 0 <= i < self.entries@.len() ==> self.entries@[i].id < self.next_id
    }

    /// The id the next append will use.
    pub closed spec fn next_id(&self) -> u64 {
        self.next_id
    }

    /// An empty log.
    pub fn new() -> (r: MessageLog)
        ensures
            r.wf(),
            r@ == Seq::<Record>::empty(),
            r.next_id() == 1,
    {
        MessageLog { entries: Vec::new(), next_id: 1 }
    }

    /// An empty log whose first append uses id `next_id`, to go on with the
    /// numbering of a log kept elsewhere.
    pub fn resume(next_id: u64) -> (r: MessageLog)
        ensures
            r.wf(),
            r@ == Seq::<Record>::empty(),
            r.next_id() == next_id,
    {
        MessageLog { entries: Vec::new(), next_id }
    }

    /// Appends `message` to `group` under a fresh id, larger than every id in
    /// the log, and returns that id. Refused, leaving the log as it was, once
    /// the ids are used up.
    pub fn append(&mut self, group: &str, message: ChatMessage) -> (r: Result<u64, StoreError>)
        requires
            old(self).wf(),
        ensures
            final(self).wf(),
            old(self).next_id() == u64::MAX ==> r == Err::<u64, StoreError>(
                StoreError::IdsExhausted,
            ) && final(self)@ == old(self)@,
            old(self).next_id() < u64::MAX ==> {
                &&& r == Ok::<u64, StoreError>(old(self).next_id())
                &&& final(self)@ == old(self)@.push(
                    (old(self).next_id(), group@, message.view_pair()),
                )
                &&& final(self).next_id() == old(self).next_id() + 1
            },
            r matches Ok(id) ==> forall|i: int|
                0 <= i < old(self)@.len() ==> (#[trigger] old(self)@[i]).0 < id,
    {
        if self.next_id == u64::MAX {
            return Err(StoreError::IdsExhausted);
        }
        let id = self.next_id;
        let ghost pair = message.view_pair();
        self.entries.push(StoredMessage { id, group: String::from_str(group), message });
        self.next_id = id + 1;
        proof {
            assert(self@ =~= old(self)@.push((id, group@, pair)));
        }
        Ok(id)
    }

    /// The at most `limit` most recent messages of `group`, oldest first.
    pub fn replay(&self, group: &str, limit: usize) -> (r: Vec<ChatMessage>)
        ensures
            pairs_of(r@) == most_recent(history_of(self@, group@), limit as nat),
    {
        let key = String::from_str(group);
        let mut all: Vec<ChatMessage> = Vec::new();
        let mut i: usize = 0;
        while i < self.entries.len()
            invariant
                i <= self.entries@.len(),
                key@ == group@,
                pairs_of(all@) == history_of(self@.take(i as int), group@),
            decreases self.entries@.len() - i,
        {
            let e = &self.entries[i];
            proof {
                assert(self@.take(i + 1).drop_last() =~= self@.take(i as int));
                assert(self@[i as int] == e.record());
            }
            if e.group == key {
                let ghost prev = all@;
                all.push(e.message.duplicate());
                assert(pairs_of(all@) =~= pairs_of(prev).push(e.message.view_pair()));
            }
            i = i + 1;
        }
        assert(self@.take(self@.len() as int) =~= self@);
        let n = all.len();
        let start: usize = if n > limit {
            n - limit
        } else {
            0
        };
        let mut r: Vec<ChatMessage> = Vec::new();
        let mut j: usize = start;
        while j < n
            invariant
                start <= j <= n,
                n == all@.len(),
                pairs_of(r@) == pairs_of(all@).subrange(start as int, j as int),
            decreases n - j,
        {
            let ghost prev = r@;
            let m = all[j].duplicate();
            r.push(m);
            assert(pairs_of(all@)[j as int] == all@[j as int].view_pair());
            assert(pairs_of(r@) =~= pairs_of(prev).push(m.view_pair()));
            j = j + 1;
            assert(pairs_of(r@) =~= pairs_of(all@).subrange(start as int, j as int));
        }
        assert(pairs_of(all@).subrange(0, n as int) =~= pairs_of(all@));
        r
    }
}

/// Appending records to a log adds the messages of those in group `g` to the
/// end of its history.
proof fn lemma_history_append(records: Seq<Record>, added: Seq<Record>, g: Seq<char>)
    requires
        forall|i: int| 0 <= i < added.len() ==> (#[trigger] added[i]).1 == g,
    ensures
        history_of(records + added, g) == history_of(records, g) + added.map_values(
            |r: Record| r.2,
        ),
    decreases added.len(),
{
    if added.len() > 0 {
        let init = added.drop_last();
        lemma_history_append(records, init, g);
        assert((records + added).drop_last() =~= records + init);
        assert(added.map_values(|r: Record| r.2) =~= init.map_values(|r: Record| r.2).push(
            added.last().2,
        ));
    }
}

/// Replay keeps the newest window in order: once messages `msgs` have been
/// appended to a group that had no history, a replay with `limit` no larger
/// than their number gives exactly the last `limit` of them, oldest first.
pub proof fn lemma_replay_window(
    records: Seq<Record>,
    added: Seq<Record>,
    g: Seq<char>,
    limit: nat,
)
    requires
        history_of(records, g).len() == 0,
        forall|i: int| 0 <= i < added.len() ==> (#[trigger] added[i]).1 == g,
        limit <= added.len(),
    ensures
        most_recent(history_of(records + added, g), limit) == added.map_values(
            |r: Record| r.2,
        ).subrange(added.len() - limit, added.len() as int),
{
    lemma_history_append(records, added, g);
    assert(history_of(records, g) + added.map_values(|r: Record| r.2) =~= added.map_values(
        |r: Record| r.2,
    ));
}

} // verus!
