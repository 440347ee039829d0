//! The server side of a connection: the actor that owns one accepted
//! transport, its group-join handshake, and the numbering of accepted
//! connections.

use vstd::prelude::*;
use crate::codec::{ChatMessage, decode_view, encode_view};

verus! {

/// Where a connection is in its life.
#[derive(Debug, PartialEq, Eq)]
pub enum Phase {
    /// Accepted; the first frame, naming the group, has not come yet.
    AwaitingGroup,
    /// The group is set; frames are chat lines.
    Joined,
    /// The transport failed or closed; nothing more is done.
    Closed,
}

/// What the actor does with one inbound frame.
#[derive(Debug)]
pub enum FrameAction {
    /// The frame named the group, which is now set; nothing is sent back.
    Join(String),
    /// A chat line that decodes: hand it, with its message, to the consumer.
    Deliver { line: String, message: ChatMessage },
    /// A chat line with no delimiter: dropped.
    Drop,
    /// The connection is closed: the frame is ignored.
    Ignore,
}

/// The state of one connection actor.
pub struct Connection {
    id: u64,
    group: Option<String>,
    closed: bool,
}

impl Connection {
    pub closed spec fn spec_id(&self) -> u64 {
        self.id
    }

    /// The group, once the first frame has set it.
    pub closed spec fn spec_group(&self) -> Option<Seq<char>> {
        match self.group {
            Some(g) => Some(g@),
            None => None,
        }
    }

    pub closed spec fn spec_closed(&self) -> bool {
        self.closed
    }

    pub open spec fn spec_phase(&self) -> Phase {
        if self.spec_closed() {
            Phase::Closed
        } else if self.spec_group() is Some {
            Phase::Joined
        } else {
            Phase::AwaitingGroup
        }
    }

    /// A freshly accepted connection with number `id`, waiting for its group.
    pub fn new(id: u64) -> (r: Connection)
        ensures
            r.spec_id() == id,
            r.spec_group() is None,
            !r.spec_closed(),
    {
        Connection { id, group: None, closed: false }
    }

    /// The connection's number.
    pub fn id(&self) -> (r: u64)
        ensures
            r == self.spec_id(),
    {
        self.id
    }

    /// The group, once set.
    pub fn group(&self) -> (r: Option<String>)
        ensures
            match r {
                Some(g) => self.spec_group() == Some(g@),
                None => self.spec_group() is None,
            },
    {
        match &self.group {
            Some(g) => Some(g.clone()),
            None => None,
        }
    }

    /// Where the connection is in its life.
    pub fn phase(&self) -> (r: Phase)
        ensures
            r == self.spec_phase(),
    {
        if self.closed {
            Phase::Closed
        } else if self.group.is_some() {
            Phase::Joined
        } else {
            Phase::AwaitingGroup
        }
    }

    /// Handles one inbound frame. The first frame of an open connection is
    /// taken whole as the group name; the group is then never changed. Later
    /// frames are decoded: a line that decodes is delivered unchanged with its
    /// message, any other is dropped. A closed connection ignores frames.
    pub fn on_frame(&mut self, text: String) -> (r: FrameAction)
        ensures
            final(self).spec_id() == old(self).spec_id(),
            final(self).spec_closed() == old(self).spec_closed(),
            old(self).spec_closed() ==> r is Ignore && final(self).spec_group() == old(self).spec_group(),
            !old(self).spec_closed() && old(self).spec_group() is None ==> {
                &&& final(self).spec_group() == Some(text@)
                &&& (r matches FrameAction::Join(g) && g@ == text@)
            },
            !old(self).spec_closed() && old(self).spec_group() is Some ==> {
                &&& final(self).spec_group() == old(self).spec_group()
                &&& decode_view(text@) is None ==> r is Drop
                &&& decode_view(text@) is Some ==> (r matches FrameAction::Deliver { line, message }
                    && line@ == text@ && decode_view(text@) == Some(message.view_pair()))
            },
    {
        if self.closed {
            return FrameAction::Ignore;
        }
        if self.group.is_none() {
            let g = text.clone();
            self.group = Some(text);
            return FrameAction::Join(g);
        }
        match ChatMessage::deserialize(text.as_str()) {
            Some(message) => FrameAction::Deliver { line: text, message },
            None => FrameAction::Drop,
        }
    }

    /// The transport failed to read or write, or was closed: the connection
    /// ends for good.
    pub fn close(&mut self)
        ensures
            final(self).spec_closed(),
            final(self).spec_id() == old(self).spec_id(),
            final(self).spec_group() == old(self).spec_group(),
    {
        self.closed = true;
    }
}

/// The frames that replay `history` to a newly joined member, oldest first:
/// each message encoded as a line.
pub fn replay_frames(history: &Vec<ChatMessage>) -> (r: Vec<String>)
    ensures
        r@.len() == history@.len(),
        forall|i: int|
            0 <= i < r@.len() ==> (#[trigger] r@[i])@ == encode_view(
                history@[i].username@,
                history@[i].message@,
            ),
{
    let mut r: Vec<String> = Vec::new();
    let mut i: usize = 0;
    while i < history.len()
        invariant
            i <= history@.len(),
            r@.len() == i,
            forall|j: int|
                0 <= j < i ==> (#[trigger] r@[j])@ == encode_view(
                    history@[j].username@,
                    history@[j].message@,
                ),
        decreases history@.len() - i,
    {
        r.push(history[i].serialize());
        i = i + 1;
    }
    r
}

/// Hands out connection numbers in order of acceptance.
pub struct Dispatcher {
    next_id: u64,
}

impl Dispatcher {
    pub closed spec fn spec_next_id(&self) -> u64 {
        self.next_id
    }

    /// A dispatcher that has accepted nothing yet.
    pub fn new() -> (r: Dispatcher)
        ensures
            r.spec_next_id() == 0,
    {
        Dispatcher { next_id: 0 }
    }

    /// Starts the actor for a newly accepted transport, under a number that
    /// no earlier connection had; `None` once the numbers are used up.
    pub fn accept(&mut self) -> (r: Option<Connection>)
        ensures
            old(self).spec_next_id() < u64::MAX ==> {
                &&& (r matches Some(c) && c.spec_id() == old(self).spec_next_id()
                    && c.spec_group() is None && !c.spec_closed())
                &&& final(self).spec_next_id() == old(self).spec_next_id() + 1
            },
            old(self).spec_next_id() == u64::MAX ==> r is None && final(self).spec_next_id()
                == u64::MAX,
    {
        if self.next_id == u64::MAX {
            return None;
        }
        let c = Connection::new(self.next_id);
        self.next_id = self.next_id + 1;
        Some(c)
    }
}

} // verus!
