//! The client session: the local model (input buffer and received history),
//! the reaction to each local or inbound event, and the reconnect policy with
//! its group handshake.

use vstd::prelude::*;
use crate::codec::{ChatMessage, decode_view, encode_view};

verus! {

/// How long the client waits between two connection attempts.
pub const RECONNECT_DELAY_MS: u64 = 1000;

/// Relies on `String::push`: the character is appended at the end.
#[verifier::external_body]
pub(crate) fn push_char(s: &mut String, c: char)
    ensures
        final(s)@ == old(s)@.push(c),
{
    s.push(c)
}

/// Relies on `String::pop`: the last character is removed and returned;
/// `None`, with the string left alone, when it is empty.
#[verifier::external_body]
fn pop_char(s: &mut String) -> (r: Option<char>)
    ensures
        old(s)@.len() == 0 ==> r is None && final(s)@ == old(s)@,
        old(s)@.len() > 0 ==> r == Some(old(s)@.last()) && final(s)@ == old(s)@.drop_last(),
{
    s.pop()
}

/// A local or inbound event of the client.
#[derive(Debug)]
pub enum Event {
    /// A typed character.
    Input(char),
    Refresh,
    Quit,
    /// The connection was lost; the session starts over.
    Restart,
    Resize { width: u16, height: u16 },
    /// Submit the input buffer as a message.
    Send,
    Backspace,
    /// A message that came from the server.
    ReciveMessage(ChatMessage),
}

/// A key as the terminal reports it.
#[derive(Debug, Clone, Copy, PartialEq, Eq)]
pub enum Key {
    Esc,
    Enter,
    Backspace,
    Char(char),
    /// Any other key.
    Other,
}

/// Whether a key went down, came up, or repeats while held.
#[derive(Debug, Clone, Copy, PartialEq, Eq)]
pub enum KeyKind {
    Press,
    Release,
    Repeat,
}

/// The event a pressed key stands for: Esc quits, Enter sends, Backspace
/// erases, a character is typed; other keys mean nothing.
pub fn handle_key(key: Key) -> (r: Option<Event>)
    ensures
        key is Esc ==> r matches Some(Event::Quit),
        key is Enter ==> r matches Some(Event::Send),
        key is Backspace ==> r matches Some(Event::Backspace),
        key matches Key::Char(c) ==> (r matches Some(Event::Input(d)) && d == c),
        key is Other ==> r is None,
{
    match key {
        Key::Esc => Some(Event::Quit),
        Key::Enter => Some(Event::Send),
        Key::Backspace => Some(Event::Backspace),
        Key::Char(c) => Some(Event::Input(c)),
        Key::Other => None,
    }
}

/// The event a key event stands for. Control-C, with no other modifier,
/// quits whatever its kind; otherwise only presses count, as `handle_key`
/// says.
pub fn key_event(key: Key, kind: KeyKind, control_only: bool) -> (r: Option<Event>)
    ensures
        control_only && key == Key::Char('c') ==> (r matches Some(Event::Quit)),
        !(control_only && key == Key::Char('c')) && kind != KeyKind::Press ==> r is None,
        !(control_only && key == Key::Char('c')) && kind == KeyKind::Press ==> {
            &&& key is Esc ==> (r matches Some(Event::Quit))
            &&& key is Enter ==> (r matches Some(Event::Send))
            &&& key is Backspace ==> (r matches Some(Event::Backspace))
            &&& key matches Key::Char(c) ==> (r matches Some(Event::Input(d)) && d == c)
            &&& key is Other ==> r is None
        },
{
    if control_only {
        if let Key::Char(c) = key {
            if c == 'c' {
                return Some(Event::Quit);
            }
        }
    }
    match kind {
        KeyKind::Press => handle_key(key),
        _ => None,
    }
}

/// What the client holds to draw its screen.
pub struct Model {
    pub url: String,
    pub username: String,
    pub group: String,
    /// The input buffer.
    pub text_area: String,
    /// The messages received from the server, in order of arrival.
    pub messages: Vec<ChatMessage>,
}

impl Default for Model {
    fn default() -> (r: Model)
        ensures
            r.url@.len() == 0,
            r.username@.len() == 0,
            r.group@.len() == 0,
            r.text_area@.len() == 0,
            r.messages@.len() == 0,
    {
        Model {
            url: String::new(),
            username: String::new(),
            group: String::new(),
            text_area: String::new(),
            messages: Vec::new(),
        }
    }
}

/// A request to the screen.
#[derive(Debug)]
pub enum TUIMessage {
    Resize { width: u16, height: u16 },
}

/// What the surrounding loop is to do after an event.
#[derive(Debug)]
pub enum ClientAction {
    /// Nothing beyond drawing the new state.
    Idle,
    /// Send this frame to the server.
    Transmit(String),
    /// Resize the screen.
    Resize { width: u16, height: u16 },
    /// Leave the program.
    Quit,
    /// Drop the connection and connect again.
    Restart,
}

/// The outcome of one connection attempt.
#[derive(Debug)]
pub enum ConnectStep {
    /// The attempt failed: wait this long, then try again.
    Retry { delay_ms: u64 },
    /// Connected: send this frame, the group name, before anything else.
    Handshake(String),
}

/// The number of attempts counted after one more, which stays at the
/// largest value once it is reached.
pub open spec fn next_attempts(a: u64) -> u64 {
    if a < u64::MAX {
        (a + 1) as u64
    } else {
        a
    }
}

/// How long the client waits after an attempt with this outcome.
pub open spec fn delay_after(connected: bool) -> nat {
    if connected {
        0
    } else {
        RECONNECT_DELAY_MS as nat
    }
}

/// The attempts counted after a run of attempts with outcomes `outcomes`,
/// starting from `a`.
pub open spec fn attempts_after(a: u64, outcomes: Seq<bool>) -> u64
    decreases outcomes.len(),
{
    if outcomes.len() == 0 {
        a
    } else {
        next_attempts(attempts_after(a, outcomes.drop_last()))
    }
}

/// The total wait over a run of attempts with outcomes `outcomes`.
pub open spec fn waited_after(outcomes: Seq<bool>) -> nat
    decreases outcomes.len(),
{
    if outcomes.len() == 0 {
        0
    } else {
        waited_after(outcomes.drop_last()) + delay_after(outcomes.last())
    }
}

/// `k` failed attempts followed by one that connects.
pub open spec fn down_then_up(k: nat) -> Seq<bool> {
    Seq::new(k, |i: int| false).push(true)
}

/// Reconnecting: when the server refuses `k` attempts and accepts the next,
/// a fresh session counts `k + 1` attempts, has waited `k` delays, and only
/// the last attempt connects.
pub proof fn lemma_reconnect(k: nat)
    requires
        k < u64::MAX,
    ensures
        attempts_after(0, down_then_up(k)) == k + 1,
        waited_after(down_then_up(k)) == k * RECONNECT_DELAY_MS,
        down_then_up(k).last(),
        forall|i: int| 0 <= i < k ==> !(#[trigger] down_then_up(k)[i]),
{
    lemma_failures(k);
    assert(down_then_up(k).drop_last() =~= Seq::new(k, |i: int| false));
}

/// A run of `k` failed attempts from a fresh session.
proof fn lemma_failures(k: nat)
    requires
        k < u64::MAX,
    ensures
        attempts_after(0, Seq::new(k, |i: int| false)) == k,
        waited_after(Seq::new(k, |i: int| false)) == k * RECONNECT_DELAY_MS,
    decreases k,
{
    if k > 0 {
        lemma_failures((k - 1) as nat);
        assert(Seq::new(k, |i: int| false).drop_last() =~= Seq::new((k - 1) as nat, |i: int| false));
        assert(k * RECONNECT_DELAY_MS == (k - 1) * RECONNECT_DELAY_MS + RECONNECT_DELAY_MS) by (nonlinear_arith);
    }
}

/// A client session: the configured endpoint, name and group, the model it
/// draws, and the state of its connection.
pub struct Application {
    pub url: String,
    pub user_name: String,
    pub group: String,
    pub model: Model,
    /// Connection attempts since the session last started.
    pub attempts: u64,
    /// A connection is up and the group was announced on it.
    pub active: bool,
}

impl Application {
    /// A session for `user_name` in `group` at `ws_url`, not yet connected,
    /// with an empty input buffer and no message.
    pub fn new(ws_url: &str, user_name: &str, group: &str) -> (r: Application)
        ensures
            r.url@ == ws_url@,
            r.user_name@ == user_name@,
            r.group@ == group@,
            r.model.url@ == ws_url@,
            r.model.username@ == user_name@,
            r.model.group@ == group@,
            r.model.text_area@.len() == 0,
            r.model.messages@.len() == 0,
            r.attempts == 0,
            !r.active,
    {
        Application {
            url: String::from_str(ws_url),
            user_name: String::from_str(user_name),
            group: String::from_str(group),
            model: Model {
                url: String::from_str(ws_url),
                username: String::from_str(user_name),
                group: String::from_str(group),
                text_area: String::new(),
                messages: Vec::new(),
            },
            attempts: 0,
            active: false,
        }
    }

    /// Records the outcome of one connection attempt. A failure asks for a
    /// retry after the fixed delay; there is no cap on attempts. A success
    /// makes the session active and asks for the group name to be sent as
    /// the first frame.
    pub fn connect_result(&mut self, connected: bool) -> (r: ConnectStep)
        ensures
            final(self).attempts == next_attempts(old(self).attempts),
            final(self).active == connected,
            final(self).url == old(self).url,
            final(self).user_name == old(self).user_name,
            final(self).group == old(self).group,
            final(self).model == old(self).model,
            connected ==> (r matches ConnectStep::Handshake(g) && g@ == old(self).group@),
            !connected ==> (r matches ConnectStep::Retry { delay_ms } && delay_ms
                == RECONNECT_DELAY_MS),
    {
        if self.attempts < u64::MAX {
            self.attempts = self.attempts + 1;
        }
        self.active = connected;
        if connected {
            ConnectStep::Handshake(self.group.clone())
        } else {
            ConnectStep::Retry { delay_ms: RECONNECT_DELAY_MS }
        }
    }

    /// Starts the session over after a lost connection. The received history
    /// and the input buffer are kept.
    pub fn restart(&mut self)
        ensures
            !final(self).active,
            final(self).attempts == 0,
            final(self).url == old(self).url,
            final(self).user_name == old(self).user_name,
            final(self).group == old(self).group,
            final(self).model == old(self).model,
    {
        self.active = false;
        self.attempts = 0;
    }

    /// Reacts to one local event. A character goes to the end of the input
    /// buffer and Backspace removes the last one. Send, on an active session
    /// with a non-empty buffer, empties the buffer and asks for the message
    /// `"<user_name>: <buffer>"` to be sent; otherwise it does nothing. A
    /// received message goes to the end of the history; the client never
    /// adds its own messages there. Quit, Restart and Resize are passed on.
    pub fn update(&mut self, event: Event) -> (r: ClientAction)
        ensures
            final(self).url == old(self).url,
            final(self).user_name == old(self).user_name,
            final(self).group == old(self).group,
            final(self).attempts == old(self).attempts,
            final(self).active == old(self).active,
            final(self).model.url == old(self).model.url,
            final(self).model.username == old(self).model.username,
            final(self).model.group == old(self).model.group,
            match event {
                Event::Input(c) => {
                    &&& r is Idle
                    &&& final(self).model.text_area@ == old(self).model.text_area@.push(c)
                    &&& final(self).model.messages@ == old(self).model.messages@
                },
                Event::Backspace => {
                    &&& r is Idle
                    &&& old(self).model.text_area@.len() > 0 ==> final(self).model.text_area@
                        == old(self).model.text_area@.drop_last()
                    &&& old(self).model.text_area@.len() == 0 ==> final(self).model.text_area@.len() == 0
                    &&& final(self).model.messages@ == old(self).model.messages@
                },
                Event::Send => {
                    &&& final(self).model.messages@ == old(self).model.messages@
                    &&& if old(self).active && old(self).model.text_area@.len() > 0 {
                        &&& (r matches ClientAction::Transmit(line) && line@ == encode_view(
                            old(self).user_name@,
                            old(self).model.text_area@,
                        ))
                        &&& final(self).model.text_area@.len() == 0
                    } else {
                        &&& r is Idle
                        &&& final(self).model.text_area@ == old(self).model.text_area@
                    }
                },
                Event::ReciveMessage(m) => {
                    &&& r is Idle
                    &&& final(self).model.messages@ == old(self).model.messages@.push(m)
                    &&& final(self).model.text_area@ == old(self).model.text_area@
                },
                Event::Resize { width, height } => {
                    &&& (r matches ClientAction::Resize { width: w, height: h } && w == width && h
                        == height)
                    &&& final(self).model.text_area@ == old(self).model.text_area@
                    &&& final(self).model.messages@ == old(self).model.messages@
                },
                Event::Quit => {
                    &&& r is Quit
                    &&& final(self).model.text_area@ == old(self).model.text_area@
                    &&& final(self).model.messages@ == old(self).model.messages@
                },
                Event::Restart => {
                    &&& r is Restart
                    &&& final(self).model.text_area@ == old(self).model.text_area@
                    &&& final(self).model.messages@ == old(self).model.messages@
                },
                Event::Refresh => {
                    &&& r is Idle
                    &&& final(self).model.text_area@ == old(self).model.text_area@
                    &&& final(self).model.messages@ == old(self).model.messages@
                },
            },
    {
        match event {
            Event::Input(c) => {
                push_char(&mut self.model.text_area, c);
                ClientAction::Idle
            },
            Event::Backspace => {
                let _ = pop_char(&mut self.model.text_area);
                ClientAction::Idle
            },
            Event::Send => {
                if !self.active || self.model.text_area.as_str().is_empty() {
                    return ClientAction::Idle;
                }
                let msg = ChatMessage {
                    username: self.user_name.clone(),
                    message: self.model.text_area.clone(),
                };
                self.model.text_area = String::new();
                ClientAction::Transmit(msg.serialize())
            },
            Event::ReciveMessage(m) => {
                self.model.messages.push(m);
                ClientAction::Idle
            },
            Event::Resize { width, height } => ClientAction::Resize { width, height },
            Event::Quit => ClientAction::Quit,
            Event::Restart => ClientAction::Restart,
            Event::Refresh => ClientAction::Idle,
        }
    }

    /// Reacts to one attempt to read from the server. A failed read ends the
    /// session: it becomes inactive and asks for a restart. A frame that
    /// decodes goes to the end of the history; any other is skipped.
    pub fn receive(&mut self, frame: Option<String>) -> (r: ClientAction)
        ensures
            final(self).url == old(self).url,
            final(self).user_name == old(self).user_name,
            final(self).group == old(self).group,
            final(self).attempts == old(self).attempts,
            final(self).model.url == old(self).model.url,
            final(self).model.username == old(self).model.username,
            final(self).model.group == old(self).model.group,
            final(self).model.text_area == old(self).model.text_area,
            match frame {
                None => {
                    &&& r is Restart
                    &&& !final(self).active
                    &&& final(self).model.messages@ == old(self).model.messages@
                },
                Some(line) => {
                    &&& r is Idle
                    &&& final(self).active == old(self).active
                    &&& match decode_view(line@) {
                        Some(pair) => {
                            &&& final(self).model.messages@.len() == old(self).model.messages@.len() + 1
                            &&& final(self).model.messages@.drop_last() == old(self).model.messages@
                            &&& final(self).model.messages@.last().view_pair() == pair
                        },
                        None => final(self).model.messages@ == old(self).model.messages@,
                    }
                },
            },
    {
        match frame {
            None => {
                self.active = false;
                ClientAction::Restart
            },
            Some(line) => {
                match ChatMessage::deserialize(line.as_str()) {
                    Some(m) => {
                        self.model.messages.push(m);
                        assert(self.model.messages@.drop_last() =~= old(self).model.messages@);
                    },
                    None => {},
                }
                ClientAction::Idle
            },
        }
    }
}

} // verus!
