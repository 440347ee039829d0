//! The wire codec: one chat message is one line `"<username>: <message>"`.
//! Decoding splits on the first `": "`; there is no escaping, so a username
//! that holds the delimiter does not survive a round trip.

use vstd::prelude::*;

verus! {

/// The two characters that separate the username from the message.
pub open spec fn delimiter() -> Seq<char> {
    seq![':', ' ']
}

/// The delimiter starts at position `i` of `s`.
pub open spec fn delimiter_at(s: Seq<char>, i: int) -> bool {
    0 <= i && i + 1 < s.len() && s[i] == ':' && s[i + 1] == ' '
}

/// `s` holds the delimiter somewhere.
pub open spec fn has_delimiter(s: Seq<char>) -> bool {
    exists|i: int| delimiter_at(s, i)
}

/// Position `i` holds the first delimiter of `s`.
pub open spec fn first_delimiter_at(s: Seq<char>, i: int) -> bool {
    &&& delimiter_at(s, i)
    &&& forall|j: int| 0 <= j < i ==> !delimiter_at(s, j)
}

/// The line that carries username `u` and message `m`.
pub open spec fn encode_view(u: Seq<char>, m: Seq<char>) -> Seq<char> {
    u + delimiter() + m
}

/// The username and message that a line carries, if it holds a delimiter:
/// what stands before the first delimiter, and everything after it.
pub open spec fn decode_view(s: Seq<char>) -> Option<(Seq<char>, Seq<char>)> {
    if exists|i: int| first_delimiter_at(s, i) {
        let i = choose|i: int| first_delimiter_at(s, i);
        Some((s.subrange(0, i), s.subrange(i + 2, s.len() as int)))
    } else {
        None
    }
}

/// A string has at most one first delimiter.
pub proof fn lemma_first_delimiter_unique(s: Seq<char>, i: int, j: int)
    requires
        first_delimiter_at(s, i),
        first_delimiter_at(s, j),
    ensures
        i == j,
{
    if i < j {
        assert(!delimiter_at(s, i));
    } else if j < i {
        assert(!delimiter_at(s, j));
    }
}

/// Scanning from `i`, with no delimiter before it and one at `k >= i`, finds a
/// first delimiter.
proof fn lemma_first_delimiter_from(s: Seq<char>, i: int, k: int)
    requires
        0 <= i <= k,
        delimiter_at(s, k),
        forall|j: int| 0 <= j < i ==> !delimiter_at(s, j),
    ensures
        exists|f: int| first_delimiter_at(s, f),
    decreases k - i,
{
    if delimiter_at(s, i) {
        assert(first_delimiter_at(s, i));
    } else {
        lemma_first_delimiter_from(s, i + 1, k);
    }
}

/// A line decodes exactly when it holds a delimiter.
pub proof fn lemma_decodes_iff_delimiter(s: Seq<char>)
    ensures
        decode_view(s) is Some <==> has_delimiter(s),
{
    if has_delimiter(s) {
        let k = choose|k: int| delimiter_at(s, k);
        lemma_first_delimiter_from(s, 0, k);
    }
}

/// Decoding an encoded message gives it back, as long as neither field holds
/// the delimiter.
pub proof fn lemma_round_trip(u: Seq<char>, m: Seq<char>)
    requires
        !has_delimiter(u),
        !has_delimiter(m),
    ensures
        decode_view(encode_view(u, m)) == Some((u, m)),
{
    let s = encode_view(u, m);
    let n = u.len() as int;
    assert(s.subrange(0, n) =~= u);
    assert(s.subrange(n + 2, s.len() as int) =~= m);
    assert(delimiter_at(s, n));
    assert forall|j: int| 0 <= j < n implies !delimiter_at(s, j) by {
        if j + 1 < n {
            assert(!delimiter_at(u, j));
        } else {
            assert(s[j + 1] == ':');
        }
    }
    assert(first_delimiter_at(s, n));
    let i = choose|i: int| first_delimiter_at(s, i);
    lemma_first_delimiter_unique(s, i, n);
}

/// A line that decodes is exactly the encoding of the username and message
/// it decodes to, so relaying the line as received equals re-encoding it.
pub proof fn lemma_decode_then_encode(s: Seq<char>)
    ensures
        decode_view(s) matches Some(p) ==> encode_view(p.0, p.1) == s,
{
    if decode_view(s) is Some {
        let i = choose|i: int| first_delimiter_at(s, i);
        assert(encode_view(s.subrange(0, i), s.subrange(i + 2, s.len() as int)) =~= s);
    }
}

/// One chat message: who wrote it and what they wrote.
#[derive(Debug)]
pub struct ChatMessage {
    pub username: String,
    pub message: String,
}

impl ChatMessage {
    /// The username and the message, as character sequences.
    pub open spec fn view_pair(&self) -> (Seq<char>, Seq<char>) {
        (self.username@, self.message@)
    }

    /// A message with the given fields.
    pub fn new(username: &str, message: &str) -> (r: ChatMessage)
        ensures
            r.username@ == username@,
            r.message@ == message@,
    {
        ChatMessage { username: String::from_str(username), message: String::from_str(message) }
    }

    /// A field-by-field copy.
    pub fn duplicate(&self) -> (r: ChatMessage)
        ensures
            r.view_pair() == self.view_pair(),
    {
        ChatMessage { username: self.username.clone(), message: self.message.clone() }
    }

    /// The line `"<username>: <message>"`.
    pub fn serialize(&self) -> (r: String)
        ensures
            r@ == encode_view(self.username@, self.message@),
    {
        let sep = ": ";
        proof {
            reveal_strlit(": ");
        }
        let mut r = String::from_str(self.username.as_str());
        r.append(sep);
        r.append(self.message.as_str());
        proof {
            assert(sep@ =~= delimiter());
        }
        r
    }

    /// Splits a line on its first `": "`; `None` when it holds none.
    pub fn deserialize(s: &str) -> (r: Option<ChatMessage>)
        ensures
            match r {
                Some(m) => decode_view(s@) == Some(m.view_pair()),
                None => decode_view(s@) is None,
            },
    {
        let n = s.unicode_len();
        let mut i: usize = 0;
        while i < n && i + 1 < n
            invariant
                n == s@.len(),
                i <= n,
                forall|j: int| 0 <= j < i ==> !delimiter_at(s@, j),
            decreases n - i,
        {
            if s.get_char(i) == ':' && s.get_char(i + 1) == ' ' {
                proof {
                    assert(first_delimiter_at(s@, i as int));
                    let k = choose|k: int| first_delimiter_at(s@, k);
                    lemma_first_delimiter_unique(s@, k, i as int);
                }
                let username = String::from_str(s.substring_char(0, i));
                let message = String::from_str(s.substring_char(i + 2, n));
                return Some(ChatMessage { username, message });
            }
            i = i + 1;
        }
        proof {
            assert forall|k: int| !first_delimiter_at(s@, k) by {
                if first_delimiter_at(s@, k) {
                    assert(!delimiter_at(s@, k));
                }
            }
        }
        None
    }
}

impl PartialEq for ChatMessage {
    fn eq(&self, other: &ChatMessage) -> (r: bool) {
        self.username == other.username && self.message == other.message
    }
}

impl vstd::std_specs::cmp::PartialEqSpecImpl for ChatMessage {
    open spec fn obeys_eq_spec() -> bool {
        true
    }

    open spec fn eq_spec(&self, other: &ChatMessage) -> bool {
        self.view_pair() == other.view_pair()
    }
}

} // verus!
