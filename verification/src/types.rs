//! Messages, senders and policies, as far as the channel rules read them.

use vstd::prelude::*;

use crate::clock::UtcTime;
use crate::json;
use crate::json::{Json, JsonTree};
use crate::text;

verus! {

/// The identity of an agent: the 128 bits of its UUID.
#[derive(Debug, Clone, Copy, PartialEq, Eq, Hash, Structural)]
pub struct AgentId(pub u128);

/// The platforms that messages come from and go to.
#[derive(Debug, Clone, Copy, PartialEq, Eq, Structural)]
pub enum ChannelType {
    WhatsApp,
    Telegram,
}

/// Someone on a platform.
#[derive(Debug)]
pub struct ChannelUser {
    pub platform_id: String,
    pub display_name: String,
    pub librefang_user: Option<String>,
}

/// What a message carries. `P` is what the platform adds that no rule reads: it travels along.
#[derive(Debug)]
pub enum ChannelContent<P> {
    Text(String),
    Command { name: String, args: Vec<String> },
    Image { url: String, caption: Option<String>, rest: P },
    Voice { url: String, caption: Option<String>, rest: P },
    Video { caption: Option<String>, rest: P },
    Audio { url: String, caption: Option<String>, rest: P },
    File { url: String, filename: String },
    /// A file that travels with its bytes.
    FileData { data: Vec<u8>, mime_type: String, filename: String },
    Sticker { rest: P },
    /// A place on the map; the coordinates are the bits of IEEE 754 doubles.
    Location { lat: u64, lon: u64 },
    Animation { caption: Option<String>, rest: P },
    Interactive { text: String, rest: P },
    ButtonCallback { action: String, rest: P },
    Poll { question: String, rest: P },
    PollAnswer { rest: P },
    MediaGroup { rest: P },
    DeleteMessage { rest: P },
    EditInteractive { text: String, rest: P },
}

/// Named values that travel with a message.
#[derive(Debug)]
pub struct Metadata {
    entries: Vec<(String, Json)>,
}

impl Metadata {
    /// What is stored, in the order of the names' first appearance.
    pub closed spec fn members(self) -> Seq<(Seq<char>, JsonTree)> {
        Seq::new(self.entries@.len(), |i: int| (self.entries@[i].0@, self.entries@[i].1@))
    }

    /// The value stored under `name`.
    pub open spec fn value(self, name: Seq<char>) -> Option<JsonTree> {
        json::member(self.members(), name)
    }

    /// Nothing stored.
    pub fn new() -> (r: Metadata)
        ensures
            forall|name: Seq<char>| r.value(name) is None,
    {
        Metadata { entries: Vec::new() }
    }

    /// The value stored under `name`.
    pub fn get(&self, name: &str) -> (r: Option<&Json>)
        ensures
            match r {
                Some(v) => self.value(name@) == Some(v@),
                None => self.value(name@) is None,
            },
    {
        let ghost all = self.members();
        assert(all.skip(0) == all);
        for i in 0..self.entries.len()
            invariant
                all == self.members(),
                self.value(name@) == json::member(all.skip(i as int), name@),
        {
            assert(all.skip(i as int).first() == all[i as int]);
            assert(all.skip(i as int).drop_first() == all.skip(i + 1));
            if text::same_text(self.entries[i].0.as_str(), name) {
                return Some(&self.entries[i].1);
            }
        }
        None
    }

    /// Stores `value` under `name`, in place of what was there.
    pub fn insert(&mut self, name: String, value: Json)
        ensures
            final(self).value(name@) == Some(value@),
            forall|other: Seq<char>|
                other != name@ ==> final(self).value(other) == old(self).value(other),
    {
        let ghost all = self.members();
        let n: usize = self.entries.len();
        for i in 0..n
            invariant
                n == self.entries@.len(),
                self == old(self),
                all == self.members(),
                forall|k: int| 0 <= k < i ==> (#[trigger] all[k]).0 != name@,
        {
            if text::same_text(self.entries[i].0.as_str(), name.as_str()) {
                let ghost key = name@;
                let ghost fresh = value@;
                self.entries[i] = (name, value);
                proof {
                    let now = self.members();
                    assert(now == all.update(i as int, (key, fresh)));
                    lemma_member_update(all, i as int, key, fresh);
                }
                return ;
            }
        }
        let ghost key = name@;
        let ghost fresh = value@;
        self.entries.push((name, value));
        proof {
            assert(self.members() == all.push((key, fresh)));
            lemma_member_push(all, key, fresh);
        }
    }
}

/// Replacing the first member of a name changes what that name finds and nothing else.
proof fn lemma_member_update(
    members: Seq<(Seq<char>, JsonTree)>,
    i: int,
    name: Seq<char>,
    value: JsonTree,
)
    requires
        0 <= i < members.len(),
        members[i].0 == name,
        forall|k: int| 0 <= k < i ==> (#[trigger] members[k]).0 != name,
    ensures
        json::member(members.update(i, (name, value)), name) == Some(value),
        forall|other: Seq<char>|
            other != name ==> json::member(members.update(i, (name, value)), other)
                == json::member(members, other),
    decreases members.len(),
{
    let rest = members.drop_first();
    let now = members.update(i, (name, value));
    if i > 0 {
        assert(members[0].0 != name);
        assert forall|k: int| 0 <= k < i - 1 implies (#[trigger] rest[k]).0 != name by {
            assert(rest[k] == members[k + 1]);
        }
        lemma_member_update(rest, i - 1, name, value);
        assert(now.drop_first() == rest.update(i - 1, (name, value)));
        assert(now.first() == members.first());
    } else {
        assert(now.drop_first() == rest);
    }
    assert forall|other: Seq<char>| other != name implies json::member(now, other)
        == json::member(members, other) by {
        if i > 0 {
            assert(json::member(now.drop_first(), other) == json::member(rest, other));
        }
    }
}

/// A member added at the end is found under its name, unless an earlier one is.
proof fn lemma_member_push(
    members: Seq<(Seq<char>, JsonTree)>,
    name: Seq<char>,
    value: JsonTree,
)
    requires
        forall|k: int| 0 <= k < members.len() ==> (#[trigger] members[k]).0 != name,
    ensures
        json::member(members.push((name, value)), name) == Some(value),
        forall|other: Seq<char>|
            other != name ==> json::member(members.push((name, value)), other) == json::member(
                members,
                other,
            ),
    decreases members.len(),
{
    let now = members.push((name, value));
    if members.len() > 0 {
        let rest = members.drop_first();
        assert(members[0].0 != name);
        assert forall|k: int| 0 <= k < rest.len() implies (#[trigger] rest[k]).0 != name by {
            assert(rest[k] == members[k + 1]);
        }
        lemma_member_push(rest, name, value);
        assert(now.drop_first() == rest.push((name, value)));
        assert(now.first() == members.first());
        assert forall|other: Seq<char>| other != name implies json::member(now, other)
            == json::member(members, other) by {
            assert(json::member(now.drop_first(), other) == json::member(rest, other));
        }
    } else {
        assert(now.drop_first() == members);
        assert forall|other: Seq<char>| other != name implies json::member(now, other)
            == json::member(members, other) by {
            assert(json::member(now.drop_first(), other) is None);
        }
    }
}

/// A message from a platform.
#[derive(Debug)]
pub struct ChannelMessage<P> {
    pub channel: ChannelType,
    pub platform_message_id: String,
    pub sender: ChannelUser,
    pub content: ChannelContent<P>,
    pub target_agent: Option<AgentId>,
    pub timestamp: UtcTime,
    pub is_group: bool,
    pub thread_id: Option<String>,
    pub metadata: Metadata,
}

/// How direct messages are handled.
#[derive(Debug, Clone, Copy, PartialEq, Eq, Structural)]
pub enum DmPolicy {
    Respond,
    AllowedOnly,
    Ignore,
}

impl Default for DmPolicy {
    fn default() -> (r: DmPolicy)
        ensures
            r == DmPolicy::Respond,
    {
        DmPolicy::Respond
    }
}

/// How messages in a group are handled.
#[derive(Debug, Clone, Copy, PartialEq, Eq, Structural)]
pub enum GroupPolicy {
    All,
    MentionOnly,
    CommandsOnly,
    Ignore,
}

impl Default for GroupPolicy {
    fn default() -> (r: GroupPolicy)
        ensures
            r == GroupPolicy::MentionOnly,
    {
        GroupPolicy::MentionOnly
    }
}

/// What the configuration says about messages for an agent that is busy.
#[derive(Debug, Clone, Copy, PartialEq, Eq, Structural)]
pub enum CoalesceOnBusyMode {
    Queue,
    CancelAndMerge,
}

/// The pieces of `text` of `max_len` characters each, the last one possibly shorter; a text that
/// fits is one piece, also where it is empty.
pub open spec fn chunks_of(text: Seq<char>, max_len: nat) -> Seq<Seq<char>>
    decreases text.len(),
    when max_len > 0
{
    if text.len() <= max_len {
        seq![text]
    } else {
        seq![text.take(max_len as int)] + chunks_of(text.skip(max_len as int), max_len)
    }
}

/// Cuts `message` into pieces of at most `max_len` characters.
pub fn split_message(message: &str, max_len: usize) -> (r: Vec<String>)
    requires
        max_len > 0,
    ensures
        text::texts(r@) == chunks_of(message@, max_len as nat),
{
    let chars = text::chars_of(message);
    let n: usize = chars.len();
    let mut out: Vec<String> = Vec::new();
    let mut from: usize = 0;
    assert(chars@.skip(0) == message@);
    assert(text::texts(out@) + chunks_of(message@, max_len as nat) == chunks_of(
        message@,
        max_len as nat,
    ));
    while n - from > max_len
        invariant
            max_len > 0,
            n == chars@.len(),
            from <= n,
            text::texts(out@) + chunks_of(chars@.skip(from as int), max_len as nat) == chunks_of(
                message@,
                max_len as nat,
            ),
        decreases n - from,
    {
        let ghost rest = chars@.skip(from as int);
        let ghost before = text::texts(out@);
        let piece = text::string_between(&chars, from, from + max_len);
        assert(rest.take(max_len as int) == piece@);
        assert(rest.skip(max_len as int) == chars@.skip(from + max_len));
        let ghost shown = piece@;
        out.push(piece);
        from = from + max_len;
        assert(text::texts(out@) == before.push(shown));
        assert(before + (seq![shown] + chunks_of(chars@.skip(from as int), max_len as nat))
            == text::texts(out@) + chunks_of(chars@.skip(from as int), max_len as nat));
    }
    let ghost before = text::texts(out@);
    let last = text::string_between(&chars, from, n);
    assert(chars@.skip(from as int) == last@);
    let ghost shown = last@;
    out.push(last);
    assert(text::texts(out@) == before + seq![shown]);
    out
}

/// Cutting a message loses nothing: the pieces, one after the other, are the message; and no
/// piece is longer than the limit.
pub proof fn law_chunks_are_the_message(message: Seq<char>, max_len: nat)
    requires
        max_len > 0,
    ensures
        text::joined(chunks_of(message, max_len), Seq::empty()) == message,
        chunks_of(message, max_len).len() >= 1,
        forall|i: int|
            0 <= i < chunks_of(message, max_len).len() ==> (#[trigger] chunks_of(
                message,
                max_len,
            )[i]).len() <= max_len,
    decreases message.len(),
{
    let all = chunks_of(message, max_len);
    if message.len() > max_len {
        let head = message.take(max_len as int);
        let tail = chunks_of(message.skip(max_len as int), max_len);
        law_chunks_are_the_message(message.skip(max_len as int), max_len);
        lemma_joined_cons(head, tail);
        assert(head + message.skip(max_len as int) == message);
        assert forall|i: int| 0 <= i < all.len() implies (#[trigger] all[i]).len() <= max_len by {
            if i > 0 {
                assert(all[i] == tail[i - 1]);
            }
        }
    }
}

/// Joining without a separator: the first piece, then the rest.
proof fn lemma_joined_cons(head: Seq<char>, tail: Seq<Seq<char>>)
    ensures
        text::joined(seq![head] + tail, Seq::empty()) == head + text::joined(tail, Seq::empty()),
    decreases tail.len(),
{
    let all = seq![head] + tail;
    let none = Seq::<char>::empty();
    if tail.len() == 0 {
        assert(text::joined(all, none) == head + none);
    } else if tail.len() == 1 {
        assert(all.drop_last() == seq![head]);
        assert(text::joined(seq![head], none) == head);
        assert(text::joined(all, none) == head + none + tail[0]);
        assert(head + none + tail[0] == head + tail[0]);
    } else {
        lemma_joined_cons(head, tail.drop_last());
        assert(all.drop_last() == seq![head] + tail.drop_last());
        let t = text::joined(tail.drop_last(), none);
        assert(text::joined(all, none) == head + t + none + tail.last());
        assert(head + t + none + tail.last() == head + (t + none + tail.last()));
    }
}

/// Only the last piece of a message may be shorter than the limit, and no piece is empty but the
/// one of an empty message.
pub proof fn law_pieces_are_as_long_as_they_may_be(message: Seq<char>, max_len: nat)
    requires
        max_len > 0,
    ensures
        ({
            let all = chunks_of(message, max_len);
            &&& forall|i: int| 0 <= i < all.len() - 1 ==> (#[trigger] all[i]).len() == max_len
            &&& message.len() > 0 ==> all.last().len() > 0
            &&& message.len() <= max_len ==> all == seq![message]
        }),
    decreases message.len(),
{
    if message.len() > max_len {
        let all = chunks_of(message, max_len);
        let rest = message.skip(max_len as int);
        let tail = chunks_of(rest, max_len);
        law_pieces_are_as_long_as_they_may_be(rest, max_len);
        law_chunks_are_the_message(rest, max_len);
        assert(all.last() == tail.last());
        assert forall|i: int| 0 <= i < all.len() - 1 implies (#[trigger] all[i]).len()
            == max_len by {
            if i > 0 {
                assert(all[i] == tail[i - 1]);
            }
        }
    }
}

} // verus!
