//! Coalescing of messages that arrive close together.
//!
//! Messages are buffered per `{channel, chat, sender}` and delivered as one batch once a window
//! has passed without a new one. The dispatcher decides what is buffered and what a batch holds;
//! its caller keeps the timers: each buffered message restarts the window of its key.

use std::collections::HashSet;
use std::time::{Duration, Instant};

use vstd::prelude::*;
use vstd::std_specs::hash::*;
use vstd::string::*;

use crate::clock;
use crate::text;
use crate::types::{AgentId, ChannelContent, ChannelMessage, CoalesceOnBusyMode};

verus! {

broadcast use group_hash_axioms;

/// `std::time::Instant`, a moment of the monotonic clock. It is stored and handed on.
#[verifier::external_type_specification]
#[verifier::external_body]
pub struct ExInstant(std::time::Instant);

/// What the dispatcher does about messages for an agent that is busy.
#[derive(Debug, Clone, Copy, PartialEq, Eq, Structural)]
pub enum CoalesceOnBusy {
    Queue,
}

impl From<CoalesceOnBusyMode> for CoalesceOnBusy {
    fn from(m: CoalesceOnBusyMode) -> (r: CoalesceOnBusy) {
        match m {
            CoalesceOnBusyMode::Queue => CoalesceOnBusy::Queue,
            CoalesceOnBusyMode::CancelAndMerge => CoalesceOnBusy::Queue,
        }
    }
}

impl vstd::std_specs::convert::FromSpecImpl<CoalesceOnBusyMode> for CoalesceOnBusy {
    open spec fn obeys_from_spec() -> bool {
        true
    }

    open spec fn from_spec(m: CoalesceOnBusyMode) -> CoalesceOnBusy {
        CoalesceOnBusy::Queue
    }
}

/// The settings of a dispatcher.
#[derive(Debug)]
pub struct CoalesceRuntimeConfig {
    pub enabled: bool,
    pub window: Duration,
    pub on_busy: CoalesceOnBusy,
}

impl Clone for CoalesceRuntimeConfig {
    fn clone(&self) -> (r: CoalesceRuntimeConfig)
        ensures
            r == *self,
    {
        CoalesceRuntimeConfig {
            enabled: self.enabled,
            window: self.window,
            on_busy: self.on_busy,
        }
    }
}

/// Whose messages share a window: `{channel, chat, sender}`.
#[derive(Hash, Eq, PartialEq, Debug)]
pub struct CoalesceKey {
    pub channel: String,
    pub chat_or_user: String,
    pub sender_id: String,
}

impl Clone for CoalesceKey {
    fn clone(&self) -> (r: CoalesceKey)
        ensures
            r == *self,
    {
        CoalesceKey {
            channel: self.channel.clone(),
            chat_or_user: self.chat_or_user.clone(),
            sender_id: self.sender_id.clone(),
        }
    }
}

impl View for CoalesceKey {
    type V = (Seq<char>, Seq<char>, Seq<char>);

    open spec fn view(&self) -> (Seq<char>, Seq<char>, Seq<char>) {
        (self.channel@, self.chat_or_user@, self.sender_id@)
    }
}

/// A character inside a part of a key's text: a colon, which separates the parts, and a backslash
/// have a backslash in front.
pub open spec fn escaped_char(c: char) -> Seq<char> {
    if c == ':' || c == '\\' {
        seq!['\\', c]
    } else {
        seq![c]
    }
}

/// A part of a key's text.
pub open spec fn escaped(s: Seq<char>) -> Seq<char>
    decreases s.len(),
{
    if s.len() == 0 {
        Seq::empty()
    } else {
        escaped_char(s.first()) + escaped(s.drop_first())
    }
}

/// A part of a key's text.
fn escape(s: &str) -> (r: String)
    ensures
        r@ == escaped(s@),
{
    let chars = text::chars_of(s);
    let mut out = String::new();
    assert(chars@.skip(0) == s@);
    for i in 0..chars.len()
        invariant
            escaped(s@) == out@ + escaped(chars@.skip(i as int)),
    {
        let ghost before = out@;
        let ghost rest = chars@.skip(i as int);
        assert(rest.drop_first() == chars@.skip(i + 1));
        let c = chars[i];
        if c == ':' || c == '\\' {
            out.push('\\');
        }
        out.push(c);
        assert(out@ == before + escaped_char(c));
        assert(before + (escaped_char(c) + escaped(rest.drop_first())) == out@ + escaped(
            rest.drop_first(),
        ));
    }
    assert(escaped(chars@.skip(chars@.len() as int)) == Seq::<char>::empty());
    assert(out@ + Seq::<char>::empty() == out@);
    out
}

impl CoalesceKey {
    /// The three parts with colons between them; inside a part, colons and backslashes have a
    /// backslash in front.
    pub open spec fn as_text(self) -> Seq<char> {
        escaped(self.channel@) + seq![':'] + escaped(self.chat_or_user@) + seq![':'] + escaped(
            self.sender_id@,
        )
    }

    /// The three parts with colons between them.
    pub fn to_string(&self) -> (r: String)
        ensures
            r@ == self.as_text(),
    {
        proof {
            reveal_strlit(":");
            assert(":"@ == seq![':']);
        }
        let channel = escape(self.channel.as_str());
        let chat = escape(self.chat_or_user.as_str());
        let mut out = text::concat3(channel.as_str(), ":", chat.as_str());
        out.append(":");
        out.append(escape(self.sender_id.as_str()).as_str());
        out
    }
}

/// A batch that is ready for delivery: the messages of one key in the order they came, the
/// content blocks of all of them, and the agent of the first.
#[derive(Debug)]
pub struct PendingBatch<B, P> {
    pub messages: Vec<ChannelMessage<P>>,
    pub blocks: Option<Vec<B>>,
    pub agent_id: AgentId,
    pub first_arrived: Instant,
}

/// What a batch holds.
#[verifier::ext_equal]
pub struct Batch<B, P> {
    pub messages: Seq<ChannelMessage<P>>,
    pub blocks: Option<Seq<B>>,
    pub agent_id: AgentId,
    pub first_arrived: Instant,
}

impl<B, P> View for PendingBatch<B, P> {
    type V = Batch<B, P>;

    open spec fn view(&self) -> Batch<B, P> {
        Batch {
            messages: self.messages@,
            blocks: opt_blocks(self.blocks),
            agent_id: self.agent_id,
            first_arrived: self.first_arrived,
        }
    }
}

/// The view of optional content blocks.
pub open spec fn opt_blocks<B>(blocks: Option<Vec<B>>) -> Option<Seq<B>> {
    match blocks {
        Some(b) => Some(b@),
        None => None,
    }
}

/// The blocks of two messages together: those of the first, then those of the second.
pub open spec fn merged_blocks<B>(a: Option<Seq<B>>, b: Option<Seq<B>>) -> Option<Seq<B>> {
    match (a, b) {
        (Some(x), Some(y)) => Some(x + y),
        (Some(x), None) => Some(x),
        (None, y) => y,
    }
}

/// The batch of a key once one more message has come: the message and its blocks go to the end,
/// the agent stays that of the first message, and the moment is that of the latest.
pub open spec fn extended<B, P>(
    before: Option<Batch<B, P>>,
    message: ChannelMessage<P>,
    blocks: Option<Seq<B>>,
    agent_id: AgentId,
    now: Instant,
) -> Batch<B, P> {
    match before {
        Some(b) => Batch {
            messages: b.messages.push(message),
            blocks: merged_blocks(b.blocks, blocks),
            agent_id: b.agent_id,
            first_arrived: now,
        },
        None => Batch { messages: seq![message], blocks, agent_id, first_arrived: now },
    }
}

/// The batch that is buffered under `key`.
pub open spec fn batch_at<B, P>(m: Map<Seq<char>, Batch<B, P>>, key: Seq<char>) -> Option<Batch<B, P>> {
    if m.contains_key(key) {
        Some(m[key])
    } else {
        None
    }
}

/// What is buffered after a message has been buffered under `key`.
pub open spec fn after_push<B, P>(
    m: Map<Seq<char>, Batch<B, P>>,
    key: Seq<char>,
    message: ChannelMessage<P>,
    blocks: Option<Seq<B>>,
    agent_id: AgentId,
    now: Instant,
) -> Map<Seq<char>, Batch<B, P>> {
    m.insert(key, extended(batch_at(m, key), message, blocks, agent_id, now))
}

/// Whether a message asks to be delivered without delay.
pub open spec fn is_urgent_spec<P>(message: ChannelMessage<P>) -> bool {
    match message.metadata.value("urgent"@) {
        Some(v) => v.as_bool() == Some(true),
        None => false,
    }
}

/// Whether a message asks to be delivered without delay.
pub fn is_urgent<P>(message: &ChannelMessage<P>) -> (r: bool)
    ensures
        r == is_urgent_spec(*message),
{
    match message.metadata.get("urgent") {
        Some(v) => match v.as_bool() {
            Some(b) => b,
            None => false,
        },
        None => false,
    }
}

/// What the caller of [`CoalescingDispatcher::push`] does next.
#[derive(Debug)]
pub enum PushAction {
    /// The message is not buffered: dispatch it now.
    Dispatch,
    /// The message is buffered: stop the timer of `key` where `restart` says that one is running,
    /// and start one that flushes `key` after `window`.
    StartTimer { key: String, restart: bool, window: Duration },
}

/// Whether an action starts a timer of `key` that runs for `window`, in place of the one that runs
/// where `restart` says so.
pub open spec fn starts_timer(
    action: PushAction,
    key: Seq<char>,
    restart: bool,
    window: Duration,
) -> bool {
    &&& action matches PushAction::StartTimer { key: k, restart: r, window: w }
    &&& k@ == key
    &&& r == restart
    &&& w == window
}

#[derive(Debug)]
struct BufferEntry<B, P> {
    key: String,
    batch: PendingBatch<B, P>,
}

/// The sliding-window dispatcher.
pub struct CoalescingDispatcher<B, P> {
    config: CoalesceRuntimeConfig,
    /// One entry per key that has messages waiting.
    buffers: Vec<BufferEntry<B, P>>,
    /// The agents that are processing a turn.
    in_flight: HashSet<u128>,
}

impl<B, P> CoalescingDispatcher<B, P> {
    /// The settings.
    pub closed spec fn settings(&self) -> CoalesceRuntimeConfig {
        self.config
    }

    /// What is buffered, by key.
    pub closed spec fn buffered(&self) -> Map<Seq<char>, Batch<B, P>> {
        entries_map(self.buffers@)
    }

    /// The agents that are processing a turn.
    pub closed spec fn busy(&self) -> Set<u128> {
        self.in_flight@
    }

    /// No key is buffered twice, and no batch is empty.
    pub closed spec fn wf(&self) -> bool {
        &&& distinct_keys(self.buffers@)
        &&& forall|i: int|
            0 <= i < self.buffers@.len() ==> (#[trigger] self.buffers@[i]).batch.messages@.len() > 0
    }
}

/// Whether no two entries have the same key.
spec fn distinct_keys<B, P>(entries: Seq<BufferEntry<B, P>>) -> bool {
    forall|i: int, j: int|
        0 <= i < j < entries.len() ==> (#[trigger] entries[i]).key@ != (#[trigger] entries[j]).key@
}

/// Whether the entry at `i` is the one for `key`.
spec fn entry_at<B, P>(entries: Seq<BufferEntry<B, P>>, key: Seq<char>, i: int) -> bool {
    0 <= i < entries.len() && entries[i].key@ == key
}

/// The batches of entries, by key.
spec fn entries_map<B, P>(entries: Seq<BufferEntry<B, P>>) -> Map<Seq<char>, Batch<B, P>> {
    Map::new(
        |key: Seq<char>| exists|i: int| entry_at(entries, key, i),
        |key: Seq<char>| entries[choose|i: int| entry_at(entries, key, i)].batch@,
    )
}

/// An entry is found under its key.
proof fn lemma_entry<B, P>(entries: Seq<BufferEntry<B, P>>, i: int)
    requires
        distinct_keys(entries),
        0 <= i < entries.len(),
    ensures
        entries_map(entries).contains_key(entries[i].key@),
        entries_map(entries)[entries[i].key@] == entries[i].batch@,
{
    let key = entries[i].key@;
    assert(entry_at(entries, key, i));
    let j = choose|j: int| entry_at(entries, key, j);
    if i < j {
        assert(entries[i].key@ != entries[j].key@);
    } else if j < i {
        assert(entries[j].key@ != entries[i].key@);
    }
}

/// An entry for a new key adds that key.
proof fn lemma_entry_added<B, P>(entries: Seq<BufferEntry<B, P>>, entry: BufferEntry<B, P>)
    requires
        distinct_keys(entries),
        !entries_map(entries).contains_key(entry.key@),
    ensures
        distinct_keys(entries.push(entry)),
        entries_map(entries.push(entry)) == entries_map(entries).insert(entry.key@, entry.batch@),
{
    let now = entries.push(entry);
    assert forall|i: int, j: int| 0 <= i < j < now.len() implies (#[trigger] now[i]).key@ != (
    #[trigger] now[j]).key@ by {
        if j == entries.len() {
            assert(entry_at(entries, now[i].key@, i));
        }
    }
    let m = entries_map(entries).insert(entry.key@, entry.batch@);
    assert forall|key: Seq<char>| entries_map(now).contains_key(key) == m.contains_key(key) by {
        if entries_map(now).contains_key(key) {
            let i = choose|i: int| entry_at(now, key, i);
            if i < entries.len() {
                assert(entry_at(entries, key, i));
            }
        }
        if entries_map(entries).contains_key(key) {
            let i = choose|i: int| entry_at(entries, key, i);
            assert(entry_at(now, key, i));
        }
        assert(entry_at(now, entry.key@, entries.len() as int));
    }
    assert forall|key: Seq<char>| entries_map(now).contains_key(key) implies entries_map(now)[key]
        == m[key] by {
        let i = choose|i: int| entry_at(now, key, i);
        lemma_entry(now, i);
        if i < entries.len() {
            lemma_entry(entries, i);
            assert(now[i] == entries[i]);
            assert(entry_at(entries, key, i));
        }
    }
    assert(entries_map(now) =~= m);
}

/// Taking an entry out takes its key out.
proof fn lemma_entry_removed<B, P>(entries: Seq<BufferEntry<B, P>>, at: int)
    requires
        distinct_keys(entries),
        0 <= at < entries.len(),
    ensures
        distinct_keys(entries.remove(at)),
        entries_map(entries.remove(at)) == entries_map(entries).remove(entries[at].key@),
{
    let now = entries.remove(at);
    let gone = entries[at].key@;
    assert forall|i: int| 0 <= i < now.len() implies now[i] == entries[if i < at {
        i
    } else {
        i + 1
    }] by {}
    assert(distinct_keys(now));
    let m = entries_map(entries).remove(gone);
    assert forall|key: Seq<char>| entries_map(now).contains_key(key) == m.contains_key(key) by {
        if entries_map(now).contains_key(key) {
            let i = choose|i: int| entry_at(now, key, i);
            let j = if i < at {
                i
            } else {
                i + 1
            };
            assert(entry_at(entries, key, j));
            if j < at {
                assert(entries[j].key@ != entries[at].key@);
            } else {
                assert(entries[at].key@ != entries[j].key@);
            }
        }
        if m.contains_key(key) {
            let j = choose|j: int| entry_at(entries, key, j);
            assert(j != at);
            assert(entry_at(
                now,
                key,
                if j < at {
                    j
                } else {
                    j - 1
                },
            ));
        }
    }
    assert forall|key: Seq<char>| entries_map(now).contains_key(key) implies entries_map(now)[key]
        == m[key] by {
        let i = choose|i: int| entry_at(now, key, i);
        lemma_entry(now, i);
        lemma_entry(
            entries,
            if i < at {
                i
            } else {
                i + 1
            },
        );
    }
    assert(entries_map(now) =~= m);
}

impl<B, P> CoalescingDispatcher<B, P> {
    /// A dispatcher with nothing buffered and no agent busy.
    pub fn new(config: CoalesceRuntimeConfig) -> (r: CoalescingDispatcher<B, P>)
        ensures
            r.wf(),
            r.settings() == config,
            r.buffered() == Map::<Seq<char>, Batch<B, P>>::empty(),
            r.busy() == Set::<u128>::empty(),
    {
        let r = CoalescingDispatcher { config, buffers: Vec::new(), in_flight: HashSet::new() };
        assert(r.buffered() =~= Map::<Seq<char>, Batch<B, P>>::empty());
        r
    }

    /// Whether coalescing is enabled.
    pub fn is_enabled(&self) -> (r: bool)
        ensures
            r == self.settings().enabled,
    {
        self.config.enabled
    }

    /// How long a key stays quiet before its batch is delivered.
    pub fn window(&self) -> (r: Duration)
        ensures
            r == self.settings().window,
    {
        self.config.window
    }

    /// What is done about messages for an agent that is busy.
    pub fn on_busy_mode(&self) -> (r: CoalesceOnBusy)
        ensures
            r == self.settings().on_busy,
    {
        self.config.on_busy
    }

    /// The position of the entry for `key`.
    fn position(&self, key: &str) -> (r: Option<usize>)
        requires
            self.wf(),
        ensures
            match r {
                Some(i) => {
                    &&& i < self.buffers@.len()
                    &&& self.buffers@[i as int].key@ == key@
                    &&& self.buffered().contains_key(key@)
                    &&& self.buffered()[key@] == self.buffers@[i as int].batch@
                },
                None => !self.buffered().contains_key(key@),
            },
    {
        for i in 0..self.buffers.len()
            invariant
                self.wf(),
                forall|k: int| 0 <= k < i ==> (#[trigger] self.buffers@[k]).key@ != key@,
        {
            if text::same_text(self.buffers[i].key.as_str(), key) {
                proof {
                    lemma_entry(self.buffers@, i as int);
                }
                return Some(i);
            }
        }
        assert(!self.buffered().contains_key(key@)) by {
            if self.buffered().contains_key(key@) {
                let i = choose|i: int| entry_at(self.buffers@, key@, i);
                assert(self.buffers@[i].key@ != key@);
            }
        }
        None
    }

    /// Registers a message. It is buffered unless coalescing is off or the message is urgent.
    pub fn push(
        &mut self,
        key: CoalesceKey,
        message: ChannelMessage<P>,
        blocks: Option<Vec<B>>,
        agent_id: AgentId,
        now: Instant,
    ) -> (r: PushAction)
        requires
            old(self).wf(),
        ensures
            final(self).wf(),
            final(self).settings() == old(self).settings(),
            final(self).busy() == old(self).busy(),
            !old(self).settings().enabled || is_urgent_spec(message) ==> {
                &&& r is Dispatch
                &&& final(self).buffered() == old(self).buffered()
            },
            old(self).settings().enabled && !is_urgent_spec(message) ==> {
                &&& final(self).buffered() == after_push(
                    old(self).buffered(),
                    key.as_text(),
                    message,
                    opt_blocks(blocks),
                    agent_id,
                    now,
                )
                &&& starts_timer(
                    r,
                    key.as_text(),
                    old(self).buffered().contains_key(key.as_text()),
                    old(self).settings().window,
                )
            },
    {
        if !self.config.enabled || is_urgent(&message) {
            return PushAction::Dispatch;
        }
        let key_str = key.to_string();
        let ghost text = key.as_text();
        let window = self.config.window;
        let found = self.position(key_str.as_str());
        match found {
            Some(i) => {
                let ghost before = self.buffers@;
                let old_entry = self.buffers.remove(i);
                proof {
                    lemma_entry_removed(before, i as int);
                }
                let batch = extend_batch(old_entry.batch, message, blocks, now);
                let entry = BufferEntry { key: key_str.clone(), batch };
                proof {
                    lemma_entry_added(self.buffers@, entry);
                    assert forall|k: int| 0 <= k < self.buffers@.len() implies (
                    #[trigger] self.buffers@[k]).batch.messages@.len() > 0 by {
                        assert(self.buffers@[k] == before[if k < i {
                            k
                        } else {
                            k + 1
                        }]);
                    }
                }
                self.buffers.push(entry);
                assert(self.buffered() =~= old(self).buffered().insert(text, entry.batch@));
            },
            None => {
                let mut messages: Vec<ChannelMessage<P>> = Vec::new();
                messages.push(message);
                let batch = PendingBatch { messages, blocks, agent_id, first_arrived: now };
                let entry = BufferEntry { key: key_str.clone(), batch };
                proof {
                    lemma_entry_added(self.buffers@, entry);
                    assert(batch.messages@ == seq![message]);
                }
                self.buffers.push(entry);
            },
        }
        PushAction::StartTimer { key: key_str, restart: found.is_some(), window }
    }

    /// Takes the batch of `key` out; `None` where nothing is buffered under it.
    pub fn drain(&mut self, key: &str) -> (r: Option<PendingBatch<B, P>>)
        requires
            old(self).wf(),
        ensures
            final(self).wf(),
            final(self).settings() == old(self).settings(),
            final(self).busy() == old(self).busy(),
            final(self).buffered() == old(self).buffered().remove(key@),
            match r {
                Some(batch) => {
                    &&& old(self).buffered().contains_key(key@)
                    &&& batch@ == old(self).buffered()[key@]
                    &&& batch.messages@.len() > 0
                },
                None => !old(self).buffered().contains_key(key@),
            },
    {
        match self.position(key) {
            Some(i) => {
                let ghost before = self.buffers@;
                let entry = self.buffers.remove(i);
                proof {
                    lemma_entry_removed(before, i as int);
                    assert forall|k: int| 0 <= k < self.buffers@.len() implies (
                    #[trigger] self.buffers@[k]).batch.messages@.len() > 0 by {
                        assert(self.buffers@[k] == before[if k < i {
                            k
                        } else {
                            k + 1
                        }]);
                    }
                }
                Some(entry.batch)
            },
            None => {
                assert(self.buffered() =~= self.buffered().remove(key@));
                None
            },
        }
    }

    /// How many messages are waiting under `key`.
    pub fn buffered_len(&self, key: &str) -> (r: usize)
        requires
            self.wf(),
        ensures
            match batch_at(self.buffered(), key@) {
                Some(batch) => r == batch.messages.len(),
                None => r == 0,
            },
    {
        match self.position(key) {
            Some(i) => self.buffers[i].batch.messages.len(),
            None => 0,
        }
    }

    /// The keys that have messages waiting, each once.
    pub fn buffered_keys(&self) -> (r: Vec<String>)
        requires
            self.wf(),
        ensures
            text::texts(r@).no_duplicates(),
            forall|key: Seq<char>|
                text::texts(r@).contains(key) <==> self.buffered().contains_key(key),
    {
        let mut out: Vec<String> = Vec::new();
        for i in 0..self.buffers.len()
            invariant
                out@.len() == i,
                forall|k: int| 0 <= k < i ==> (#[trigger] out@[k])@ == self.buffers@[k].key@,
        {
            out.push(self.buffers[i].key.clone());
        }
        proof {
            let keys = text::texts(out@);
            assert forall|i: int, j: int| 0 <= i < j < keys.len() implies keys[i] != keys[j] by {
                assert(out@[i]@ == self.buffers@[i].key@);
                assert(out@[j]@ == self.buffers@[j].key@);
            }
            assert forall|key: Seq<char>|
                keys.contains(key) <==> self.buffered().contains_key(key) by {
                if keys.contains(key) {
                    let i = choose|i: int| 0 <= i < keys.len() && keys[i] == key;
                    assert(out@[i]@ == self.buffers@[i].key@);
                    assert(entry_at(self.buffers@, key, i));
                }
                if self.buffered().contains_key(key) {
                    let i = choose|i: int| entry_at(self.buffers@, key, i);
                    assert(out@[i]@ == self.buffers@[i].key@);
                    assert(keys[i] == key);
                }
            }
        }
        out
    }

    /// Records that an agent is processing a turn.
    pub fn mark_busy(&mut self, agent_id: AgentId)
        requires
            old(self).wf(),
        ensures
            final(self).wf(),
            final(self).settings() == old(self).settings(),
            final(self).buffered() == old(self).buffered(),
            final(self).busy() == old(self).busy().insert(agent_id.0),
    {
        self.in_flight.insert(agent_id.0);
    }

    /// Records that an agent has finished its turn.
    pub fn mark_idle(&mut self, agent_id: &AgentId)
        requires
            old(self).wf(),
        ensures
            final(self).wf(),
            final(self).settings() == old(self).settings(),
            final(self).buffered() == old(self).buffered(),
            final(self).busy() == old(self).busy().remove(agent_id.0),
    {
        self.in_flight.remove(&agent_id.0);
    }

    /// Whether an agent is processing a turn.
    pub fn is_busy(&self, agent_id: &AgentId) -> (r: bool)
        ensures
            r == self.busy().contains(agent_id.0),
    {
        self.in_flight.contains(&agent_id.0)
    }

    /// The text of a batch as one message, its content blocks, and its last message, whose sender
    /// and time stand for the whole.
    pub fn merge_batch(batch: PendingBatch<B, P>) -> (r: (
        String,
        Option<Vec<B>>,
        ChannelMessage<P>,
    ))
        requires
            batch.messages@.len() > 0,
            forall|i: int|
                0 <= i < batch.messages@.len() ==> (
                #[trigger] batch.messages@[i]).timestamp.valid(),
        ensures
            r.0@ == merged_text(batch.messages@),
            r.1 == batch.blocks,
            r.2 == batch.messages@.last(),
    {
        let mut messages = batch.messages;
        let n: usize = messages.len();
        let merged = if n == 1 {
            content_to_text(&messages[0].content)
        } else {
            let mut parts: Vec<String> = Vec::new();
            for i in 0..n
                invariant
                    n == messages@.len(),
                    messages@ == batch.messages@,
                    forall|k: int|
                        0 <= k < messages@.len() ==> (#[trigger] messages@[k]).timestamp.valid(),
                    text::texts(parts@) == stamped_texts(messages@).take(i as int),
            {
                let stamp = clock::utc_clock(messages[i].timestamp);
                let body = content_to_text(&messages[i].content);
                proof {
                    reveal_strlit("[");
                    reveal_strlit("] ");
                    assert("["@ == seq!['[']);
                    assert("] "@ == seq![']', ' ']);
                }
                let mut line = text::concat3("[", stamp.as_str(), "] ");
                line.append(body.as_str());
                assert(line@ == stamped_text(messages@[i as int]));
                let ghost before = text::texts(parts@);
                let ghost shown = line@;
                parts.push(line);
                assert(text::texts(parts@) == before.push(shown));
                assert(stamped_texts(messages@).take(i + 1) == stamped_texts(messages@).take(
                    i as int,
                ).push(shown));
            }
            proof {
                reveal_strlit("\n");
                assert("\n"@ == seq!['\n']);
                assert(stamped_texts(messages@).take(n as int) == stamped_texts(messages@));
            }
            text::join(&parts, "\n")
        };
        let last = messages.pop().unwrap();
        (merged, batch.blocks, last)
    }
}

/// `batch` with one more message at its end.
fn extend_batch<B, P>(
    batch: PendingBatch<B, P>,
    message: ChannelMessage<P>,
    blocks: Option<Vec<B>>,
    now: Instant,
) -> (r: PendingBatch<B, P>)
    ensures
        r@ == extended(Some(batch@), message, opt_blocks(blocks), batch.agent_id, now),
        r.messages@.len() > 0,
{
    let mut messages = batch.messages;
    messages.push(message);
    let merged = match (batch.blocks, blocks) {
        (Some(mut existing), Some(mut new)) => {
            existing.append(&mut new);
            Some(existing)
        },
        (Some(existing), None) => Some(existing),
        (None, Some(new)) => Some(new),
        (None, None) => None,
    };
    PendingBatch { messages, blocks: merged, agent_id: batch.agent_id, first_arrived: now }
}

// ---------------------------------------------------------------------------
// The text of a batch
// ---------------------------------------------------------------------------

/// The text that stands for a message's content.
pub open spec fn content_text<P>(content: ChannelContent<P>) -> Seq<char> {
    match content {
        ChannelContent::Text(t) => t@,
        ChannelContent::Command { name, args } => if args@.len() == 0 {
            seq!['/'] + name@
        } else {
            seq!['/'] + name@ + seq![' '] + text::joined(text::texts(args@), seq![' '])
        },
        ChannelContent::Image { caption, .. } => caption_text(caption),
        ChannelContent::Voice { caption, .. } => caption_text(caption),
        ChannelContent::Video { caption, .. } => caption_text(caption),
        ChannelContent::Audio { caption, .. } => caption_text(caption),
        ChannelContent::File { .. } => "[file]"@,
        ChannelContent::FileData { .. } => "[file data]"@,
        ChannelContent::Sticker { .. } => "[sticker]"@,
        ChannelContent::Location { .. } => "[location]"@,
        ChannelContent::Animation { caption, .. } => caption_text(caption),
        ChannelContent::Interactive { text, .. } => text@,
        ChannelContent::ButtonCallback { action, .. } => "[button: "@ + action@ + "]"@,
        ChannelContent::Poll { question, .. } => "[poll: "@ + question@ + "]"@,
        ChannelContent::PollAnswer { .. } => "[poll answer]"@,
        ChannelContent::MediaGroup { .. } => "[media group]"@,
        ChannelContent::DeleteMessage { .. } => Seq::empty(),
        ChannelContent::EditInteractive { text, .. } => text@,
    }
}

/// A caption, or nothing where there is none.
pub open spec fn caption_text(caption: Option<String>) -> Seq<char> {
    match caption {
        Some(c) => c@,
        None => Seq::empty(),
    }
}

/// A message with the time of day in front.
pub open spec fn stamped_text<P>(message: ChannelMessage<P>) -> Seq<char> {
    seq!['['] + clock::hh_mm_ss(message.timestamp) + seq![']', ' '] + content_text(message.content)
}

/// Messages with the time of day in front of each.
pub open spec fn stamped_texts<P>(messages: Seq<ChannelMessage<P>>) -> Seq<Seq<char>> {
    Seq::new(messages.len(), |i: int| stamped_text(messages[i]))
}

/// The text of a batch: a single message as it stands, several one per line with the time of day
/// in front of each.
pub open spec fn merged_text<P>(messages: Seq<ChannelMessage<P>>) -> Seq<char> {
    if messages.len() == 1 {
        content_text(messages[0].content)
    } else {
        text::joined(stamped_texts(messages), seq!['\n'])
    }
}

fn caption_or_empty(caption: &Option<String>) -> (r: String)
    ensures
        r@ == caption_text(*caption),
{
    match caption {
        Some(c) => c.clone(),
        None => String::new(),
    }
}

/// The text that stands for a message's content.
pub fn content_to_text<P>(content: &ChannelContent<P>) -> (r: String)
    ensures
        r@ == content_text(*content),
{
    match content {
        ChannelContent::Text(t) => t.clone(),
        ChannelContent::Command { name, args } => {
            proof {
                reveal_strlit("/");
                reveal_strlit(" ");
                assert("/"@ == seq!['/']);
                assert(" "@ == seq![' ']);
            }
            let mut out = text::concat2("/", name.as_str());
            if args.len() > 0 {
                out.append(" ");
                out.append(text::join(args, " ").as_str());
            }
            out
        },
        ChannelContent::Image { caption, .. } => caption_or_empty(caption),
        ChannelContent::Voice { caption, .. } => caption_or_empty(caption),
        ChannelContent::Video { caption, .. } => caption_or_empty(caption),
        ChannelContent::Audio { caption, .. } => caption_or_empty(caption),
        ChannelContent::File { .. } => "[file]".to_owned(),
        ChannelContent::FileData { .. } => "[file data]".to_owned(),
        ChannelContent::Sticker { .. } => "[sticker]".to_owned(),
        ChannelContent::Location { .. } => "[location]".to_owned(),
        ChannelContent::Animation { caption, .. } => caption_or_empty(caption),
        ChannelContent::Interactive { text, .. } => text.clone(),
        ChannelContent::ButtonCallback { action, .. } => text::concat3(
            "[button: ",
            action.as_str(),
            "]",
        ),
        ChannelContent::Poll { question, .. } => text::concat3("[poll: ", question.as_str(), "]"),
        ChannelContent::PollAnswer { .. } => "[poll answer]".to_owned(),
        ChannelContent::MediaGroup { .. } => "[media group]".to_owned(),
        ChannelContent::DeleteMessage { .. } => String::new(),
        ChannelContent::EditInteractive { text, .. } => text.clone(),
    }
}

// ---------------------------------------------------------------------------
// Laws
// ---------------------------------------------------------------------------

/// A part up to the colon that ends it, and what follows, are determined by the text.
proof fn lemma_escaped_part(p: Seq<char>, x: Seq<char>, q: Seq<char>, y: Seq<char>)
    requires
        escaped(p) + seq![':'] + x == escaped(q) + seq![':'] + y,
    ensures
        p == q,
        x == y,
    decreases p.len(),
{
    let s = escaped(p) + seq![':'] + x;
    let t = escaped(q) + seq![':'] + y;
    if p.len() == 0 {
        assert(s[0] == ':');
        if q.len() > 0 {
            assert(t[0] == escaped_char(q.first())[0]);
        }
        assert(x == s.skip(1));
        assert(y == t.skip(1));
        assert(p == q);
    } else if q.len() == 0 {
        assert(t[0] == ':');
        assert(s[0] == escaped_char(p.first())[0]);
    } else {
        let a = escaped_char(p.first());
        let b = escaped_char(q.first());
        let p_rest = p.drop_first();
        let q_rest = q.drop_first();
        assert(s == a + (escaped(p_rest) + seq![':'] + x));
        assert(t == b + (escaped(q_rest) + seq![':'] + y));
        assert(s[0] == a[0] && t[0] == b[0]);
        if a.len() == 2 && b.len() == 2 {
            assert(s[1] == a[1] && t[1] == b[1]);
        }
        assert(p.first() == q.first());
        assert(escaped(p_rest) + seq![':'] + x == s.skip(a.len() as int));
        assert(escaped(q_rest) + seq![':'] + y == t.skip(b.len() as int));
        lemma_escaped_part(p_rest, x, q_rest, y);
        assert(p == seq![p.first()] + p_rest);
        assert(q == seq![q.first()] + q_rest);
    }
}

/// Keys that differ have texts that differ: every channel, chat and sender has a window of its
/// own.
pub proof fn law_key_texts_tell_keys_apart(a: CoalesceKey, b: CoalesceKey)
    ensures
        a.as_text() == b.as_text() <==> a@ == b@,
{
    if a.as_text() == b.as_text() {
        let (a_channel, a_chat, a_sender) = (a.channel@, a.chat_or_user@, a.sender_id@);
        let (b_channel, b_chat, b_sender) = (b.channel@, b.chat_or_user@, b.sender_id@);
        let a_back = escaped(a_chat) + seq![':'] + escaped(a_sender);
        let b_back = escaped(b_chat) + seq![':'] + escaped(b_sender);
        assert(a.as_text() == escaped(a_channel) + seq![':'] + a_back);
        assert(b.as_text() == escaped(b_channel) + seq![':'] + b_back);
        lemma_escaped_part(a_channel, a_back, b_channel, b_back);
        lemma_escaped_part(a_chat, escaped(a_sender), b_chat, escaped(b_sender));
        let none = Seq::<char>::empty();
        assert(escaped(a_sender) + seq![':'] + none == escaped(b_sender) + seq![':'] + none);
        lemma_escaped_part(a_sender, none, b_sender, none);
    }
}

/// A part without colons and backslashes stands in the text as it is.
pub proof fn law_plain_parts_are_kept(s: Seq<char>)
    requires
        !s.contains(':'),
        !s.contains('\\'),
    ensures
        escaped(s) == s,
    decreases s.len(),
{
    if s.len() > 0 {
        let rest = s.drop_first();
        assert(s[0] != ':' && s[0] != '\\');
        assert forall|c: char| rest.contains(c) implies s.contains(c) by {
            let i = choose|i: int| 0 <= i < rest.len() && rest[i] == c;
            assert(s[i + 1] == c);
        }
        law_plain_parts_are_kept(rest);
        assert(seq![s.first()] + rest == s);
    }
}

/// What one call of [`CoalescingDispatcher::push`] hands over.
pub struct Arrival<B, P> {
    pub message: ChannelMessage<P>,
    pub blocks: Option<Seq<B>>,
    pub agent_id: AgentId,
    pub now: Instant,
}

/// What is buffered after `arrivals` have been buffered under `key`, one after the other.
pub open spec fn after_pushes<B, P>(
    m: Map<Seq<char>, Batch<B, P>>,
    key: Seq<char>,
    arrivals: Seq<Arrival<B, P>>,
) -> Map<Seq<char>, Batch<B, P>>
    decreases arrivals.len(),
{
    if arrivals.len() == 0 {
        m
    } else {
        let a = arrivals.last();
        after_push(
            after_pushes(m, key, arrivals.drop_last()),
            key,
            a.message,
            a.blocks,
            a.agent_id,
            a.now,
        )
    }
}

/// The blocks of all arrivals, in order.
pub open spec fn all_blocks<B, P>(arrivals: Seq<Arrival<B, P>>) -> Option<Seq<B>>
    decreases arrivals.len(),
{
    if arrivals.len() == 0 {
        None
    } else {
        merged_blocks(all_blocks(arrivals.drop_last()), arrivals.last().blocks)
    }
}

/// A batch gives back what was pushed since its key was last empty: all messages and all blocks
/// in the order they came, for the agent that the first message was for. The other keys keep
/// what they had.
pub proof fn law_batch_is_what_was_pushed<B, P>(
    m: Map<Seq<char>, Batch<B, P>>,
    key: Seq<char>,
    arrivals: Seq<Arrival<B, P>>,
)
    requires
        !m.contains_key(key),
        arrivals.len() > 0,
    ensures
        batch_at(after_pushes(m, key, arrivals), key) == Some(
            Batch {
                messages: Seq::new(arrivals.len(), |i: int| arrivals[i].message),
                blocks: all_blocks(arrivals),
                agent_id: arrivals.first().agent_id,
                first_arrived: arrivals.last().now,
            },
        ),
        after_pushes(m, key, arrivals).remove(key) == m,
    decreases arrivals.len(),
{
    let before = arrivals.drop_last();
    let a = arrivals.last();
    let messages = Seq::new(arrivals.len(), |i: int| arrivals[i].message);
    let now = after_pushes(m, key, arrivals);
    if before.len() > 0 {
        law_batch_is_what_was_pushed(m, key, before);
        let earlier = Seq::new(before.len(), |i: int| before[i].message);
        assert(earlier.push(a.message) == messages);
        assert(before.first() == arrivals.first());
        let mid = after_pushes(m, key, before);
        assert(now.remove(key) =~= mid.remove(key));
    } else {
        assert(after_pushes(m, key, before) == m);
        assert(seq![a.message] == messages);
        assert(all_blocks(before) is None);
        assert(now.remove(key) =~= m);
    }
}

/// Two keys do not mix: what is pushed under one changes nothing under the other, and in
/// whichever order two messages for different keys come, the same is buffered.
pub proof fn law_keys_are_independent<B, P>(
    m: Map<Seq<char>, Batch<B, P>>,
    key: Seq<char>,
    a: Arrival<B, P>,
    other: Seq<char>,
    b: Arrival<B, P>,
)
    requires
        key != other,
    ensures
        batch_at(after_push(m, key, a.message, a.blocks, a.agent_id, a.now), other) == batch_at(
            m,
            other,
        ),
        after_push(
            after_push(m, key, a.message, a.blocks, a.agent_id, a.now),
            other,
            b.message,
            b.blocks,
            b.agent_id,
            b.now,
        ) == after_push(
            after_push(m, other, b.message, b.blocks, b.agent_id, b.now),
            key,
            a.message,
            a.blocks,
            a.agent_id,
            a.now,
        ),
{
    let left = after_push(
        after_push(m, key, a.message, a.blocks, a.agent_id, a.now),
        other,
        b.message,
        b.blocks,
        b.agent_id,
        b.now,
    );
    let right = after_push(
        after_push(m, other, b.message, b.blocks, b.agent_id, b.now),
        key,
        a.message,
        a.blocks,
        a.agent_id,
        a.now,
    );
    assert(left =~= right);
}

/// The timers of one key: when those that run are due, and when those that ran out flushed the
/// key. Times are whole numbers of some unit.
#[verifier::ext_equal]
pub struct KeyTimers {
    pub running: Seq<int>,
    pub flushed: Seq<int>,
}

/// The timers of a key at `now`: those that are due have run out.
pub open spec fn elapsed(timers: KeyTimers, now: int) -> KeyTimers {
    KeyTimers {
        running: timers.running.filter(|due: int| due > now),
        flushed: timers.flushed + timers.running.filter(|due: int| due <= now),
    }
}

/// The timers of a key after `action` was carried out for it at `now`, where a window is
/// `window` long.
pub open spec fn after_action(
    timers: KeyTimers,
    action: PushAction,
    now: int,
    window: int,
) -> KeyTimers {
    match action {
        PushAction::Dispatch => timers,
        PushAction::StartTimer { restart, .. } => KeyTimers {
            running: if restart {
                seq![now + window]
            } else {
                timers.running.push(now + window)
            },
            flushed: timers.flushed,
        },
    }
}

/// The timers of a key after its batch was taken out: none runs.
pub open spec fn after_drain(timers: KeyTimers) -> KeyTimers {
    KeyTimers { running: Seq::empty(), flushed: timers.flushed }
}

/// Whether timers fit what is buffered under their key: at most one runs, and none where nothing
/// is buffered.
pub open spec fn timers_fit(timers: KeyTimers, buffered: bool) -> bool {
    timers.running.len() <= if buffered {
        1int
    } else {
        0
    }
}

/// A message that is buffered leaves its key with exactly one timer, due a window later, whatever
/// ran before; taking the batch out leaves none; and time only stops timers.
pub proof fn law_one_timer_per_key(
    timers: KeyTimers,
    buffered: bool,
    action: PushAction,
    key: Seq<char>,
    duration: Duration,
    now: int,
    window: int,
)
    requires
        timers_fit(timers, buffered),
        starts_timer(action, key, buffered, duration),
    ensures
        after_action(timers, action, now, window).running == seq![now + window],
        timers_fit(after_action(timers, action, now, window), true),
        timers_fit(after_drain(timers), false),
        timers_fit(elapsed(timers, now), buffered),
{
    assert(after_action(timers, action, now, window).running =~= seq![now + window]);
    timers.running.lemma_filter_len(|due: int| due > now);
}

/// The timers of a key after `actions` were carried out for it at the times `at`, one after the
/// other, where none ran before.
pub open spec fn after_actions(actions: Seq<PushAction>, at: Seq<int>, window: int) -> KeyTimers
    decreases actions.len(),
{
    if actions.len() == 0 {
        KeyTimers { running: Seq::empty(), flushed: Seq::empty() }
    } else {
        after_action(
            elapsed(after_actions(actions.drop_last(), at.drop_last(), window), at.last()),
            actions.last(),
            at.last(),
            window,
        )
    }
}

/// The one timer of a key runs out when it is due, and not before.
proof fn lemma_one_timer_elapses(timers: KeyTimers, due: int, now: int)
    requires
        timers.running == seq![due],
    ensures
        elapsed(timers, now) == if now < due {
            timers
        } else {
            KeyTimers { running: Seq::empty(), flushed: timers.flushed.push(due) }
        },
{
    let all = timers.running;
    assert(all.drop_last() == Seq::<int>::empty());
    reveal_with_fuel(Seq::filter, 2);
    assert(all.filter(|d: int| d > now) =~= if now < due {
        all
    } else {
        Seq::empty()
    });
    assert(all.filter(|d: int| d <= now) =~= if now < due {
        Seq::empty()
    } else {
        all
    });
    assert(elapsed(timers, now).flushed =~= if now < due {
        timers.flushed
    } else {
        timers.flushed.push(due)
    });
}

/// Each new message restarts the window: messages of a key that come less than a window apart
/// flush it exactly once, a window after the last of them, and not before.
pub proof fn law_key_is_flushed_a_window_after_its_last_message<B, P>(
    m: Map<Seq<char>, Batch<B, P>>,
    key: Seq<char>,
    arrivals: Seq<Arrival<B, P>>,
    actions: Seq<PushAction>,
    duration: Duration,
    at: Seq<int>,
    window: int,
    until: int,
)
    requires
        !m.contains_key(key),
        arrivals.len() > 0,
        actions.len() == arrivals.len(),
        at.len() == arrivals.len(),
        forall|i: int|
            0 <= i < actions.len() ==> starts_timer(
                #[trigger] actions[i],
                key,
                after_pushes(m, key, arrivals.take(i)).contains_key(key),
                duration,
            ),
        forall|i: int| 0 < i < at.len() ==> at[i - 1] <= (#[trigger] at[i]) < at[i - 1] + window,
        at.last() <= until,
    ensures
        elapsed(after_actions(actions, at, window), until) == if until < at.last() + window {
            KeyTimers { running: seq![at.last() + window], flushed: Seq::empty() }
        } else {
            KeyTimers { running: Seq::empty(), flushed: seq![at.last() + window] }
        },
{
    lemma_window_runs(m, key, arrivals, actions, duration, at, window);
    let timers = after_actions(actions, at, window);
    lemma_one_timer_elapses(timers, at.last() + window, until);
    assert(timers.flushed.push(at.last() + window) =~= seq![at.last() + window]);
}

/// While messages of a key come less than a window apart, one timer runs and none runs out.
proof fn lemma_window_runs<B, P>(
    m: Map<Seq<char>, Batch<B, P>>,
    key: Seq<char>,
    arrivals: Seq<Arrival<B, P>>,
    actions: Seq<PushAction>,
    duration: Duration,
    at: Seq<int>,
    window: int,
)
    requires
        !m.contains_key(key),
        arrivals.len() > 0,
        actions.len() == arrivals.len(),
        at.len() == arrivals.len(),
        forall|i: int|
            0 <= i < actions.len() ==> starts_timer(
                #[trigger] actions[i],
                key,
                after_pushes(m, key, arrivals.take(i)).contains_key(key),
                duration,
            ),
        forall|i: int| 0 < i < at.len() ==> at[i - 1] <= (#[trigger] at[i]) < at[i - 1] + window,
    ensures
        after_actions(actions, at, window) == (KeyTimers {
            running: seq![at.last() + window],
            flushed: Seq::empty(),
        }),
    decreases arrivals.len(),
{
    let n = arrivals.len() as int;
    let (front, front_actions, front_at) = (
        arrivals.drop_last(),
        actions.drop_last(),
        at.drop_last(),
    );
    let before = after_actions(front_actions, front_at, window);
    assert(arrivals.take(n - 1) == front);
    let buffered = after_pushes(m, key, front).contains_key(key);
    assert(starts_timer(actions[n - 1], key, buffered, duration));
    if front.len() > 0 {
        assert forall|i: int| 0 <= i < front_actions.len() implies starts_timer(
            #[trigger] front_actions[i],
            key,
            after_pushes(m, key, front.take(i)).contains_key(key),
            duration,
        ) by {
            assert(front.take(i) == arrivals.take(i));
            assert(front_actions[i] == actions[i]);
        }
        assert forall|i: int| 0 < i < front_at.len() implies front_at[i - 1] <= (
        #[trigger] front_at[i]) < front_at[i - 1] + window by {
            assert(front_at[i] == at[i]);
        }
        lemma_window_runs(m, key, front, front_actions, duration, front_at, window);
        law_batch_is_what_was_pushed(m, key, front);
        assert(at[n - 1] < at[n - 2] + window);
        lemma_one_timer_elapses(before, front_at.last() + window, at.last());
    } else {
        assert(before.running == Seq::<int>::empty());
        reveal_with_fuel(Seq::filter, 1);
        assert(elapsed(before, at.last()) =~= before);
    }
    assert(after_actions(actions, at, window).running =~= seq![at.last() + window]);
}

/// What is buffered after the batches of `keys` have been taken out, one after the other.
pub open spec fn after_drains<B, P>(
    m: Map<Seq<char>, Batch<B, P>>,
    keys: Seq<Seq<char>>,
) -> Map<Seq<char>, Batch<B, P>>
    decreases keys.len(),
{
    if keys.len() == 0 {
        m
    } else {
        after_drains(m, keys.drop_last()).remove(keys.last())
    }
}

/// Taking out the batch of every key that has messages waiting, each once, finds a batch for each
/// and leaves nothing behind.
pub proof fn law_draining_every_key_leaves_nothing<B, P>(
    m: Map<Seq<char>, Batch<B, P>>,
    keys: Seq<Seq<char>>,
)
    requires
        keys.no_duplicates(),
        forall|key: Seq<char>| keys.contains(key) <==> m.contains_key(key),
    ensures
        after_drains(m, keys) == Map::<Seq<char>, Batch<B, P>>::empty(),
        forall|i: int|
            0 <= i < keys.len() ==> batch_at(
                #[trigger] after_drains(m, keys.take(i)),
                keys[i],
            ) == Some(m[keys[i]]),
{
    lemma_after_drains(m, keys);
    assert(after_drains(m, keys) =~= Map::<Seq<char>, Batch<B, P>>::empty());
    assert forall|i: int| 0 <= i < keys.len() implies batch_at(
        #[trigger] after_drains(m, keys.take(i)),
        keys[i],
    ) == Some(m[keys[i]]) by {
        let front = keys.take(i);
        lemma_after_drains(m, front);
        assert(keys.contains(keys[i]));
        assert(!front.contains(keys[i])) by {
            if front.contains(keys[i]) {
                let k = choose|k: int| 0 <= k < front.len() && front[k] == keys[i];
                assert(keys[k] == keys[i]);
            }
        }
    }
}

/// Taking batches out keeps the other keys as they are.
proof fn lemma_after_drains<B, P>(m: Map<Seq<char>, Batch<B, P>>, keys: Seq<Seq<char>>)
    ensures
        forall|key: Seq<char>|
            #![trigger after_drains(m, keys).contains_key(key)]
            after_drains(m, keys).contains_key(key) <==> m.contains_key(key) && !keys.contains(key),
        forall|key: Seq<char>|
            #![trigger after_drains(m, keys)[key]]
            after_drains(m, keys).contains_key(key) ==> after_drains(m, keys)[key] == m[key],
    decreases keys.len(),
{
    if keys.len() > 0 {
        let front = keys.drop_last();
        lemma_after_drains(m, front);
        assert forall|key: Seq<char>| keys.contains(key) == (front.contains(key) || key
            == keys.last()) by {
            if keys.contains(key) {
                let i = choose|i: int| 0 <= i < keys.len() && keys[i] == key;
                if i < front.len() {
                    assert(front[i] == key);
                }
            }
            if front.contains(key) {
                let i = choose|i: int| 0 <= i < front.len() && front[i] == key;
                assert(keys[i] == key);
            }
            assert(keys[keys.len() - 1] == keys.last());
        }
        let before = after_drains(m, front);
        let now = after_drains(m, keys);
        assert(now == before.remove(keys.last()));
        assert forall|key: Seq<char>| now.contains_key(key) implies #[trigger] now[key] == m[key] by {
            assert(before.contains_key(key));
            assert(now[key] == before[key]);
        }
    } else {
        assert forall|key: Seq<char>| !keys.contains(key) by {}
    }
}

/// An agent is busy from [`CoalescingDispatcher::mark_busy`] until
/// [`CoalescingDispatcher::mark_idle`], whatever happens to other agents.
pub proof fn law_busy_until_idle(busy: Set<u128>, agent: AgentId, other: AgentId)
    requires
        agent != other,
    ensures
        busy.insert(agent.0).contains(agent.0),
        !busy.insert(agent.0).remove(agent.0).contains(agent.0),
        busy.insert(agent.0).insert(other.0).contains(agent.0),
        busy.insert(agent.0).remove(other.0).contains(agent.0),
        busy.insert(agent.0).contains(other.0) == busy.contains(other.0),
        busy.remove(agent.0).contains(other.0) == busy.contains(other.0),
{
}

/// Every part stands in the joined text.
proof fn lemma_part_in_joined(parts: Seq<Seq<char>>, sep: Seq<char>, i: int)
    requires
        0 <= i < parts.len(),
    ensures
        text::occurs_in(text::joined(parts, sep), parts[i]),
    decreases parts.len(),
{
    let whole = text::joined(parts, sep);
    if parts.len() == 1 {
        assert(whole.subrange(0, whole.len() as int) == whole);
        assert(text::occurs_at(whole, parts[i], 0));
    } else {
        let front = text::joined(parts.drop_last(), sep);
        if i == parts.len() - 1 {
            let at = (front + sep).len() as int;
            assert(whole.subrange(at, at + parts[i].len()) == parts[i]);
            assert(text::occurs_at(whole, parts[i], at));
        } else {
            lemma_part_in_joined(parts.drop_last(), sep, i);
            assert(parts.drop_last()[i] == parts[i]);
            let at = choose|at: int| text::occurs_at(front, parts[i], at);
            assert(whole.subrange(at, at + parts[i].len()) == front.subrange(
                at,
                at + parts[i].len(),
            ));
            assert(text::occurs_at(whole, parts[i], at));
        }
    }
}

/// Merging drops no message: the text of each one stands in the merged text, with its time in
/// front of it where there are several.
pub proof fn law_merged_text_holds_every_message<P>(messages: Seq<ChannelMessage<P>>, i: int)
    requires
        0 <= i < messages.len(),
    ensures
        text::occurs_in(merged_text(messages), content_text(messages[i].content)),
        messages.len() > 1 ==> text::occurs_in(merged_text(messages), stamped_text(messages[i])),
{
    let whole = merged_text(messages);
    let own = content_text(messages[i].content);
    if messages.len() == 1 {
        assert(whole.subrange(0, whole.len() as int) == whole);
        assert(text::occurs_at(whole, own, 0));
    } else {
        let parts = stamped_texts(messages);
        lemma_part_in_joined(parts, seq!['\n'], i);
        let part = parts[i];
        let at = choose|at: int| text::occurs_at(whole, part, at);
        let inner = part.len() - own.len();
        assert(part.subrange(inner, part.len() as int) == own);
        assert(whole.subrange(at + inner, at + part.len()) == whole.subrange(
            at,
            at + part.len(),
        ).subrange(inner, part.len() as int));
        assert(text::occurs_at(whole, own, at + inner));
    }
}

/// How many blocks the first `i` arrivals bring together.
pub open spec fn blocks_before<B, P>(arrivals: Seq<Arrival<B, P>>, i: int) -> int
    decreases i,
{
    if i <= 0 {
        0
    } else {
        blocks_before(arrivals, i - 1) + match arrivals[i - 1].blocks {
            Some(b) => b.len() as int,
            None => 0,
        }
    }
}

/// The count of blocks of the first arrivals does not depend on those that follow.
proof fn lemma_blocks_before<B, P>(arrivals: Seq<Arrival<B, P>>, last: Arrival<B, P>, i: int)
    requires
        0 <= i <= arrivals.len(),
    ensures
        blocks_before(arrivals.push(last), i) == blocks_before(arrivals, i),
        0 <= blocks_before(arrivals, i),
    decreases i,
{
    if i > 0 {
        lemma_blocks_before(arrivals, last, i - 1);
    }
}

/// The counts of blocks grow from arrival to arrival.
proof fn lemma_blocks_before_grows<B, P>(arrivals: Seq<Arrival<B, P>>, i: int, k: int)
    requires
        0 <= i <= k <= arrivals.len(),
    ensures
        blocks_before(arrivals, i) <= blocks_before(arrivals, k),
    decreases k - i,
{
    if i < k {
        lemma_blocks_before_grows(arrivals, i, k - 1);
    }
}

/// The blocks of a batch are those of its arrivals, one after the other: there are as many as all
/// arrivals bring together, and block `j` of arrival `i` stands behind all blocks of the arrivals
/// before it. There are none to speak of only where no arrival brought any.
pub proof fn law_blocks_stand_one_after_the_other<B, P>(
    m: Map<Seq<char>, Batch<B, P>>,
    key: Seq<char>,
    arrivals: Seq<Arrival<B, P>>,
)
    requires
        !m.contains_key(key),
        arrivals.len() > 0,
    ensures
        after_pushes(m, key, arrivals).contains_key(key),
        match after_pushes(m, key, arrivals)[key].blocks {
            Some(all) => {
                &&& all.len() == blocks_before(arrivals, arrivals.len() as int)
                &&& exists|i: int|
                    0 <= i < arrivals.len() && (#[trigger] arrivals[i]).blocks is Some
                &&& forall|i: int, j: int|
                    #![trigger arrivals[i].blocks->0[j]]
                    0 <= i < arrivals.len() && arrivals[i].blocks is Some && 0 <= j
                        < arrivals[i].blocks->0.len() ==> 0 <= blocks_before(arrivals, i) + j
                        < all.len() && all[blocks_before(arrivals, i) + j]
                        == arrivals[i].blocks->0[j]
            },
            None => forall|i: int|
                0 <= i < arrivals.len() ==> (#[trigger] arrivals[i]).blocks is None,
        },
    decreases arrivals.len(),
{
    let front = arrivals.drop_last();
    let a = arrivals.last();
    let n = front.len() as int;
    assert(front.push(a) == arrivals);
    assert forall|i: int| 0 <= i <= n implies blocks_before(arrivals, i) == blocks_before(front, i)
        && 0 <= blocks_before(front, i) by {
        lemma_blocks_before(front, a, i);
    }
    assert(blocks_before(arrivals, n + 1) == blocks_before(front, n) + match a.blocks {
        Some(b) => b.len() as int,
        None => 0,
    });
    assert forall|i: int| 0 <= i < n implies blocks_before(front, i) + match arrivals[i].blocks {
        Some(b) => b.len() as int,
        None => 0,
    } <= blocks_before(front, n) by {
        lemma_blocks_before_grows(front, i + 1, n);
        assert(front[i] == arrivals[i]);
    }
    let now = after_pushes(m, key, arrivals);
    if n > 0 {
        law_blocks_stand_one_after_the_other(m, key, front);
        let before = after_pushes(m, key, front)[key].blocks;
        match now[key].blocks {
            Some(all) => {
                assert(exists|i: int|
                    0 <= i < arrivals.len() && (#[trigger] arrivals[i]).blocks is Some) by {
                    if a.blocks is Some {
                        assert(arrivals[n].blocks is Some);
                    } else {
                        let i = choose|i: int|
                            0 <= i < front.len() && (#[trigger] front[i]).blocks is Some;
                        assert(arrivals[i].blocks is Some);
                    }
                }
                assert forall|i: int, j: int|
                    #![trigger arrivals[i].blocks->0[j]]
                    0 <= i < arrivals.len() && arrivals[i].blocks is Some && 0 <= j
                        < arrivals[i].blocks->0.len() implies 0 <= blocks_before(arrivals, i) + j
                    < all.len() && all[blocks_before(arrivals, i) + j]
                    == arrivals[i].blocks->0[j] by {
                    if i < n {
                        assert(front[i].blocks->0[j] == arrivals[i].blocks->0[j]);
                        assert(before is Some);
                        assert(before->0[blocks_before(front, i) + j] == front[i].blocks->0[j]);
                    } else if before is None {
                        assert(blocks_before(front, n) == 0) by {
                            lemma_no_blocks(front, n);
                        }
                    }
                }
                if before is None {
                    lemma_no_blocks(front, n);
                }
            },
            None => {
                assert forall|i: int| 0 <= i < arrivals.len() implies (
                #[trigger] arrivals[i]).blocks is None by {
                    if i < n {
                        assert(front[i] == arrivals[i]);
                    }
                }
            },
        }
    } else {
        assert(after_pushes(m, key, front) == m);
        assert(blocks_before(front, 0) == 0);
        assert(arrivals[0] == a);
    }
}

/// Arrivals without blocks bring none.
proof fn lemma_no_blocks<B, P>(arrivals: Seq<Arrival<B, P>>, i: int)
    requires
        0 <= i <= arrivals.len(),
        forall|k: int| 0 <= k < arrivals.len() ==> (#[trigger] arrivals[k]).blocks is None,
    ensures
        blocks_before(arrivals, i) == 0,
    decreases i,
{
    if i > 0 {
        lemma_no_blocks(arrivals, i - 1);
        assert(arrivals[i - 1].blocks is None);
    }
}

/// A push puts its message behind the messages that are waiting under its key and its blocks
/// behind their blocks. The agent that the key was opened for stays, and every other key keeps
/// what it has.
pub proof fn law_push_appends<B, P>(
    m: Map<Seq<char>, Batch<B, P>>,
    key: Seq<char>,
    a: Arrival<B, P>,
)
    ensures
        ({
            let now = after_push(m, key, a.message, a.blocks, a.agent_id, a.now);
            &&& now.contains_key(key)
            &&& now[key].first_arrived == a.now
            &&& now[key].messages.last() == a.message
            &&& !m.contains_key(key) ==> {
                &&& now[key].messages.len() == 1
                &&& now[key].blocks == a.blocks
                &&& now[key].agent_id == a.agent_id
            }
            &&& m.contains_key(key) ==> {
                &&& now[key].messages.drop_last() == m[key].messages
                &&& now[key].agent_id == m[key].agent_id
                &&& a.blocks is None ==> now[key].blocks == m[key].blocks
                &&& m[key].blocks is None ==> now[key].blocks == a.blocks
                &&& m[key].blocks is Some && a.blocks is Some ==> now[key].blocks == Some(
                    m[key].blocks->0 + a.blocks->0,
                )
            }
            &&& forall|other: Seq<char>|
                other != key ==> (#[trigger] now.contains_key(other) == m.contains_key(other))
            &&& forall|other: Seq<char>| other != key ==> #[trigger] now[other] == m[other]
        }),
{
    let now = after_push(m, key, a.message, a.blocks, a.agent_id, a.now);
    if m.contains_key(key) {
        assert(now[key].messages.drop_last() =~= m[key].messages);
    }
}

/// A message is urgent if and only if its metadata hold the truth value `true` under that name.
pub proof fn law_urgent_is_the_flag<P>(message: ChannelMessage<P>)
    ensures
        is_urgent_spec(message) <==> message.metadata.value("urgent"@) == Some(
            crate::json::JsonTree::Bool(true),
        ),
{
}

/// An action that starts a timer names the key, says whether one runs already, and gives the
/// length of the window.
pub proof fn law_timer_is_the_one_asked_for(
    action: PushAction,
    key: Seq<char>,
    restart: bool,
    window: Duration,
)
    ensures
        starts_timer(action, key, restart, window) <==> match action {
            PushAction::Dispatch => false,
            PushAction::StartTimer { key: k, restart: r, window: w } => k@ == key && r == restart
                && w == window,
        },
{
}

/// Parts are written character by character: a colon and a backslash with a backslash in front,
/// any other character as it is.
pub proof fn law_parts_are_written_by_character(a: Seq<char>, c: char)
    ensures
        escaped(Seq::empty()) == Seq::<char>::empty(),
        escaped(a.push(c)) == if c == ':' || c == '\\' {
            escaped(a).push('\\').push(c)
        } else {
            escaped(a).push(c)
        },
    decreases a.len(),
{
    let all = a.push(c);
    let none = Seq::<char>::empty();
    if a.len() == 0 {
        assert(all.drop_first() == none);
        assert(escaped(none) == none);
        assert(escaped(a) == none);
        assert(escaped(all) == escaped_char(c) + none);
    } else {
        let rest = a.drop_first();
        assert(all.first() == a.first());
        assert(all.drop_first() == rest.push(c));
        law_parts_are_written_by_character(rest, c);
    }
}

/// A key whose parts hold neither colons nor backslashes is written channel, chat, sender, with
/// colons between them.
pub proof fn law_plain_keys_are_channel_chat_sender(key: CoalesceKey)
    requires
        !key.channel@.contains(':') && !key.channel@.contains('\\'),
        !key.chat_or_user@.contains(':') && !key.chat_or_user@.contains('\\'),
        !key.sender_id@.contains(':') && !key.sender_id@.contains('\\'),
    ensures
        key.as_text() == text::joined(
            seq![key.channel@, key.chat_or_user@, key.sender_id@],
            ":"@,
        ),
{
    law_plain_parts_are_kept(key.channel@);
    law_plain_parts_are_kept(key.chat_or_user@);
    law_plain_parts_are_kept(key.sender_id@);
    reveal_strlit(":");
    assert(":"@ == seq![':']);
    let parts = seq![key.channel@, key.chat_or_user@, key.sender_id@];
    assert(parts == seq![key.channel@] + seq![key.chat_or_user@, key.sender_id@]);
    assert(seq![key.chat_or_user@, key.sender_id@] == seq![key.chat_or_user@] + seq![
        key.sender_id@,
    ]);
    text::law_joining_puts_the_separator_between(
        seq![key.channel@],
        seq![key.chat_or_user@, key.sender_id@],
        ":"@,
    );
    text::law_joining_puts_the_separator_between(
        seq![key.chat_or_user@],
        seq![key.sender_id@],
        ":"@,
    );
    text::law_joining_puts_the_separator_between(
        seq![key.sender_id@],
        seq![key.sender_id@],
        ":"@,
    );
}

/// A message that stands alone is its text. Of two, each is a line of its own with the time of day
/// in brackets in front, and each further message adds such a line at the end.
pub proof fn law_each_message_adds_a_line<P>(
    messages: Seq<ChannelMessage<P>>,
    next: ChannelMessage<P>,
)
    requires
        messages.len() > 0,
    ensures
        merged_text(seq![next]) == content_text(next.content),
        ({
            let line = "\n["@ + clock::hh_mm_ss(next.timestamp) + "] "@ + content_text(
                next.content,
            );
            merged_text(messages.push(next)) == if messages.len() == 1 {
                "["@ + clock::hh_mm_ss(messages[0].timestamp) + "] "@ + merged_text(messages)
                    + line
            } else {
                merged_text(messages) + line
            }
        }),
{
    reveal_strlit("[");
    reveal_strlit("] ");
    reveal_strlit("\n[");
    assert("["@ == seq!['[']);
    assert("] "@ == seq![']', ' ']);
    assert("\n["@ == seq!['\n', '[']);
    let all = messages.push(next);
    let lines = stamped_texts(messages);
    assert(stamped_texts(all) == lines + seq![stamped_text(next)]);
    text::law_joining_puts_the_separator_between(lines, seq![stamped_text(next)], seq!['\n']);
    text::law_joining_puts_the_separator_between(
        seq![stamped_text(next)],
        seq![stamped_text(next)],
        seq!['\n'],
    );
    assert(seq!['\n'] + stamped_text(next) == "\n["@ + clock::hh_mm_ss(next.timestamp) + "] "@
        + content_text(next.content));
    let head = text::joined(lines, seq!['\n']);
    assert(head + seq!['\n'] + stamped_text(next) == head + (seq!['\n'] + stamped_text(next)));
    if messages.len() == 1 {
        assert(lines == seq![stamped_text(messages[0])]);
        assert(head == lines[0]);
    }
}

/// What stands for a message: a text and a caption as they are, a command as it is typed, with a
/// slash in front and its arguments behind it, a button and a poll with what they say, and for the
/// other kinds a word in brackets.
pub proof fn law_every_kind_of_content_has_a_text<P>(content: ChannelContent<P>)
    ensures
        content matches ChannelContent::Text(t) ==> content_text(content) == t@,
        content matches ChannelContent::Interactive { text: t, .. } ==> content_text(content)
            == t@,
        content matches ChannelContent::EditInteractive { text: t, .. } ==> content_text(content)
            == t@,
        content matches ChannelContent::Command { name, args } ==> content_text(content) == "/"@
            + text::joined(seq![name@] + text::texts(args@), " "@),
        content matches ChannelContent::Image { caption: Some(c), .. } ==> content_text(content)
            == c@,
        content matches ChannelContent::Voice { caption: Some(c), .. } ==> content_text(content)
            == c@,
        content matches ChannelContent::Video { caption: Some(c), .. } ==> content_text(content)
            == c@,
        content matches ChannelContent::Audio { caption: Some(c), .. } ==> content_text(content)
            == c@,
        content matches ChannelContent::Animation { caption: Some(c), .. } ==> content_text(content)
            == c@,
        content matches ChannelContent::Image { caption: None, .. } ==> content_text(content).len()
            == 0,
        content matches ChannelContent::Voice { caption: None, .. } ==> content_text(content).len()
            == 0,
        content matches ChannelContent::Video { caption: None, .. } ==> content_text(content).len()
            == 0,
        content matches ChannelContent::Audio { caption: None, .. } ==> content_text(content).len()
            == 0,
        content matches ChannelContent::Animation { caption: None, .. } ==> content_text(
            content,
        ).len() == 0,
        content is DeleteMessage ==> content_text(content).len() == 0,
        content matches ChannelContent::ButtonCallback { action, .. } ==> content_text(content)
            == "[button: "@ + action@ + "]"@,
        content matches ChannelContent::Poll { question, .. } ==> content_text(content)
            == "[poll: "@ + question@ + "]"@,
        content is File ==> content_text(content) == "[file]"@,
        content is FileData ==> content_text(content) == "[file data]"@,
        content is Sticker ==> content_text(content) == "[sticker]"@,
        content is Location ==> content_text(content) == "[location]"@,
        content is PollAnswer ==> content_text(content) == "[poll answer]"@,
        content is MediaGroup ==> content_text(content) == "[media group]"@,
{
    reveal_strlit("/");
    reveal_strlit(" ");
    assert("/"@ == seq!['/']);
    assert(" "@ == seq![' ']);
    if let ChannelContent::Command { name, args } = content {
        let rest = text::texts(args@);
        if rest.len() == 0 {
            assert(seq![name@] + rest == seq![name@]);
            assert(text::joined(seq![name@], " "@) == name@);
        } else {
            text::law_joining_puts_the_separator_between(seq![name@], rest, " "@);
            assert(seq!['/'] + name@ + seq![' '] + text::joined(rest, " "@) == seq!['/'] + (name@
                + seq![' '] + text::joined(rest, " "@)));
        }
    }
}

/// What is said of a batch is said of each of its fields, and of a key of each of its parts.
pub proof fn law_views_show_every_field<B, P>(batch: PendingBatch<B, P>, key: CoalesceKey)
    ensures
        batch@.messages == batch.messages@,
        batch.blocks matches Some(b) ==> batch@.blocks == Some(b@),
        batch.blocks is None ==> batch@.blocks is None,
        batch@.agent_id == batch.agent_id,
        batch@.first_arrived == batch.first_arrived,
        key@.0 == key.channel@,
        key@.1 == key.chat_or_user@,
        key@.2 == key.sender_id@,
{
}

} // verus!
