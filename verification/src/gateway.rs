//! The state of a gateway: the conversations it holds and what it knows about
//! each of them.
use vstd::prelude::*;

use crate::compaction::{CompactionState, StateView};
use crate::group_history::{GroupHistoryBuffer, GroupHistoryEntry};
use crate::keyed::KeyedMap;
use crate::message::{
    assistant_text, copy_messages, message_views, message_views_push, paired, user_text, Message,
    MessageView,
};
use crate::repair::{repair_history, repaired_from, repaired_history_is_paired};
use crate::session::{key_text, KeyView, KindView, SessionKey, SessionKind};
use crate::text::{
    cat3, comes_before, decimal, decimal_text, precedes, precedes_total, precedes_transitive,
    same_text, views,
};
use crate::usage::Usage;

verus! {

/// Tracks cumulative token usage and context size for a session.
#[derive(Debug, PartialEq, Eq)]
pub struct SessionUsage {
    pub cumulative: Usage,
    /// Input tokens of the last provider call (approximates the context size).
    pub last_input_tokens: u32,
}

impl SessionUsage {
    /// Nothing used yet.
    pub open spec fn zero() -> SessionUsage {
        SessionUsage { cumulative: Usage::zero(), last_input_tokens: 0 }
    }
}

impl Clone for SessionUsage {
    fn clone(&self) -> (r: Self)
        ensures
            r == *self,
    {
        SessionUsage {
            cumulative: self.cumulative.clone(),
            last_input_tokens: self.last_input_tokens,
        }
    }
}

/// The state of a gateway.
pub struct Gateway {
    agent_id: String,
    sessions: KeyedMap<Vec<Message>>,
    usage: KeyedMap<SessionUsage>,
    compactions: KeyedMap<(CompactionState, usize)>,
    pending: KeyedMap<Vec<String>>,
    epochs: KeyedMap<u64>,
    active: KeyedMap<bool>,
    group_history: GroupHistoryBuffer,
}

/// What the state of a gateway stands for.
#[verifier::ext_equal]
pub struct GatewayView {
    pub agent_id: Seq<char>,
    /// The messages of each session that is in memory.
    pub sessions: Map<KeyView, Seq<MessageView>>,
    /// The token usage of each session.
    pub usage: Map<KeyView, SessionUsage>,
    /// The compaction state of each session, with the number of messages it
    /// covers.
    pub compactions: Map<KeyView, (StateView, usize)>,
    /// Messages that came in during a turn.
    pub pending: Map<KeyView, Seq<Seq<char>>>,
    /// How often each session was started anew.
    pub epochs: Map<KeyView, u64>,
    /// The running turns, and whether each was cancelled.
    pub active: Map<KeyView, bool>,
}

/// The messages of each session.
pub open spec fn histories(m: Map<KeyView, Vec<Message>>) -> Map<KeyView, Seq<MessageView>> {
    Map::new(|k: KeyView| m.contains_key(k), |k: KeyView| message_views(m[k]@))
}

/// The texts of each session.
pub open spec fn text_lists(m: Map<KeyView, Vec<String>>) -> Map<KeyView, Seq<Seq<char>>> {
    Map::new(|k: KeyView| m.contains_key(k), |k: KeyView| views(m[k]@))
}

/// The compaction state of each session.
pub open spec fn states(m: Map<KeyView, (CompactionState, usize)>) -> Map<
    KeyView,
    (StateView, usize),
> {
    Map::new(|k: KeyView| m.contains_key(k), |k: KeyView| (m[k].0@, m[k].1))
}

impl View for Gateway {
    type V = GatewayView;

    closed spec fn view(&self) -> GatewayView {
        GatewayView {
            agent_id: self.agent_id@,
            sessions: histories(self.sessions@),
            usage: self.usage@,
            compactions: states(self.compactions@),
            pending: text_lists(self.pending@),
            epochs: self.epochs@,
            active: self.active@,
        }
    }
}

impl GatewayView {
    /// The messages of a session.
    pub open spec fn history(self, k: KeyView) -> Seq<MessageView> {
        if self.sessions.contains_key(k) {
            self.sessions[k]
        } else {
            Seq::empty()
        }
    }

    /// The token usage of a session.
    pub open spec fn usage_of(self, k: KeyView) -> SessionUsage {
        if self.usage.contains_key(k) {
            self.usage[k]
        } else {
            SessionUsage::zero()
        }
    }

    /// The messages that wait for a session.
    pub open spec fn waiting(self, k: KeyView) -> Seq<Seq<char>> {
        if self.pending.contains_key(k) {
            self.pending[k]
        } else {
            Seq::empty()
        }
    }

    /// How often a session was started anew.
    pub open spec fn epoch(self, k: KeyView) -> u64 {
        if self.epochs.contains_key(k) {
            self.epochs[k]
        } else {
            0
        }
    }

    /// The state with other messages in a session.
    pub open spec fn with_history(self, k: KeyView, m: Seq<MessageView>) -> GatewayView {
        GatewayView { sessions: self.sessions.insert(k, m), ..self }
    }

    /// The state with a message behind those of a session.
    pub open spec fn with_message(self, k: KeyView, m: MessageView) -> GatewayView {
        self.with_history(k, self.history(k).push(m))
    }
}

impl Gateway {
    /// The tables behind the state are well-formed.
    pub closed spec fn wf(&self) -> bool {
        &&& self.sessions.wf()
        &&& self.usage.wf()
        &&& self.compactions.wf()
        &&& self.pending.wf()
        &&& self.epochs.wf()
        &&& self.active.wf()
        &&& self.group_history.wf()
    }

    /// The buffered messages of a group.
    pub closed spec fn buffered(&self, k: KeyView) -> Seq<Seq<char>> {
        self.group_history.entries(k)
    }

    /// Whether the buffered group messages are the same as in another state.
    pub open spec fn same_buffers(&self, other: &Gateway) -> bool {
        forall|k: KeyView| #[trigger] self.buffered(k) == other.buffered(k)
    }

    /// A gateway without conversations.
    pub fn new(agent_id: String) -> (r: Self)
        ensures
            r.wf(),
            r@ == (GatewayView {
                agent_id: agent_id@,
                sessions: Map::empty(),
                usage: Map::empty(),
                compactions: Map::empty(),
                pending: Map::empty(),
                epochs: Map::empty(),
                active: Map::empty(),
            }),
            forall|k: KeyView| #[trigger] r.buffered(k) == Seq::<Seq<char>>::empty(),
    {
        let r = Gateway {
            agent_id,
            sessions: KeyedMap::new(),
            usage: KeyedMap::new(),
            compactions: KeyedMap::new(),
            pending: KeyedMap::new(),
            epochs: KeyedMap::new(),
            active: KeyedMap::new(),
            group_history: GroupHistoryBuffer::new(),
        };
        assert(histories(r.sessions@) =~= Map::empty());
        assert(states(r.compactions@) =~= Map::empty());
        assert(text_lists(r.pending@) =~= Map::empty());
        r
    }

    /// The agent's name.
    pub fn agent_id(&self) -> (r: String)
        ensures
            r@ == self@.agent_id,
    {
        self.agent_id.clone()
    }

    /// The agent's main session.
    pub fn default_session_key(&self) -> (r: SessionKey)
        ensures
            r@ == (KeyView { agent_id: self@.agent_id, kind: KindView::Main }),
    {
        SessionKey { agent_id: self.agent_id.clone(), kind: SessionKind::Main }
    }

    /// Whether the messages of a session are in memory.
    pub fn is_loaded(&self, key: &SessionKey) -> (r: bool)
        requires
            self.wf(),
        ensures
            r == self@.sessions.contains_key(key@),
    {
        self.sessions.contains(key)
    }

    /// The messages of a session. Where they are not in memory, `stored` is
    /// what the disk holds of them, and is kept unless it is empty.
    pub fn messages(&mut self, key: &SessionKey, stored: Vec<Message>) -> (r: Vec<Message>)
        requires
            old(self).wf(),
        ensures
            final(self).wf(),
            final(self).same_buffers(old(self)),
            final(self)@ == (if old(self)@.sessions.contains_key(key@) || stored@.len() == 0 {
                old(self)@
            } else {
                old(self)@.with_history(key@, message_views(stored@))
            }),
            message_views(r@) == final(self)@.history(key@),
    {
        let ghost before = self.sessions@;
        if !self.sessions.contains(key) && stored.len() > 0 {
            self.sessions.insert(key.clone(), stored);
            assert(histories(self.sessions@) =~= histories(before).insert(
                key@,
                message_views(stored@),
            ));
        }
        self.history(key)
    }

    /// The messages of a session that is in memory.
    pub fn history(&self, key: &SessionKey) -> (r: Vec<Message>)
        requires
            self.wf(),
        ensures
            message_views(r@) == self@.history(key@),
    {
        match self.sessions.get(key) {
            Some(m) => {
                let r = copy_messages(m.as_slice(), 0, m.len());
                assert(message_views(m@).subrange(0, m@.len() as int) =~= message_views(m@));
                r
            },
            None => {
                let r: Vec<Message> = Vec::new();
                assert(message_views(r@) =~= Seq::empty());
                r
            },
        }
    }

    /// The number of messages of a session that is in memory.
    pub fn session_message_count(&self, key: &SessionKey) -> (r: usize)
        requires
            self.wf(),
        ensures
            r == self@.history(key@).len(),
    {
        match self.sessions.get(key) {
            Some(m) => m.len(),
            None => 0,
        }
    }

    /// Puts a message behind those of a session.
    pub fn append_message(&mut self, key: &SessionKey, message: Message)
        requires
            old(self).wf(),
        ensures
            final(self).wf(),
            final(self).same_buffers(old(self)),
            final(self)@ == old(self)@.with_message(key@, message@),
    {
        let ghost before = self.sessions@;
        let ghost start = self@;
        let mut m = match self.sessions.remove(key) {
            Some(m) => m,
            None => Vec::new(),
        };
        assert(message_views(m@) =~= start.history(key@));
        let ghost old_m = m@;
        m.push(message);
        proof {
            message_views_push(old_m, message);
        }
        let ghost new_m = m@;
        self.sessions.insert(key.clone(), m);
        assert(histories(self.sessions@) =~= histories(before).insert(key@, message_views(new_m)));
    }

    /// Cuts the messages of a session back to the first `len`.
    pub fn truncate_session(&mut self, key: &SessionKey, len: usize)
        requires
            old(self).wf(),
        ensures
            final(self).wf(),
            final(self).same_buffers(old(self)),
            final(self)@ == old(self)@.truncated(key@, len),
    {
        let ghost before = self.sessions@;
        if let Some(m) = self.sessions.remove(key) {
            let mut m = m;
            let ghost all = m@;
            if len < m.len() {
                m.truncate(len);
                assert(message_views(m@) =~= message_views(all).take(len as int));
            }
            let ghost new_m = m@;
            self.sessions.insert(key.clone(), m);
            assert(histories(self.sessions@) =~= histories(before).insert(
                key@,
                message_views(new_m),
            ));
            proof {
                if len >= all.len() {
                    assert(new_m =~= all);
                    assert(histories(self.sessions@) =~= histories(before));
                }
            }
        } else {
            assert(histories(self.sessions@) =~= histories(before));
        }
    }

    /// Puts other messages in the place of those of a session.
    pub fn replace_session_messages(&mut self, key: &SessionKey, messages: Vec<Message>)
        requires
            old(self).wf(),
        ensures
            final(self).wf(),
            final(self).same_buffers(old(self)),
            final(self)@ == old(self)@.with_history(key@, message_views(messages@)),
    {
        let ghost before = self.sessions@;
        self.sessions.insert(key.clone(), messages);
        assert(histories(self.sessions@) =~= histories(before).insert(
            key@,
            message_views(messages@),
        ));
    }

    /// How often a session was started anew.
    pub fn session_epoch(&self, key: &SessionKey) -> (r: u64)
        requires
            self.wf(),
        ensures
            r == self@.epoch(key@),
    {
        match self.epochs.get(key) {
            Some(e) => *e,
            None => 0,
        }
    }

    /// Counts a new start of a session.
    pub fn bump_session_epoch(&mut self, key: &SessionKey) -> (r: u64)
        requires
            old(self).wf(),
            old(self)@.epoch(key@) < u64::MAX,
        ensures
            final(self).wf(),
            final(self).same_buffers(old(self)),
            r == old(self)@.epoch(key@) + 1,
            final(self)@ == (GatewayView {
                epochs: old(self)@.epochs.insert(key@, r),
                ..old(self)@
            }),
    {
        let next: u64 = self.session_epoch(key) + 1;
        self.epochs.insert(key.clone(), next);
        next
    }

    /// Forgets a session and counts a new start.
    pub fn clear_session(&mut self, key: &SessionKey) -> (r: u64)
        requires
            old(self).wf(),
            old(self)@.epoch(key@) < u64::MAX,
        ensures
            final(self).wf(),
            r == old(self)@.epoch(key@) + 1,
            final(self)@ == old(self)@.cleared(key@),
            final(self).buffered(key@) == Seq::<Seq<char>>::empty(),
            forall|k: KeyView|
                k != key@ ==> #[trigger] final(self).buffered(k) == old(self).buffered(k),
    {
        let ghost sessions = self.sessions@;
        let ghost compactions = self.compactions@;
        self.sessions.remove(key);
        self.group_history.clear(key);
        self.compactions.remove(key);
        self.usage.remove(key);
        assert(histories(self.sessions@) =~= histories(sessions).remove(key@));
        assert(states(self.compactions@) =~= states(compactions).remove(key@));
        self.bump_session_epoch(key)
    }

    /// The name of a session in the search index: its key, with the number of
    /// the conversation unless it is the first.
    pub fn search_index_key(&self, key: &SessionKey) -> (r: String)
        requires
            self.wf(),
        ensures
            r@ == index_key(key@, self@.epoch(key@)),
    {
        let epoch = self.session_epoch(key);
        let text = key.text();
        if epoch == 0 {
            text
        } else {
            let n = decimal_text(epoch);
            cat3(text.as_str(), "#", n.as_str())
        }
    }

    /// Starts a turn of a session, unless one is running.
    pub fn begin_turn(&mut self, key: &SessionKey) -> (r: bool)
        requires
            old(self).wf(),
        ensures
            final(self).wf(),
            final(self).same_buffers(old(self)),
            r == !old(self)@.active.contains_key(key@),
            final(self)@ == (if r {
                GatewayView { active: old(self)@.active.insert(key@, false), ..old(self)@ }
            } else {
                old(self)@
            }),
    {
        if self.active.contains(key) {
            return false;
        }
        self.active.insert(key.clone(), false);
        true
    }

    /// Ends the turn of a session.
    pub fn end_turn(&mut self, key: &SessionKey)
        requires
            old(self).wf(),
        ensures
            final(self).wf(),
            final(self).same_buffers(old(self)),
            final(self)@ == (GatewayView {
                active: old(self)@.active.remove(key@),
                ..old(self)@
            }),
    {
        self.active.remove(key);
    }

    /// Whether a turn of a session is running.
    pub fn has_active_turn(&self, key: &SessionKey) -> (r: bool)
        requires
            self.wf(),
        ensures
            r == self@.active.contains_key(key@),
    {
        self.active.contains(key)
    }

    /// Whether the running turn of a session was cancelled.
    pub fn is_cancelled(&self, key: &SessionKey) -> (r: bool)
        requires
            self.wf(),
        ensures
            r == self@.cancelled(key@),
    {
        match self.active.get(key) {
            Some(c) => *c,
            None => false,
        }
    }

    /// Cancels the running turn of a session. Returns whether anything was
    /// cancelled: that turn, or else subagent runs of the session.
    pub fn cancel_active_turn(&mut self, key: &SessionKey, cancelled_children: bool) -> (r: bool)
        requires
            old(self).wf(),
        ensures
            final(self).wf(),
            final(self).same_buffers(old(self)),
            r == (old(self)@.active.contains_key(key@) || cancelled_children),
            final(self)@ == (if old(self)@.active.contains_key(key@) {
                GatewayView { active: old(self)@.active.insert(key@, true), ..old(self)@ }
            } else {
                old(self)@
            }),
    {
        if self.active.contains(key) {
            self.active.insert(key.clone(), true);
            true
        } else {
            cancelled_children
        }
    }
}

impl GatewayView {
    /// The state with the messages of a session cut back to the first `len`.
    pub open spec fn truncated(self, k: KeyView, len: usize) -> GatewayView {
        if self.sessions.contains_key(k) && len < self.history(k).len() {
            self.with_history(k, self.history(k).take(len as int))
        } else {
            self
        }
    }

    /// The state after a session was forgotten and started anew.
    pub open spec fn cleared(self, k: KeyView) -> GatewayView {
        GatewayView {
            sessions: self.sessions.remove(k),
            compactions: self.compactions.remove(k),
            usage: self.usage.remove(k),
            epochs: self.epochs.insert(k, (self.epoch(k) + 1) as u64),
            ..self
        }
    }

    /// Whether the running turn of a session was cancelled.
    pub open spec fn cancelled(self, k: KeyView) -> bool {
        self.active.contains_key(k) && self.active[k]
    }
}

/// The name of a session in the search index.
pub open spec fn index_key(k: KeyView, epoch: u64) -> Seq<char> {
    if epoch == 0 {
        key_text(k)
    } else {
        key_text(k) + "#"@ + decimal(epoch as nat)
    }
}

/// Stands before a seeded chat history.
pub const SEED_HEADER: &'static str = "[Recent Signal chat history for context]\n";

/// Stands behind a seeded chat history.
pub const SEED_FOOTER: &'static str = "[End of history context]";

/// What the agent says to a seeded chat history.
pub const SEED_REPLY: &'static str = "I have context from the recent conversation history.";

/// Texts on lines of their own.
pub open spec fn text_lines(t: Seq<Seq<char>>) -> Seq<char>
    decreases t.len(),
{
    if t.len() == 0 {
        Seq::empty()
    } else {
        text_lines(t.drop_last()) + t.last() + "\n"@
    }
}

/// A history with the waiting texts behind it as user messages.
pub open spec fn with_texts(m: Seq<MessageView>, t: Seq<Seq<char>>) -> Seq<MessageView>
    decreases t.len(),
{
    if t.len() == 0 {
        m
    } else {
        with_texts(m, t.drop_last()).push(user_text(t.last()))
    }
}

impl GatewayView {
    /// The state after the waiting messages of a session joined it.
    pub open spec fn drained(self, k: KeyView) -> GatewayView {
        if self.waiting(k).len() == 0 {
            GatewayView { pending: self.pending.remove(k), ..self }
        } else {
            GatewayView {
                pending: self.pending.remove(k),
                sessions: self.sessions.insert(k, with_texts(self.history(k), self.waiting(k))),
                ..self
            }
        }
    }

    /// The state with another usage of a session.
    pub open spec fn with_usage(self, k: KeyView, u: SessionUsage) -> GatewayView {
        GatewayView { usage: self.usage.insert(k, u), ..self }
    }

    /// The compaction state of a session.
    pub open spec fn compaction(self, k: KeyView) -> Option<(StateView, usize)> {
        if self.compactions.contains_key(k) {
            Some(self.compactions[k])
        } else {
            None
        }
    }
}

/// The view of an optional compaction entry.
pub open spec fn opt_entry_view(e: Option<(CompactionState, usize)>) -> Option<(StateView, usize)> {
    match e {
        Some(e) => Some((e.0@, e.1)),
        None => None,
    }
}

impl Gateway {
    /// Queues a message for a running turn.
    pub fn inject_pending_inbound(&mut self, key: &SessionKey, content: String)
        requires
            old(self).wf(),
        ensures
            final(self).wf(),
            final(self).same_buffers(old(self)),
            final(self)@ == (GatewayView {
                pending: old(self)@.pending.insert(
                    key@,
                    old(self)@.waiting(key@).push(content@),
                ),
                ..old(self)@
            }),
    {
        let ghost before = self.pending@;
        let ghost start = self@;
        let mut q = match self.pending.remove(key) {
            Some(q) => q,
            None => Vec::new(),
        };
        assert(views(q@) =~= start.waiting(key@));
        let ghost old_q = q@;
        q.push(content);
        assert(views(q@) =~= views(old_q).push(content@));
        let ghost new_q = q@;
        self.pending.insert(key.clone(), q);
        assert(text_lists(self.pending@) =~= text_lists(before).insert(key@, views(new_q)));
    }

    /// Lets the waiting messages of a session join it as user messages. Called
    /// between the iterations of a turn, where no tool call is open.
    pub fn drain_pending_inbound(&mut self, key: &SessionKey)
        requires
            old(self).wf(),
        ensures
            final(self).wf(),
            final(self).same_buffers(old(self)),
            final(self)@ == old(self)@.drained(key@),
    {
        let ghost start = self@;
        let ghost before = self.pending@;
        let q = match self.pending.remove(key) {
            Some(q) => q,
            None => Vec::new(),
        };
        assert(views(q@) =~= start.waiting(key@));
        assert(text_lists(self.pending@) =~= text_lists(before).remove(key@));
        let ghost base = self@;
        let ghost t = views(q@);
        for i in 0..q.len()
            invariant
                self.wf(),
                self.same_buffers(old(self)),
                t == views(q@),
                i > 0 ==> self@ == (GatewayView {
                    sessions: base.sessions.insert(
                        key@,
                        with_texts(base.history(key@), t.take(i as int)),
                    ),
                    ..base
                }),
                i == 0 ==> self@ == base,
        {
            assert(t.take(i + 1).drop_last() =~= t.take(i as int));
            assert(t.take(i + 1).last() == q@[i as int]@);
            assert(t.take(0).len() == 0);
            assert(with_texts(base.history(key@), t.take(0)) == base.history(key@));
            let m = Message::user_saying(q[i].as_str());
            self.append_message(key, m);
            assert(self@.sessions =~= base.sessions.insert(
                key@,
                with_texts(base.history(key@), t.take(i + 1)),
            ));
        }
        assert(t.take(q.len() as int) =~= t);
    }

    /// The token usage of a session.
    pub fn session_usage(&self, key: &SessionKey) -> (r: SessionUsage)
        requires
            self.wf(),
        ensures
            r == self@.usage_of(key@),
    {
        match self.usage.get(key) {
            Some(u) => u.clone(),
            None => SessionUsage { cumulative: Usage::none(), last_input_tokens: 0 },
        }
    }

    /// Sets the token usage of a session.
    pub fn set_session_usage(&mut self, key: &SessionKey, usage: SessionUsage)
        requires
            old(self).wf(),
        ensures
            final(self).wf(),
            final(self).same_buffers(old(self)),
            final(self)@ == old(self)@.with_usage(key@, usage),
    {
        self.usage.insert(key.clone(), usage);
    }

    /// Records the context size of the last provider call, cached tokens
    /// included.
    pub fn update_last_input_tokens(&mut self, key: &SessionKey, usage: &Usage)
        requires
            old(self).wf(),
        ensures
            final(self).wf(),
            final(self).same_buffers(old(self)),
            final(self)@ == old(self)@.with_usage(
                key@,
                SessionUsage {
                    last_input_tokens: usage.context_tokens(),
                    ..old(self)@.usage_of(key@)
                },
            ),
    {
        let mut u = self.session_usage(key);
        u.last_input_tokens = usage.context_input_tokens();
        self.usage.insert(key.clone(), u);
    }

    /// Adds the usage of a completed turn. The context size of the last call
    /// stays as it is.
    pub fn record_turn_usage(&mut self, key: &SessionKey, turn_usage: &Usage)
        requires
            old(self).wf(),
        ensures
            final(self).wf(),
            final(self).same_buffers(old(self)),
            final(self)@ == old(self)@.with_usage(
                key@,
                SessionUsage {
                    cumulative: old(self)@.usage_of(key@).cumulative.plus(*turn_usage),
                    last_input_tokens: old(self)@.usage_of(key@).last_input_tokens,
                },
            ),
    {
        let mut u = self.session_usage(key);
        u.cumulative.add_usage(turn_usage);
        self.usage.insert(key.clone(), u);
    }

    /// The compaction state of a session in memory.
    pub fn cached_compaction(&self, key: &SessionKey) -> (r: Option<(CompactionState, usize)>)
        requires
            self.wf(),
        ensures
            opt_entry_view(r) == self@.compaction(key@),
    {
        match self.compactions.get(key) {
            Some(e) => Some((e.0.clone(), e.1)),
            None => None,
        }
    }

    /// The compaction state of a session. Where none is in memory, `stored` is
    /// what the disk holds; a state without a message count covers the
    /// messages that the session has now.
    pub fn get_compaction(&mut self, key: &SessionKey, stored: Option<CompactionState>) -> (r: Option<
        (CompactionState, usize),
    >)
        requires
            old(self).wf(),
        ensures
            final(self).wf(),
            final(self).same_buffers(old(self)),
            final(self)@ == old(self)@.with_stored_compaction(
                key@,
                crate::compaction::opt_state_view(stored),
            ),
            opt_entry_view(r) == final(self)@.compaction(key@),
    {
        if !self.compactions.contains(key) {
            if let Some(state) = stored {
                let count: usize = match state.messages_at_compaction {
                    Some(n) => n,
                    None => self.session_message_count(key),
                };
                self.set_compaction(key, state, count);
            }
        }
        self.cached_compaction(key)
    }

    /// Sets the compaction state of a session.
    pub fn set_compaction(&mut self, key: &SessionKey, state: CompactionState, messages_before: usize)
        requires
            old(self).wf(),
        ensures
            final(self).wf(),
            final(self).same_buffers(old(self)),
            final(self)@ == (GatewayView {
                compactions: old(self)@.compactions.insert(key@, (state@, messages_before)),
                ..old(self)@
            }),
    {
        let ghost before = self.compactions@;
        self.compactions.insert(key.clone(), (state, messages_before));
        assert(states(self.compactions@) =~= states(before).insert(
            key@,
            (state@, messages_before),
        ));
    }

    /// Seeds a session with a chat history, and lets the agent take note of
    /// it. An empty history changes nothing.
    pub fn seed_signal_history(&mut self, key: &SessionKey, history: &Vec<String>)
        requires
            old(self).wf(),
        ensures
            final(self).wf(),
            final(self).same_buffers(old(self)),
            final(self)@ == (if history@.len() == 0 {
                old(self)@
            } else {
                old(self)@.with_history(
                    key@,
                    old(self)@.history(key@).push(
                        user_text(SEED_HEADER@ + text_lines(views(history@)) + SEED_FOOTER@),
                    ).push(assistant_text(SEED_REPLY@)),
                )
            }),
    {
        if history.len() == 0 {
            return;
        }
        let ghost t = views(history@);
        let mut lines = String::new();
        for i in 0..history.len()
            invariant
                t == views(history@),
                lines@ == text_lines(t.take(i as int)),
        {
            assert(t.take(i + 1).drop_last() =~= t.take(i as int));
            assert(t.take(i + 1).last() == history@[i as int]@);
            lines.append(history[i].as_str());
            lines.append("\n");
        }
        assert(t.take(history.len() as int) =~= t);
        let context = cat3(SEED_HEADER, lines.as_str(), SEED_FOOTER);
        let ghost start = self@;
        let m = Message::user_saying(context.as_str());
        self.append_message(key, m);
        let r = Message::assistant_saying(SEED_REPLY);
        self.append_message(key, r);
        assert(self@.sessions =~= start.sessions.insert(key@, self@.history(key@)));
    }

    /// Buffers a group message that did not call for a reply.
    pub fn record_group_history(&mut self, key: &SessionKey, content: &str, limit: usize)
        requires
            old(self).wf(),
        ensures
            final(self).wf(),
            final(self)@ == old(self)@,
            final(self).buffered(key@) == crate::group_history::recorded(
                old(self).buffered(key@),
                content@,
                limit as int,
            ),
            forall|k: KeyView|
                k != key@ ==> #[trigger] final(self).buffered(k) == old(self).buffered(k),
    {
        self.group_history.record(key, GroupHistoryEntry { body: content.to_owned() }, limit);
    }

    /// The context of a group, which stays buffered.
    pub fn peek_group_history(&self, key: &SessionKey) -> (r: Option<String>)
        requires
            self.wf(),
        ensures
            crate::text::opt_view(r) == crate::group_history::context_of(self.buffered(key@)),
    {
        self.group_history.peek_context(key)
    }

    /// The context of a group, which is then forgotten.
    pub fn drain_group_history(&mut self, key: &SessionKey) -> (r: Option<String>)
        requires
            old(self).wf(),
        ensures
            final(self).wf(),
            final(self)@ == old(self)@,
            crate::text::opt_view(r) == crate::group_history::context_of(old(self).buffered(key@)),
            final(self).buffered(key@) == Seq::<Seq<char>>::empty(),
            forall|k: KeyView|
                k != key@ ==> #[trigger] final(self).buffered(k) == old(self).buffered(k),
    {
        self.group_history.drain_context(key)
    }

    /// Repairs the history of a session where a tool call is not answered.
    /// Returns whether there was anything to repair.
    pub fn repair_dangling_tool_use(&mut self, key: &SessionKey) -> (r: bool)
        requires
            old(self).wf(),
        ensures
            final(self).wf(),
            final(self).same_buffers(old(self)),
            r == !paired(old(self)@.history(key@)),
            final(self)@ == (if r {
                old(self)@.with_history(key@, repaired_from(old(self)@.history(key@), 0))
            } else {
                old(self)@
            }),
            paired(final(self)@.history(key@)),
    {
        let m = self.history(key);
        let ghost h = self@.history(key@);
        proof {
            repaired_history_is_paired(h, 0);
        }
        match repair_history(&m) {
            Some(fixed) => {
                self.replace_session_messages(key, fixed);
                true
            },
            None => false,
        }
    }

    /// Makes a session ready for a turn.
    pub fn prepare_session(&mut self, key: &SessionKey)
        requires
            old(self).wf(),
            key@.kind is Cron ==> old(self)@.epoch(key@) < u64::MAX,
        ensures
            final(self).wf(),
            final(self)@ == old(self)@.prepared(key@),
            paired(final(self)@.history(key@)),
            key@.kind is Cron ==> final(self)@.history(key@).len() == 0,
            forall|k: KeyView|
                k != key@ || !(key@.kind is Cron) ==> #[trigger] final(self).buffered(k) == old(
                    self,
                ).buffered(k),
    {
        if let SessionKind::Cron(_) = key.kind {
            self.clear_session(key);
            proof {
                cleared_session_is_fresh(old(self)@, key@);
            }
        }
        self.repair_dangling_tool_use(key);
    }
}

impl GatewayView {
    /// The state once a session is ready for a turn: a scheduled one has
    /// started anew, and in any other every tool call is answered.
    pub open spec fn prepared(self, k: KeyView) -> GatewayView {
        let g = if k.kind is Cron {
            self.cleared(k)
        } else {
            self
        };
        if paired(g.history(k)) {
            g
        } else {
            g.with_history(k, repaired_from(g.history(k), 0))
        }
    }

    /// The state after the stored compaction state of a session was taken in,
    /// where none was in memory.
    pub open spec fn with_stored_compaction(
        self,
        k: KeyView,
        stored: Option<StateView>,
    ) -> GatewayView {
        match stored {
            Some(s) => if self.compactions.contains_key(k) {
                self
            } else {
                let n = match s.messages_at_compaction {
                    Some(n) => n,
                    None => self.history(k).len() as usize,
                };
                GatewayView { compactions: self.compactions.insert(k, (s, n)), ..self }
            },
            None => self,
        }
    }
}

/// Different conversations of a session have different names in the search
/// index.
pub proof fn index_keys_differ(k: KeyView, a: u64, b: u64)
    requires
        a != b,
    ensures
        index_key(k, a) != index_key(k, b),
{
    reveal_strlit("#");
    if a == 0 || b == 0 {
        let x = if a == 0 { b } else { a };
        crate::text::decimal_nonempty(x as nat);
        assert(index_key(k, x).len() > key_text(k).len());
    } else if index_key(k, a) == index_key(k, b) {
        let n = (key_text(k) + "#"@).len() as int;
        assert(index_key(k, a).skip(n) =~= decimal(a as nat));
        assert(index_key(k, b).skip(n) =~= decimal(b as nat));
        crate::text::decimal_injective(a as nat, b as nat);
    }
}

/// A session started anew has no messages, no usage and no compaction state,
/// and a new name in the search index.
pub proof fn cleared_session_is_fresh(g: GatewayView, k: KeyView)
    requires
        g.epoch(k) < u64::MAX,
    ensures
        g.cleared(k).history(k) == Seq::<MessageView>::empty(),
        g.cleared(k).usage_of(k) == SessionUsage::zero(),
        g.cleared(k).compaction(k) is None,
        index_key(k, g.cleared(k).epoch(k)) != index_key(k, g.epoch(k)),
        forall|o: KeyView| o != k ==> #[trigger] g.cleared(k).history(o) == g.history(o),
{
    index_keys_differ(k, g.cleared(k).epoch(k), g.epoch(k));
}

/// Messages that join a session between iterations leave every tool call
/// answered.
pub proof fn draining_keeps_pairing(m: Seq<MessageView>, t: Seq<Seq<char>>)
    requires
        paired(m),
    ensures
        paired(with_texts(m, t)),
        with_texts(m, t).len() == m.len() + t.len(),
        m.is_prefix_of(with_texts(m, t)),
    decreases t.len(),
{
    if t.len() > 0 {
        draining_keeps_pairing(m, t.drop_last());
        let d = with_texts(m, t.drop_last());
        crate::message::paired_push_user(d, user_text(t.last()));
        assert(d.push(user_text(t.last())).take(m.len() as int) =~= d.take(m.len() as int));
    } else {
        assert(m.take(m.len() as int) =~= m);
    }
}

/// Whether keys stand in dictionary order of their text forms, each form once.
pub open spec fn in_key_order(keys: Seq<SessionKey>) -> bool {
    forall|i: int, j: int|
        0 <= i < j < keys.len() ==> precedes(
            key_text((#[trigger] keys[i])@),
            key_text((#[trigger] keys[j])@),
        )
}

/// Whether a list has a key with a text form.
pub open spec fn lists_text(keys: Seq<SessionKey>, t: Seq<char>) -> bool {
    exists|i: int| 0 <= i < keys.len() && key_text((#[trigger] keys[i])@) == t
}

/// Puts a key into an ordered list, unless its text form is there.
fn insert_key(keys: &mut Vec<SessionKey>, key: SessionKey)
    requires
        in_key_order(old(keys)@),
    ensures
        in_key_order(final(keys)@),
        lists_text(final(keys)@, key_text(key@)),
        forall|t: Seq<char>| lists_text(old(keys)@, t) ==> #[trigger] lists_text(final(keys)@, t),
        forall|i: int|
            0 <= i < final(keys)@.len() ==> (#[trigger] final(keys)@[i])@ == key@ || exists|j: int|
                0 <= j < old(keys)@.len() && (#[trigger] old(keys)@[j])@ == final(keys)@[i]@,
{
    let ghost start = keys@;
    let text = key.text();
    let n: usize = keys.len();
    let mut i: usize = 0;
    while i < n
        invariant_except_break
            n == keys@.len(),
            keys@ == start,
            i <= n,
            text@ == key_text(key@),
            forall|j: int| 0 <= j < i ==> precedes(key_text((#[trigger] start[j])@), text@),
        invariant
            in_key_order(start),
            n == start.len(),
        ensures
            keys@ == start,
            i <= n,
            forall|j: int| 0 <= j < i ==> precedes(key_text((#[trigger] start[j])@), text@),
            i < n ==> !precedes(key_text(start[i as int]@), text@),
        decreases n - i,
    {
        let t = keys[i].text();
        if !comes_before(t.as_str(), text.as_str()) {
            break;
        }
        i += 1;
    }
    if i < n {
        let t = keys[i].text();
        if same_text(t.as_str(), text.as_str()) {
            proof {
                assert(key_text(keys@[i as int]@) == text@);
                assert forall|x: int| 0 <= x < keys@.len() implies (#[trigger] keys@[x])@ == key@
                    || exists|j: int|
                    0 <= j < start.len() && (#[trigger] start[j])@ == keys@[x]@ by {
                    assert(start[x]@ == keys@[x]@);
                }
            }
            return;
        }
        proof {
            precedes_total(text@, key_text(start[i as int]@));
        }
    }
    keys.insert(i, key);
    proof {
        let now = keys@;
        assert(now == start.insert(i as int, key));
        assert forall|a: int, b: int| 0 <= a < b < now.len() implies precedes(
            key_text((#[trigger] now[a])@),
            key_text((#[trigger] now[b])@),
        ) by {
            if a < i && b < i {
                assert(now[a] == start[a] && now[b] == start[b]);
            } else if a < i && b == i {
                assert(now[a] == start[a]);
            } else if a < i {
                assert(now[a] == start[a] && now[b] == start[b - 1]);
            } else if a == i {
                assert(now[b] == start[b - 1]);
                if b - 1 > i {
                    assert(precedes(key_text(start[i as int]@), key_text(start[b - 1]@)));
                    precedes_transitive(
                        text@,
                        key_text(start[i as int]@),
                        key_text(start[b - 1]@),
                    );
                }
            } else {
                assert(now[a] == start[a - 1] && now[b] == start[b - 1]);
            }
        }
        assert(key_text(now[i as int]@) == text@);
        assert forall|t: Seq<char>| lists_text(start, t) implies #[trigger] lists_text(now, t) by {
            let j = choose|j: int| 0 <= j < start.len() && key_text((#[trigger] start[j])@) == t;
            if j < i {
                assert(key_text(now[j]@) == t);
            } else {
                assert(key_text(now[j + 1]@) == t);
            }
        }
        assert forall|x: int| 0 <= x < now.len() implies (#[trigger] now[x])@ == key@ || exists|
            j: int,
        |
            0 <= j < start.len() && (#[trigger] start[j])@ == now[x]@ by {
            if x < i {
                assert(start[x]@ == now[x]@);
            } else if x > i {
                assert(start[x - 1]@ == now[x]@);
            }
        }
    }
}

impl Gateway {
    /// The sessions in memory and the main session, in dictionary order of
    /// their text forms, each form once.
    pub fn list_sessions(&self) -> (r: Vec<SessionKey>)
        requires
            self.wf(),
        ensures
            in_key_order(r@),
            forall|k: KeyView|
                self@.sessions.contains_key(k) || k == (KeyView {
                    agent_id: self@.agent_id,
                    kind: KindView::Main,
                }) ==> #[trigger] lists_text(r@, key_text(k)),
            forall|i: int|
                0 <= i < r@.len() ==> self@.sessions.contains_key((#[trigger] r@[i])@) || r@[i]@
                    == (KeyView { agent_id: self@.agent_id, kind: KindView::Main }),
    {
        let main = self.default_session_key();
        let ghost main_view = main@;
        let all = self.sessions.keys();
        let mut out: Vec<SessionKey> = Vec::new();
        insert_key(&mut out, main);
        for i in 0..all.len()
            invariant
                main_view == (KeyView { agent_id: self@.agent_id, kind: KindView::Main }),
                in_key_order(out@),
                lists_text(out@, key_text(main_view)),
                forall|j: int| 0 <= j < i ==> lists_text(out@, key_text((#[trigger] all@[j])@)),
                forall|k: KeyView|
                    self.sessions@.contains_key(k) <==> exists|j: int|
                        0 <= j < all@.len() && (#[trigger] all@[j])@ == k,
                forall|x: int|
                    0 <= x < out@.len() ==> self@.sessions.contains_key((#[trigger] out@[x])@)
                        || out@[x]@ == main_view,
        {
            let ghost before = out@;
            insert_key(&mut out, all[i].clone());
            proof {
                assert(all@[i as int]@ == all@[i as int]@);
                assert forall|x: int| 0 <= x < out@.len() implies self@.sessions.contains_key(
                    (#[trigger] out@[x])@,
                ) || out@[x]@ == main_view by {
                    if out@[x]@ != all@[i as int]@ {
                        let j = choose|j: int|
                            0 <= j < before.len() && (#[trigger] before[j])@ == out@[x]@;
                        assert(self@.sessions.contains_key(before[j]@) || before[j]@ == main_view);
                    }
                }
            }
        }
        proof {
            assert forall|k: KeyView|
                self@.sessions.contains_key(k) || k == main_view implies #[trigger] lists_text(
                out@,
                key_text(k),
            ) by {
                if k != main_view {
                    let j = choose|j: int| 0 <= j < all@.len() && (#[trigger] all@[j])@ == k;
                    assert(lists_text(out@, key_text(all@[j]@)));
                }
            }
        }
        out
    }
}

} // verus!
