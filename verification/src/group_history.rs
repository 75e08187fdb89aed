//! Group messages that did not call for a reply, kept as context for the next
//! one.
use vstd::prelude::*;
use std::collections::VecDeque;

use crate::keyed::KeyedMap;
use crate::session::{KeyView, SessionKey};
use crate::text::{join_texts, joined, views};

verus! {

/// Stands before the buffered messages.
pub const HISTORY_HEADER: &'static str = "[Chat messages since your last reply — for context]";

/// Stands behind the buffered messages.
pub const HISTORY_FOOTER: &'static str = "[Current message — respond to this]";

/// One buffered message.
#[derive(Debug, PartialEq, Eq)]
pub struct GroupHistoryEntry {
    pub body: String,
}

/// The buffered messages of each group, oldest first.
pub struct GroupHistoryBuffer {
    buffers: KeyedMap<VecDeque<GroupHistoryEntry>>,
}

/// The bodies of buffered messages.
pub open spec fn bodies(e: Seq<GroupHistoryEntry>) -> Seq<Seq<char>> {
    Seq::new(e.len(), |i: int| e[i].body@)
}

/// A buffer after one more message: at the limit the oldest one leaves, and a
/// limit of zero keeps nothing new.
pub open spec fn recorded(e: Seq<Seq<char>>, body: Seq<char>, limit: int) -> Seq<Seq<char>> {
    if limit == 0 {
        e
    } else if e.len() >= limit {
        e.skip(1).push(body)
    } else {
        e.push(body)
    }
}

/// Whether a buffer has become another by one more message of a group: the
/// other groups keep theirs.
pub open spec fn records(
    before: GroupHistoryBuffer,
    after: GroupHistoryBuffer,
    key: KeyView,
    body: Seq<char>,
    limit: int,
) -> bool {
    &&& after.entries(key) == recorded(before.entries(key), body, limit)
    &&& forall|k: KeyView| k != key ==> #[trigger] after.entries(k) == before.entries(k)
}

/// The context that a buffer gives: the bodies on lines of their own between
/// the header and the footer.
pub open spec fn history_text(e: Seq<Seq<char>>) -> Seq<char> {
    joined(seq![HISTORY_HEADER@] + e + seq![HISTORY_FOOTER@], "\n"@)
}

/// The context of a buffer that is not empty.
pub open spec fn context_of(e: Seq<Seq<char>>) -> Option<Seq<char>> {
    if e.len() == 0 {
        None
    } else {
        Some(history_text(e))
    }
}

/// Writes buffered messages as context.
pub fn format_history(buf: &VecDeque<GroupHistoryEntry>) -> (r: String)
    ensures
        r@ == history_text(bodies(buf@)),
{
    let mut lines: Vec<String> = Vec::new();
    lines.push(HISTORY_HEADER.to_owned());
    assert(views(lines@) =~= seq![HISTORY_HEADER@] + bodies(buf@).take(0));
    let count: usize = buf.len();
    for i in 0..count
        invariant
            count == buf@.len(),
            views(lines@) == seq![HISTORY_HEADER@] + bodies(buf@).take(i as int),
    {
        let ghost before = views(lines@);
        lines.push(buf[i].body.clone());
        assert(views(lines@) =~= before.push(bodies(buf@)[i as int]));
        assert(views(lines@) =~= seq![HISTORY_HEADER@] + bodies(buf@).take(i + 1));
    }
    let ghost before = views(lines@);
    lines.push(HISTORY_FOOTER.to_owned());
    assert(views(lines@) =~= before.push(HISTORY_FOOTER@));
    assert(views(lines@) =~= seq![HISTORY_HEADER@] + bodies(buf@) + seq![HISTORY_FOOTER@]);
    join_texts(&lines, "\n")
}

impl GroupHistoryBuffer {
    /// The table behind the buffer is well-formed.
    pub closed spec fn wf(&self) -> bool {
        self.buffers.wf()
    }

    /// The buffered bodies of a group, oldest first.
    pub closed spec fn entries(&self, k: KeyView) -> Seq<Seq<char>> {
        if self.buffers@.contains_key(k) {
            bodies(self.buffers@[k]@)
        } else {
            Seq::empty()
        }
    }

    /// An empty buffer.
    pub fn new() -> (r: Self)
        ensures
            r.wf(),
            forall|k: KeyView| #[trigger] r.entries(k) == Seq::<Seq<char>>::empty(),
    {
        GroupHistoryBuffer { buffers: KeyedMap::new() }
    }

    /// Buffers a message of a group.
    pub fn record(&mut self, key: &SessionKey, entry: GroupHistoryEntry, limit: usize)
        requires
            old(self).wf(),
        ensures
            final(self).wf(),
            records(*old(self), *final(self), key@, entry.body@, limit as int),
    {
        if limit == 0 {
            return;
        }
        let ghost start = self.entries(key@);
        let mut buf = match self.buffers.remove(key) {
            Some(b) => b,
            None => VecDeque::new(),
        };
        assert(bodies(buf@) =~= start);
        if buf.len() >= limit {
            buf.pop_front();
            assert(bodies(buf@) =~= start.skip(1));
        }
        let ghost before = bodies(buf@);
        buf.push_back(entry);
        assert(bodies(buf@) =~= before.push(entry.body@));
        self.buffers.insert(key.clone(), buf);
    }

    /// The context of a group, which stays buffered.
    pub fn peek_context(&self, key: &SessionKey) -> (r: Option<String>)
        requires
            self.wf(),
        ensures
            crate::text::opt_view(r) == context_of(self.entries(key@)),
    {
        match self.buffers.get(key) {
            Some(buf) => if buf.len() == 0 {
                None
            } else {
                Some(format_history(buf))
            },
            None => None,
        }
    }

    /// The context of a group, which is then forgotten.
    pub fn drain_context(&mut self, key: &SessionKey) -> (r: Option<String>)
        requires
            old(self).wf(),
        ensures
            final(self).wf(),
            crate::text::opt_view(r) == context_of(old(self).entries(key@)),
            final(self).entries(key@) == Seq::<Seq<char>>::empty(),
            forall|k: KeyView| k != key@ ==> #[trigger] final(self).entries(k) == old(self).entries(k),
    {
        match self.buffers.remove(key) {
            Some(buf) => {
                let r = if buf.len() == 0 {
                    None
                } else {
                    Some(format_history(&buf))
                };
                let empty: VecDeque<GroupHistoryEntry> = VecDeque::new();
                self.buffers.insert(key.clone(), empty);
                assert(bodies(empty@) =~= Seq::empty());
                r
            },
            None => None,
        }
    }

    /// Forgets the messages of a group.
    pub fn clear(&mut self, key: &SessionKey)
        requires
            old(self).wf(),
        ensures
            final(self).wf(),
            final(self).entries(key@) == Seq::<Seq<char>>::empty(),
            forall|k: KeyView| k != key@ ==> #[trigger] final(self).entries(k) == old(self).entries(k),
    {
        self.buffers.remove(key);
    }
}

/// A buffer within its limit stays within it, and the newest message is
/// always the last one.
pub proof fn history_stays_within_limit(e: Seq<Seq<char>>, body: Seq<char>, limit: int)
    requires
        0 < limit,
        e.len() <= limit,
    ensures
        recorded(e, body, limit).len() <= limit,
        recorded(e, body, limit).last() == body,
{
}

/// What messages recorded one after the other under one limit leave: the
/// newest of them, as many as the limit allows, in the order in which they
/// came. A limit of zero leaves no context at all, and no other group changes.
pub proof fn newest_messages_stay(
    states: Seq<GroupHistoryBuffer>,
    key: KeyView,
    said: Seq<Seq<char>>,
    limit: int,
)
    requires
        0 <= limit,
        states.len() == said.len() + 1,
        states[0].entries(key).len() == 0,
        forall|i: int|
            #![trigger said[i]]
            0 <= i < said.len() ==> records(states[i], states[i + 1], key, said[i], limit),
    ensures
        states.last().entries(key) == said.skip(
            if said.len() > limit {
                said.len() - limit
            } else {
                0
            },
        ),
        states.last().entries(key).len() <= limit,
        limit == 0 ==> context_of(states.last().entries(key)) is None,
        forall|k: KeyView|
            k != key ==> #[trigger] states.last().entries(k) == states[0].entries(k),
    decreases said.len(),
{
    if said.len() == 0 {
        assert(states.last() == states[0]);
        assert(states[0].entries(key) =~= said.skip(0));
    } else {
        let earlier = states.drop_last();
        let n = said.len() - 1;
        assert forall|i: int|
            #![trigger said.drop_last()[i]]
            0 <= i < n implies records(
            earlier[i],
            earlier[i + 1],
            key,
            said.drop_last()[i],
            limit,
        ) by {
            assert(said.drop_last()[i] == said[i]);
            assert(earlier[i] == states[i] && earlier[i + 1] == states[i + 1]);
        }
        newest_messages_stay(earlier, key, said.drop_last(), limit);
        assert(earlier.last() == states[n]);
        assert(said[n] == said.last());
        assert(records(states[n], states[n + 1], key, said[n], limit));
        assert(states[n + 1] == states.last());
        let e = earlier.last().entries(key);
        assert(recorded(e, said.last(), limit) =~= said.skip(
            if said.len() > limit {
                said.len() - limit
            } else {
                0
            },
        ));
    }
}

} // verus!
