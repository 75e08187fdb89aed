//! What holds of sessions: an operation on one leaves the others alone, their
//! names tell them apart, and a repaired history keeps what was recorded.
use vstd::prelude::*;

use crate::compaction::StateView;
use crate::gateway::{
    in_key_order, index_key, lists_text, text_lines, GatewayView, SessionUsage,
};
use crate::message::{
    answered, is_result_of, paired, requests_in, ContentView, MessageView, RequestView, Role,
};
use crate::repair::{
    first_result, full_answer, other_parts, repaired_from, repaired_history_is_paired, repeats_id,
    result_for,
};
use crate::session::{
    hyphenated, key_text, parsed_key, uuid_number, KeyView, KindView, SessionKey, TrustLevel,
};
use crate::text::{after_prefix, decimal, precedes};

verus! {

/// A message goes behind those of its session, and nowhere else.
pub proof fn messages_go_to_their_session(g: GatewayView, k: KeyView, m: MessageView, o: KeyView)
    ensures
        g.with_message(k, m).history(k) == g.history(k).push(m),
        o != k ==> g.with_message(k, m).history(o) == g.history(o),
        g.with_message(k, m).usage_of(o) == g.usage_of(o),
        g.with_message(k, m).waiting(o) == g.waiting(o),
        g.with_message(k, m).compaction(o) == g.compaction(o),
        g.with_message(k, m).epoch(o) == g.epoch(o),
        g.with_message(k, m).cancelled(o) == g.cancelled(o),
{
}

/// Cutting a session back keeps its first messages, as many as it is cut to,
/// and touches no other session.
pub proof fn sessions_are_cut_back(g: GatewayView, k: KeyView, len: usize, o: KeyView)
    ensures
        len <= g.history(k).len() ==> g.truncated(k, len).history(k) == g.history(k).take(
            len as int,
        ),
        len >= g.history(k).len() ==> g.truncated(k, len).history(k) == g.history(k),
        o != k ==> g.truncated(k, len).history(o) == g.history(o),
        g.truncated(k, len).usage_of(o) == g.usage_of(o),
        g.truncated(k, len).compaction(o) == g.compaction(o),
        g.truncated(k, len).waiting(o) == g.waiting(o),
{
    let h = g.history(k);
    assert(h.take(h.len() as int) =~= h);
    if len <= h.len() && !g.sessions.contains_key(k) {
        assert(h.take(len as int) =~= h);
    }
}

/// A session started anew is empty, and one count further; every other session
/// is as it was.
pub proof fn clearing_stays_in_the_session(g: GatewayView, k: KeyView, o: KeyView)
    requires
        g.epoch(k) < u64::MAX,
    ensures
        g.cleared(k).history(k).len() == 0,
        g.cleared(k).epoch(k) == g.epoch(k) + 1,
        g.cleared(k).compaction(k) is None,
        g.cleared(k).usage_of(k).last_input_tokens == 0,
        o != k ==> {
            &&& g.cleared(k).history(o) == g.history(o)
            &&& g.cleared(k).usage_of(o) == g.usage_of(o)
            &&& g.cleared(k).compaction(o) == g.compaction(o)
            &&& g.cleared(k).epoch(o) == g.epoch(o)
        },
        g.cleared(k).waiting(o) == g.waiting(o),
        g.cleared(k).cancelled(o) == g.cancelled(o),
{
}

/// The usage of a session is what was last set, and zero before.
pub proof fn usage_is_kept_by_session(g: GatewayView, k: KeyView, u: SessionUsage, o: KeyView)
    ensures
        g.with_usage(k, u).usage_of(k) == u,
        o != k ==> g.with_usage(k, u).usage_of(o) == g.usage_of(o),
        g.with_usage(k, u).history(o) == g.history(o),
{
}

/// A session that is made ready has every tool call answered. A scheduled
/// task's begins empty; another is kept as it is where its calls are answered.
pub proof fn ready_sessions_are_paired(g: GatewayView, k: KeyView, o: KeyView)
    ensures
        paired(g.prepared(k).history(k)),
        k.kind is Cron ==> g.prepared(k).history(k).len() == 0,
        !(k.kind is Cron) && paired(g.history(k)) ==> g.prepared(k) == g,
        o != k ==> g.prepared(k).history(o) == g.history(o),
{
    let a = if k.kind is Cron {
        g.cleared(k)
    } else {
        g
    };
    repaired_history_is_paired(a.history(k), 0);
    if k.kind is Cron {
        assert(paired(g.cleared(k).history(k)));
    }
}

/// A compaction from the store is taken in where the session has none, with
/// the messages that it covers, and never replaces one.
pub proof fn stored_compactions_are_taken_in(g: GatewayView, k: KeyView, s: StateView, o: KeyView)
    ensures
        g.compaction(k) is None && s.messages_at_compaction is Some ==> g.with_stored_compaction(
            k,
            Some(s),
        ).compaction(k) == Some((s, s.messages_at_compaction->0)),
        g.compaction(k) is None && s.messages_at_compaction is None ==> g.with_stored_compaction(
            k,
            Some(s),
        ).compaction(k) == Some((s, g.history(k).len() as usize)),
        g.compaction(k) is Some ==> g.with_stored_compaction(k, Some(s)) == g,
        g.with_stored_compaction(k, None) == g,
        o != k ==> g.with_stored_compaction(k, Some(s)).compaction(o) == g.compaction(o),
        g.with_stored_compaction(k, Some(s)).history(o) == g.history(o),
{
}

/// A session is written as its agent, a colon and its kind; in the search index
/// one that was started anew has its count behind that.
pub proof fn sessions_are_written_so(agent_id: Seq<char>, x: Seq<char>, u: u128, epoch: u64)
    ensures
        key_text(KeyView { agent_id, kind: KindView::Main }) == agent_id + ":"@ + "main"@,
        key_text(KeyView { agent_id, kind: KindView::Dm(x) }) == agent_id + ":"@ + ("dm:"@ + x),
        key_text(KeyView { agent_id, kind: KindView::Group(x) }) == agent_id + ":"@ + ("group:"@
            + x),
        key_text(KeyView { agent_id, kind: KindView::Cron(x) }) == agent_id + ":"@ + ("cron:"@ + x),
        key_text(KeyView { agent_id, kind: KindView::Isolated(u) }) == agent_id + ":"@ + (
        "isolated:"@ + hyphenated(u)),
        key_text(KeyView { agent_id, kind: KindView::Subagent(u) }) == agent_id + ":"@ + (
        "subagent:"@ + hyphenated(u)),
        ({
            let k = KeyView { agent_id, kind: KindView::Dm(x) };
            &&& index_key(k, 0) == key_text(k)
            &&& epoch > 0 ==> index_key(k, epoch) == key_text(k) + "#"@ + decimal(epoch as nat)
        }),
{
}

/// What is read as a session is written so: the agent's main session by its
/// short name, any other by the agent and its kind; nothing else is one.
pub proof fn sessions_are_read_as_written(s: Seq<char>, agent_id: Seq<char>)
    ensures
        parsed_key("main"@, agent_id) == Some(KeyView { agent_id, kind: KindView::Main }),
        s != "main"@ ==> match parsed_key(s, agent_id) {
            Some(k) => {
                &&& k.agent_id == agent_id
                &&& match k.kind {
                    KindView::Isolated(u) => exists|t: Seq<char>|
                        s == agent_id + ":"@ + ("isolated:"@ + t) && #[trigger] uuid_number(t)
                            is Some,
                    KindView::Subagent(u) => exists|t: Seq<char>|
                        s == agent_id + ":"@ + ("subagent:"@ + t) && #[trigger] uuid_number(t)
                            is Some,
                    _ => s == key_text(k),
                }
            },
            None => true,
        },
{
    let p = agent_id + ":"@;
    if s != "main"@ && parsed_key(s, agent_id) is Some {
        let k = parsed_key(s, agent_id)->0;
        let rest = s.skip(p.len() as int);
        assert(p + rest =~= s);
        match k.kind {
            KindView::Main => {},
            KindView::Dm(x) => {
                assert("dm:"@ + x =~= rest);
            },
            KindView::Group(x) => {
                assert("group:"@ + x =~= rest);
            },
            KindView::Cron(x) => {
                assert("cron:"@ + x =~= rest);
            },
            KindView::Isolated(u) => {
                let t = after_prefix(rest, "isolated:"@)->0;
                assert("isolated:"@ + t =~= rest);
                assert(uuid_number(t) is Some);
            },
            KindView::Subagent(u) => {
                let t = after_prefix(rest, "subagent:"@)->0;
                assert("subagent:"@ + t =~= rest);
                assert(uuid_number(t) is Some);
            },
        }
    }
}

/// The levels of trust, from the owner to the public, each below the one
/// before.
pub proof fn trust_is_ordered()
    ensures
        TrustLevel::Owner.rank() < TrustLevel::Full.rank(),
        TrustLevel::Full.rank() < TrustLevel::Inner.rank(),
        TrustLevel::Inner.rank() < TrustLevel::Familiar.rank(),
        TrustLevel::Familiar.rank() < TrustLevel::Public.rank(),
{
}

/// A seeded history has each text on a line of its own, in order.
pub proof fn seeded_texts_have_lines(a: Seq<Seq<char>>, b: Seq<Seq<char>>, x: Seq<char>)
    ensures
        text_lines(a + b) == text_lines(a) + text_lines(b),
        text_lines(seq![x]) == x + "\n"@,
    decreases b.len(),
{
    assert(seq![x].drop_last() =~= Seq::empty());
    assert(text_lines(seq![x].drop_last()) =~= Seq::empty());
    assert(text_lines(seq![x]) =~= x + "\n"@);
    if b.len() == 0 {
        assert(a + b =~= a);
        assert(text_lines(a) + text_lines(b) =~= text_lines(a));
    } else {
        seeded_texts_have_lines(a, b.drop_last(), x);
        assert((a + b).drop_last() =~= a + b.drop_last());
        assert(text_lines(a + b) =~= text_lines(a) + text_lines(b));
    }
}

proof fn first_result_at(c: Seq<ContentView>, id: Seq<char>, n: int, p: int)
    requires
        0 <= p < n <= c.len(),
        is_result_of(c[p], id),
        forall|j: int| 0 <= j < p ==> !is_result_of(#[trigger] c[j], id),
    ensures
        first_result(c, id, n) == Some(c[p]),
    decreases n,
{
    if n - 1 > p {
        first_result_at(c, id, n - 1, p);
    } else {
        no_first_result(c, id, p);
    }
}

proof fn no_first_result(c: Seq<ContentView>, id: Seq<char>, n: int)
    requires
        n <= c.len(),
        forall|j: int| 0 <= j < n ==> !is_result_of(#[trigger] c[j], id),
    ensures
        first_result(c, id, n) is None,
    decreases n,
{
    if n > 0 {
        no_first_result(c, id, n - 1);
    }
}

/// A repaired answer has one result for each call, in the order of the calls:
/// the one that was recorded, where there is one, else an error that says that
/// it was lost.
pub proof fn recorded_results_survive(
    calls: Seq<RequestView>,
    c: Seq<ContentView>,
    k: int,
    p: int,
)
    requires
        0 <= k < calls.len(),
        forall|j: int| 0 <= j < calls.len() && j != k ==> (#[trigger] calls[j]).id != calls[k].id,
    ensures
        full_answer(calls, c).role == Role::User,
        full_answer(calls, c).content.len() >= calls.len(),
        0 <= p < c.len() && c[p] is ToolResult && c[p]->ToolResult_id == calls[k].id && (forall|
            j: int,
        |
            0 <= j < p && #[trigger] c[j] is ToolResult ==> c[j]->ToolResult_id != calls[k].id)
            ==> full_answer(calls, c).content[k] == c[p],
        (forall|j: int|
            0 <= j < c.len() && #[trigger] c[j] is ToolResult ==> c[j]->ToolResult_id
                != calls[k].id) ==> full_answer(calls, c).content[k] == (ContentView::ToolResult {
            id: calls[k].id,
            output: "error: previous turn was interrupted before this tool result was recorded"@,
            is_error: true,
        }),
{
    let id = calls[k].id;
    assert(!repeats_id(calls, k)) by {
        if repeats_id(calls, k) {
            let j = choose|j: int| 0 <= j < k && (#[trigger] calls[j]).id == calls[k].id;
            assert(calls[j].id != id);
        }
    }
    assert(full_answer(calls, c).content[k] == result_for(calls, c, k));
    if 0 <= p < c.len() && c[p] is ToolResult && c[p]->ToolResult_id == id && (forall|j: int|
        0 <= j < p && #[trigger] c[j] is ToolResult ==> c[j]->ToolResult_id != id) {
        assert forall|j: int| 0 <= j < p implies !is_result_of(#[trigger] c[j], id) by {}
        first_result_at(c, id, c.len() as int, p);
    }
    if forall|j: int|
        0 <= j < c.len() && #[trigger] c[j] is ToolResult ==> c[j]->ToolResult_id != id {
        assert forall|j: int| 0 <= j < c.len() implies !is_result_of(#[trigger] c[j], id) by {}
        no_first_result(c, id, c.len() as int);
    }
}

/// What a repaired message holds besides the results of the calls stays, in
/// order.
pub proof fn other_parts_survive(
    calls: Seq<RequestView>,
    a: Seq<ContentView>,
    b: Seq<ContentView>,
    x: ContentView,
)
    ensures
        other_parts(calls, a + b) == other_parts(calls, a) + other_parts(calls, b),
        other_parts(calls, seq![x]) == (if x is ToolResult && exists|k: int|
            0 <= k < calls.len() && (#[trigger] calls[k]).id == x->ToolResult_id {
            Seq::empty()
        } else {
            seq![x]
        }),
        full_answer(calls, a).content.skip(calls.len() as int) == other_parts(calls, a),
    decreases b.len(),
{
    assert(full_answer(calls, a).content.skip(calls.len() as int) =~= other_parts(calls, a));
    assert(seq![x].drop_last() =~= Seq::empty());
    assert(other_parts(calls, seq![x].drop_last()) =~= Seq::empty());
    assert(crate::repair::is_expected(calls, x) <==> x is ToolResult && exists|k: int|
        0 <= k < calls.len() && (#[trigger] calls[k]).id == x->ToolResult_id) by {
        if crate::repair::is_expected(calls, x) {
            let k = choose|k: int|
                0 <= k < calls.len() && is_result_of(x, (#[trigger] calls[k]).id);
            assert(calls[k].id == x->ToolResult_id);
        }
        if x is ToolResult && exists|k: int|
            0 <= k < calls.len() && (#[trigger] calls[k]).id == x->ToolResult_id {
            let k = choose|k: int|
                0 <= k < calls.len() && (#[trigger] calls[k]).id == x->ToolResult_id;
            assert(is_result_of(x, calls[k].id));
        }
    }
    assert(other_parts(calls, seq![x]) =~= (if crate::repair::is_expected(calls, x) {
        Seq::empty()
    } else {
        seq![x]
    }));
    if b.len() == 0 {
        assert(a + b =~= a);
        assert(other_parts(calls, a) + other_parts(calls, b) =~= other_parts(calls, a));
    } else {
        other_parts_survive(calls, a, b.drop_last(), x);
        assert((a + b).drop_last() =~= a + b.drop_last());
        assert(other_parts(calls, a + b) =~= other_parts(calls, a) + other_parts(calls, b));
    }
}

proof fn assistants_survive_from(m: Seq<MessageView>, i: int, p: int)
    requires
        0 <= i <= p < m.len(),
        m[p].role == Role::Assistant,
    ensures
        repaired_from(m, i).contains(m[p]),
    decreases m.len() - i,
{
    let all = repaired_from(m, i);
    if p == i {
        assert(all[0] == m[p]);
    } else {
        let (step, at) = if answered(m, i) {
            (i + 1, 1int)
        } else if i + 1 < m.len() && m[i + 1].role == Role::User {
            (i + 2, 2int)
        } else {
            (i + 1, 2int)
        };
        assistants_survive_from(m, step, p);
        let rest = repaired_from(m, step);
        let q = choose|q: int| 0 <= q < rest.len() && rest[q] == m[p];
        assert(all[q + at] == m[p]);
    }
}

/// Repair keeps every message of the agent, and never shortens a history.
pub proof fn repair_keeps_what_was_said(m: Seq<MessageView>, p: int)
    requires
        0 <= p < m.len(),
    ensures
        m[p].role == Role::Assistant ==> repaired_from(m, 0).contains(m[p]),
        repaired_from(m, 0).len() >= m.len(),
{
    if m[p].role == Role::Assistant {
        assistants_survive_from(m, 0, p);
    }
    repair_grows(m, 0);
}

proof fn repair_grows(m: Seq<MessageView>, i: int)
    requires
        0 <= i <= m.len(),
    ensures
        repaired_from(m, i).len() >= m.len() - i,
    decreases m.len() - i,
{
    if i < m.len() {
        if answered(m, i) {
            repair_grows(m, i + 1);
        } else if i + 1 < m.len() && m[i + 1].role == Role::User {
            repair_grows(m, i + 2);
        } else {
            repair_grows(m, i + 1);
        }
    }
}

/// Where the calls of a message are not all answered, the message behind it is
/// completed where it is a user's, and one is put there where it is not.
pub proof fn unanswered_calls_get_answers(a: MessageView, b: MessageView, rest: Seq<MessageView>)
    requires
        !answered(seq![a, b] + rest, 0),
    ensures
        ({
            let m = seq![a, b] + rest;
            let r = repaired_from(m, 0);
            let calls = requests_in(a.content);
            &&& r[0] == a
            &&& r[1].role == Role::User
            &&& b.role == Role::User ==> r[1] == full_answer(calls, b.content) && r.skip(2)
                == repaired_from(m, 2)
            &&& b.role == Role::Assistant ==> r[1] == full_answer(calls, Seq::empty()) && r.skip(2)
                == repaired_from(m, 1)
        }),
{
    let m = seq![a, b] + rest;
    let r = repaired_from(m, 0);
    assert(m[0] == a && m[1] == b);
    if b.role == Role::User {
        assert(r.skip(2) =~= repaired_from(m, 2));
    } else {
        assert(r.skip(2) =~= repaired_from(m, 1));
    }
}

/// Sessions are listed by what they are written as, each before those that
/// come later in a dictionary.
pub proof fn sessions_are_listed_by_name(keys: Seq<SessionKey>, t: Seq<char>, i: int, j: int)
    ensures
        lists_text(keys, t) <==> exists|k: int|
            0 <= k < keys.len() && key_text((#[trigger] keys[k])@) == t,
        in_key_order(keys) && 0 <= i < j < keys.len() ==> precedes(
            key_text(keys[i]@),
            key_text(keys[j]@),
        ) && key_text(keys[i]@) != key_text(keys[j]@),
{
    if in_key_order(keys) && 0 <= i < j < keys.len() {
        crate::text::precedes_total(key_text(keys[i]@), key_text(keys[j]@));
    }
}

/// A turn is cancelled from the moment that it is, while it runs: one that
/// begins is not, one that ended is not, and no other session's turn is touched.
pub proof fn only_running_turns_are_cancelled(g: GatewayView, k: KeyView, o: KeyView)
    ensures
        !g.active.contains_key(k) ==> !g.cancelled(k),
        !(GatewayView { active: g.active.insert(k, false), ..g }).cancelled(k),
        (GatewayView { active: g.active.insert(k, true), ..g }).cancelled(k),
        !(GatewayView { active: g.active.remove(k), ..g }).cancelled(k),
        o != k ==> (GatewayView { active: g.active.insert(k, true), ..g }).cancelled(o)
            == g.cancelled(o),
        o != k ==> (GatewayView { active: g.active.insert(k, false), ..g }).cancelled(o)
            == g.cancelled(o),
        o != k ==> (GatewayView { active: g.active.remove(k), ..g }).cancelled(o) == g.cancelled(
            o,
        ),
{
}

/// A number reads the same in braces and behind its scheme.
pub proof fn numbers_read_the_same(s: Seq<char>)
    requires
        s.len() == 36,
    ensures
        uuid_number(seq!['{'] + s + seq!['}']) == uuid_number(s),
        uuid_number("urn:uuid:"@ + s) == uuid_number(s),
{
    reveal_strlit("urn:uuid:");
    assert((seq!['{'] + s + seq!['}']).subrange(1, 37) =~= s);
    let u = "urn:uuid:"@ + s;
    assert(u.take(9) =~= "urn:uuid:"@);
    assert(u.skip(9) =~= s);
    assert(crate::text::lower_ascii("urn:uuid:"@) =~= "urn:uuid:"@);
}

} // verus!
