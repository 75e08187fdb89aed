//! Repair of histories that an interrupted turn left with unanswered tool
//! calls.
use vstd::prelude::*;

use crate::message::{
    answered, answered_shift, answers, content_views, content_views_push, has_requests,
    has_result_for, is_result_for, is_result_of, listed_request, message_views, message_views_push,
    paired, request_listed, request_views, requests_in, Content, ContentView, Message, MessageView,
    RequestView, Role, ToolRequest,
};
use crate::text::same_text;

verus! {

/// The result recorded for a tool call whose own result was lost.
pub const INTERRUPTED_RESULT: &'static str = "error: previous turn was interrupted before this tool result was recorded";

/// The recorded result of a lost tool call.
pub open spec fn lost_result(id: Seq<char>) -> ContentView {
    ContentView::ToolResult { id, output: INTERRUPTED_RESULT@, is_error: true }
}

/// The first result of a tool call among the first `n` parts.
pub open spec fn first_result(c: Seq<ContentView>, id: Seq<char>, n: int) -> Option<ContentView>
    decreases n,
{
    if n <= 0 {
        None
    } else {
        match first_result(c, id, n - 1) {
            Some(x) => Some(x),
            None => if is_result_of(c[n - 1], id) {
                Some(c[n - 1])
            } else {
                None
            },
        }
    }
}

/// Whether the call at `k` repeats the id of an earlier one.
pub open spec fn repeats_id(reqs: Seq<RequestView>, k: int) -> bool {
    exists|j: int| 0 <= j < k && (#[trigger] reqs[j]).id == reqs[k].id
}

/// The result that goes with the call at `k`: the first one there is, for the
/// first call of that id; else a note that the result was lost.
pub open spec fn result_for(reqs: Seq<RequestView>, c: Seq<ContentView>, k: int) -> ContentView {
    if !repeats_id(reqs, k) && first_result(c, reqs[k].id, c.len() as int) is Some {
        first_result(c, reqs[k].id, c.len() as int)->0
    } else {
        lost_result(reqs[k].id)
    }
}

/// One result for every tool call, in the order of the calls.
pub open spec fn results_for(reqs: Seq<RequestView>, c: Seq<ContentView>) -> Seq<ContentView> {
    Seq::new(reqs.len(), |k: int| result_for(reqs, c, k))
}

/// Whether a part is the result of one of the calls.
pub open spec fn is_expected(reqs: Seq<RequestView>, c: ContentView) -> bool {
    exists|k: int| 0 <= k < reqs.len() && is_result_of(c, (#[trigger] reqs[k]).id)
}

/// The parts that are no result of the calls.
pub open spec fn other_parts(reqs: Seq<RequestView>, c: Seq<ContentView>) -> Seq<ContentView>
    decreases c.len(),
{
    if c.len() == 0 {
        Seq::empty()
    } else if is_expected(reqs, c.last()) {
        other_parts(reqs, c.drop_last())
    } else {
        other_parts(reqs, c.drop_last()).push(c.last())
    }
}

/// The message that answers all calls: their results, then what else stood in
/// the message.
pub open spec fn full_answer(reqs: Seq<RequestView>, c: Seq<ContentView>) -> MessageView {
    MessageView { role: Role::User, content: results_for(reqs, c) + other_parts(reqs, c) }
}

/// The messages from position `i` on, repaired: where the tool calls of an
/// assistant message are not all answered, the user message behind it is
/// completed, or one is put there.
pub open spec fn repaired_from(m: Seq<MessageView>, i: int) -> Seq<MessageView>
    decreases m.len() - i,
{
    if i < 0 || i >= m.len() {
        Seq::empty()
    } else if answered(m, i) {
        seq![m[i]] + repaired_from(m, i + 1)
    } else if i + 1 < m.len() && m[i + 1].role == Role::User {
        seq![m[i], full_answer(requests_in(m[i].content), m[i + 1].content)] + repaired_from(m, i + 2)
    } else {
        seq![m[i], full_answer(requests_in(m[i].content), Seq::empty())] + repaired_from(m, i + 1)
    }
}

proof fn first_result_is_result(c: Seq<ContentView>, id: Seq<char>, n: int)
    requires
        n <= c.len(),
    ensures
        first_result(c, id, n) matches Some(x) ==> is_result_of(x, id),
    decreases n,
{
    if n > 0 {
        first_result_is_result(c, id, n - 1);
    }
}

proof fn full_answer_answers(reqs: Seq<RequestView>, c: Seq<ContentView>, k: int)
    requires
        0 <= k < reqs.len(),
    ensures
        answers(full_answer(reqs, c).content, reqs[k].id),
{
    first_result_is_result(c, reqs[k].id, c.len() as int);
    let all = full_answer(reqs, c).content;
    assert(all[k] == result_for(reqs, c, k));
    assert(is_result_of(all[k], reqs[k].id));
}

fn find_first_result(c: &Vec<Content>, id: &str) -> (r: Option<Content>)
    ensures
        match r {
            Some(x) => first_result(content_views(c@), id@, c@.len() as int) == Some(x@),
            None => first_result(content_views(c@), id@, c@.len() as int) is None,
        },
{
    let ghost v = content_views(c@);
    for i in 0..c.len()
        invariant
            v == content_views(c@),
            first_result(v, id@, i as int) is None,
    {
        if is_result_for(&c[i], id) {
            let x = c[i].clone();
            proof {
                assert(v[i as int] == x@);
                assert(first_result(v, id@, i + 1) == Some(x@));
                first_result_stays(v, id@, i + 1, v.len() as int);
            }
            return Some(x);
        }
        assert(!is_result_of(v[i as int], id@));
    }
    None
}

proof fn first_result_stays(c: Seq<ContentView>, id: Seq<char>, n: int, m: int)
    requires
        n <= m,
        first_result(c, id, n) is Some,
    ensures
        first_result(c, id, m) == first_result(c, id, n),
    decreases m,
{
    if n < m {
        first_result_stays(c, id, n, m - 1);
    }
}

fn complete_answer(reqs: &Vec<ToolRequest>, c: &Vec<Content>) -> (r: Message)
    ensures
        r@ == full_answer(request_views(reqs@), content_views(c@)),
{
    let ghost rv = request_views(reqs@);
    let ghost cv = content_views(c@);
    let mut out: Vec<Content> = Vec::new();
    assert(content_views(out@) =~= results_for(rv, cv).take(0));
    for k in 0..reqs.len()
        invariant
            rv == request_views(reqs@),
            cv == content_views(c@),
            content_views(out@) == results_for(rv, cv).take(k as int),
    {
        let mut seen = false;
        for j in 0..k
            invariant
                k < reqs.len(),
                rv == request_views(reqs@),
                seen == (exists|q: int| 0 <= q < j && (#[trigger] rv[q]).id == rv[k as int].id),
        {
            if same_text(reqs[j].id.as_str(), reqs[k].id.as_str()) {
                assert(rv[j as int].id == rv[k as int].id);
                seen = true;
            } else {
                assert(rv[j as int].id != rv[k as int].id);
            }
        }
        assert(seen == repeats_id(rv, k as int));
        let found = if seen {
            None
        } else {
            find_first_result(c, reqs[k].id.as_str())
        };
        let x = match found {
            Some(x) => x,
            None => Content::tool_result(reqs[k].id.as_str(), INTERRUPTED_RESULT, true),
        };
        assert(x@ == result_for(rv, cv, k as int));
        let ghost before = out@;
        out.push(x);
        proof {
            content_views_push(before, x);
            assert(content_views(out@) =~= results_for(rv, cv).take(k + 1));
        }
    }
    assert(results_for(rv, cv).take(reqs.len() as int) =~= results_for(rv, cv));
    let ghost head = results_for(rv, cv);
    assert(head + other_parts(rv, cv.take(0)) =~= head);
    for i in 0..c.len()
        invariant
            rv == request_views(reqs@),
            cv == content_views(c@),
            content_views(out@) == head + other_parts(rv, cv.take(i as int)),
    {
        assert(cv.take(i + 1).drop_last() =~= cv.take(i as int));
        assert(cv.take(i + 1).last() == c@[i as int]@);
        let mut expected = false;
        for k in 0..reqs.len()
            invariant
                i < c.len(),
                rv == request_views(reqs@),
                expected == (exists|q: int|
                    0 <= q < k && is_result_of(c@[i as int]@, (#[trigger] rv[q]).id)),
        {
            if is_result_for(&c[i], reqs[k].id.as_str()) {
                assert(is_result_of(c@[i as int]@, rv[k as int].id));
                expected = true;
            } else {
                assert(!is_result_of(c@[i as int]@, rv[k as int].id));
            }
        }
        assert(expected == is_expected(rv, c@[i as int]@));
        if !expected {
            let ghost before = out@;
            let x = c[i].clone();
            out.push(x);
            proof {
                content_views_push(before, x);
                assert(content_views(out@) =~= head + other_parts(rv, cv.take(i + 1)));
            }
        }
    }
    assert(cv.take(c.len() as int) =~= cv);
    Message { role: Role::User, content: out }
}

/// Whether every tool call of message `i` is answered.
fn is_answered(m: &Vec<Message>, i: usize) -> (r: bool)
    requires
        i < m.len(),
    ensures
        r == answered(message_views(m@), i as int),
{
    let ghost v = message_views(m@);
    assert(v[i as int] == m@[i as int]@);
    if m[i].role != Role::Assistant || !m[i].has_tool_requests() {
        return true;
    }
    if i + 1 >= m.len() || m[i + 1].role != Role::User {
        return false;
    }
    assert(v[i + 1] == m@[i + 1]@);
    let reqs = m[i].tool_requests();
    for k in 0..reqs.len()
        invariant
            i + 1 < m.len(),
            v == message_views(m@),
            v[i as int] == m@[i as int]@,
            v[i + 1] == m@[i + 1]@,
            v[i as int].role == Role::Assistant,
            has_requests(v[i as int]),
            request_views(reqs@) == requests_in(v[i as int].content),
            forall|q: int|
                0 <= q < k ==> answers(v[i + 1].content, (#[trigger] request_views(reqs@)[q]).id),
    {
        if !has_result_for(&m[i + 1].content, reqs[k].id.as_str()) {
            proof {
                assert(request_views(reqs@)[k as int].id == reqs@[k as int].id@);
                let p = listed_request(v[i as int].content, k as int);
                assert(v[i as int].content[p] is ToolRequest);
            }
            return false;
        }
        assert(request_views(reqs@)[k as int].id == reqs@[k as int].id@);
    }
    proof {
        assert forall|p: int|
            0 <= p < v[i as int].content.len() && #[trigger] v[i as int].content[p] is ToolRequest implies answers(
            v[i + 1].content,
            v[i as int].content[p]->ToolRequest_id,
        ) by {
            let q = request_listed(v[i as int].content, p);
            assert(answers(v[i + 1].content, request_views(reqs@)[q].id));
        }
    }
    true
}

/// Repairs a history so that every tool call is answered in the user message
/// right behind it. Returns nothing where there is nothing to repair.
pub fn repair_history(m: &Vec<Message>) -> (r: Option<Vec<Message>>)
    ensures
        r is None <==> paired(message_views(m@)),
        r matches Some(out) ==> message_views(out@) == repaired_from(message_views(m@), 0),
{
    let ghost v = message_views(m@);
    let mut out: Vec<Message> = Vec::new();
    let mut changed = false;
    let mut i: usize = 0;
    assert(message_views(out@) + repaired_from(v, 0) =~= repaired_from(v, 0));
    while i < m.len()
        invariant
            v == message_views(m@),
            i <= m.len(),
            message_views(out@) + repaired_from(v, i as int) == repaired_from(v, 0),
            changed == (exists|j: int| 0 <= j < i && !#[trigger] answered(v, j)),
        decreases m.len() - i,
    {
        let ghost before = out@;
        let ghost rest = repaired_from(v, i as int);
        assert(v[i as int] == m@[i as int]@);
        let x = m[i].clone();
        if is_answered(m, i) {
            out.push(x);
            proof {
                message_views_push(before, x);
                assert(rest == seq![x@] + repaired_from(v, i + 1));
                assert(message_views(out@) + repaired_from(v, i + 1) =~= message_views(before)
                    + rest);
            }
            i += 1;
        } else {
            changed = true;
            let reqs = m[i].tool_requests();
            out.push(x);
            proof {
                message_views_push(before, x);
            }
            let ghost middle = out@;
            if i + 1 < m.len() && m[i + 1].role == Role::User {
                assert(v[i + 1] == m@[i + 1]@);
                let y = complete_answer(&reqs, &m[i + 1].content);
                out.push(y);
                proof {
                    message_views_push(middle, y);
                    assert(rest == seq![x@, y@] + repaired_from(v, i + 2));
                    assert(message_views(out@) + repaired_from(v, i + 2) =~= message_views(before)
                        + rest);
                    assert(answered(v, i + 1));
                }
                i += 2;
            } else {
                let none: Vec<Content> = Vec::new();
                assert(content_views(none@) =~= Seq::empty());
                let y = complete_answer(&reqs, &none);
                out.push(y);
                proof {
                    message_views_push(middle, y);
                    assert(rest == seq![x@, y@] + repaired_from(v, i + 1));
                    assert(message_views(out@) + repaired_from(v, i + 1) =~= message_views(before)
                        + rest);
                }
                i += 1;
            }
        }
    }
    assert(repaired_from(v, i as int) =~= Seq::empty());
    assert(message_views(out@) =~= repaired_from(v, 0));
    if changed {
        Some(out)
    } else {
        None
    }
}

/// After a repair every tool call is answered, whatever the history was.
pub proof fn repaired_history_is_paired(m: Seq<MessageView>, i: int)
    requires
        0 <= i <= m.len(),
    ensures
        paired(repaired_from(m, i)),
    decreases m.len() - i,
{
    if i < m.len() {
        let all = repaired_from(m, i);
        if answered(m, i) {
            repaired_history_is_paired(m, i + 1);
            let rest = repaired_from(m, i + 1);
            assert forall|k: int| 0 <= k < all.len() implies #[trigger] answered(all, k) by {
                if k >= 1 {
                    answered_shift(seq![m[i]], rest, k - 1);
                } else if m[i].role == Role::Assistant && has_requests(m[i]) {
                    assert(answered(m, i + 1));
                    assert(all[1] == rest[0]);
                    assert(rest[0] == m[i + 1]);
                }
            }
        } else {
            let reqs = requests_in(m[i].content);
            let (c, rest) = if i + 1 < m.len() && m[i + 1].role == Role::User {
                repaired_history_is_paired(m, i + 2);
                (m[i + 1].content, repaired_from(m, i + 2))
            } else {
                repaired_history_is_paired(m, i + 1);
                (Seq::empty(), repaired_from(m, i + 1))
            };
            let head = seq![m[i], full_answer(reqs, c)];
            assert(all == head + rest);
            assert forall|k: int| 0 <= k < all.len() implies #[trigger] answered(all, k) by {
                if k >= 2 {
                    answered_shift(head, rest, k - 2);
                } else if k == 0 {
                    assert(all[0] == m[i]);
                    assert(all[1] == full_answer(reqs, c));
                    assert forall|p: int|
                        0 <= p < all[0].content.len()
                            && #[trigger] all[0].content[p] is ToolRequest implies answers(
                        all[1].content,
                        all[0].content[p]->ToolRequest_id,
                    ) by {
                        let q = request_listed(m[i].content, p);
                        full_answer_answers(reqs, c, q);
                    }
                } else {
                    assert(all[1] == full_answer(reqs, c));
                }
            }
        }
    }
}

/// A history in which every tool call is answered is left as it is.
pub proof fn repair_keeps_paired_history(m: Seq<MessageView>, i: int)
    requires
        paired(m),
        0 <= i <= m.len(),
    ensures
        repaired_from(m, i) == m.skip(i),
    decreases m.len() - i,
{
    if i < m.len() {
        repair_keeps_paired_history(m, i + 1);
        assert(answered(m, i));
        assert(seq![m[i]] + m.skip(i + 1) =~= m.skip(i));
    } else {
        assert(m.skip(i) =~= Seq::empty());
    }
}

/// Repairing twice is the same as repairing once.
pub proof fn repair_is_idempotent(m: Seq<MessageView>)
    ensures
        repaired_from(repaired_from(m, 0), 0) == repaired_from(m, 0),
{
    repaired_history_is_paired(m, 0);
    repair_keeps_paired_history(repaired_from(m, 0), 0);
    assert(repaired_from(m, 0).skip(0) =~= repaired_from(m, 0));
}

} // verus!
