//! What holds of every turn, whatever the provider and the tools do.
use vstd::prelude::*;

use crate::compact_session::session_context;
use crate::compaction::{context_stays_paired, provider_context};
use crate::gateway::{draining_keeps_pairing, with_texts, GatewayView};
use crate::message::{
    answered, answers, has_requests, is_result_of, paired, paired_push_user, request_listed,
    requests_in, requests_nonempty, user_text, ContentView, MessageView, RequestView, Role,
};
use crate::stream::repaired_reply;
use crate::turn::{
    awaited, call_result, calling, cancelled_result, cancelled_results, committed, compaction_over,
    counted, failing, finished, in_order, iterating, non_images, repair_replied, replied,
    result_event, result_events, rolled_back, stepped, tools_done, with_result,
    without_images, wound_up, ActionView, EventView, InputView, LIMIT_FAILED, LIMIT_MESSAGE,
    Outcome, PhaseView, TurnView, UNAVAILABLE_TOOL,
};

verus! {

// ---------------------------------------------------------------------------
// The end of a turn
// ---------------------------------------------------------------------------

/// Whether none of the events is the end of a turn.
pub open spec fn no_end(e: Seq<EventView>) -> bool {
    forall|i: int| 0 <= i < e.len() ==> !(#[trigger] e[i] is Done)
}

/// Whether a step ends its turn exactly if it says so: the turn is over, there
/// is nothing to do, and the last event is the end, or none of these.
pub open spec fn ends_properly(o: Outcome) -> bool {
    let e = o.step.events;
    if o.t.phase is Ended {
        o.step.action is Stop && e.len() > 0 && e.last() is Done && no_end(e.drop_last())
    } else {
        !(o.step.action is Stop) && no_end(e)
    }
}

proof fn no_end_push(e: Seq<EventView>, x: EventView)
    requires
        no_end(e),
        !(x is Done),
    ensures
        no_end(e.push(x)),
{
}

proof fn closing_ends_properly(g: GatewayView, t: TurnView, e: Seq<EventView>)
    requires
        no_end(e),
    ensures
        ends_properly(finished(g, t, e)),
        ends_properly(wound_up(g, t, e)),
        ends_properly(iterating(g, t, e)),
{
    reveal(finished);
    reveal(wound_up);
    reveal(iterating);
    assert forall|g2: GatewayView| ends_properly(#[trigger] finished(g2, t, e)) by {
        let o = finished(g2, t, e);
        assert(o.step.events.drop_last() =~= e);
    }
}

proof fn tools_end_properly(g: GatewayView, t: TurnView, e: Seq<EventView>)
    requires
        no_end(e),
    ensures
        ends_properly(tools_done(g, t, e)),
{
    reveal(tools_done);
    let added = if g.cancelled(t.key) {
        cancelled_results(t.calls, t.results, t.calls.len() as int)
    } else {
        Seq::empty()
    };
    let results = t.results + added;
    let e1 = e + result_events(added);
    assert(no_end(e1));
    let m = MessageView { role: Role::User, content: results };
    let t1 = TurnView {
        results,
        new_messages: if results.len() > 0 {
            t.new_messages.push(m)
        } else {
            t.new_messages
        },
        ..t
    };
    let g1 = if results.len() > 0 {
        g.with_message(t.key, m)
    } else {
        g
    };
    closing_ends_properly(g1, t1, e1);
}

proof fn calls_end_properly(g: GatewayView, t: TurnView, next: int, e: Seq<EventView>)
    requires
        no_end(e),
    ensures
        ends_properly(calling(g, t, next, e)),
    decreases t.calls.len() - next,
{
    reveal(calling);
    tools_end_properly(g, t, e);
    if 0 <= next < t.calls.len() && !g.cancelled(t.key) {
        let c = t.calls[next];
        let e1 = e.push(EventView::ToolStart { request: c });
        no_end_push(e, EventView::ToolStart { request: c });
        if !t.tools.contains(c.name) {
            let r = call_result(t, next, UNAVAILABLE_TOOL@ + c.name, true);
            no_end_push(e1, result_event(r));
            calls_end_properly(g, with_result(t, next, r), next + 1, e1.push(result_event(r)));
        }
    }
}

proof fn commit_ends_properly(g: GatewayView, t: TurnView, m: MessageView, e: Seq<EventView>)
    requires
        no_end(e),
    ensures
        ends_properly(committed(g, t, m, e)),
{
    reveal(committed);
    let g1 = g.with_message(t.key, m);
    let t1 = TurnView { new_messages: t.new_messages.push(m), ..t };
    calls_end_properly(
        g1,
        TurnView { calls: requests_in(m.content), results: Seq::empty(), ..t1 },
        0,
        e,
    );
    closing_ends_properly(g1, t1, e.push(EventView::AssistantMessage { message: m }));
}

/// A turn tells its end exactly once, as the last thing it says, and then has
/// nothing more to do.
pub proof fn turn_ends_once(g: GatewayView, t: TurnView, input: InputView)
    requires
        awaited(t, input),
    ensures
        ends_properly(stepped(g, t, input)),
{
    let none = Seq::<EventView>::empty();
    reveal(rolled_back);
    assert forall|g2: GatewayView, t2: TurnView, error: Seq<char>| ends_properly(
        #[trigger] rolled_back(g2, t2, error),
    ) by {
        let e = rolled_back(g2, t2, error).step.events;
        assert(e.drop_last() =~= seq![e[0]]);
    }
    match input {
        InputView::Begin => {
            closing_ends_properly(g, t, none);
        },
        InputView::Loaded { messages } => {},
        InputView::Reply { response, usage } => {
            reveal(replied);
            let g1 = counted(g, t.key, usage);
            let t1 = TurnView { usage: t.usage.plus(usage), ..t };
            commit_ends_properly(g1, t1, response, none);
            closing_ends_properly(
                g1.with_message(t.key, response),
                TurnView { new_messages: t1.new_messages.push(response), ..t1 },
                seq![EventView::AssistantMessage { message: response }],
            );
        },
        InputView::Failure { error, overflow } => {
            reveal(failing);
            closing_ends_properly(g, t, seq![EventView::Error { text: LIMIT_FAILED@ }]);
        },
        InputView::RepairReply { outcome } => {
            reveal(repair_replied);
            let r = repaired_reply(t.policy, t.phase->response, outcome);
            commit_ends_properly(
                counted(g, t.key, r.1),
                TurnView { usage: t.usage.plus(r.1), ..t },
                r.0,
                none,
            );
            commit_ends_properly(g, t, r.0, none);
        },
        InputView::ToolDone { content, is_error } => {
            let next = t.phase->next;
            let r = call_result(t, next, content, is_error);
            calls_end_properly(g, with_result(t, next, r), next + 1, seq![result_event(r)]);
        },
        InputView::Compacted { compacted } => {
            reveal(compaction_over);
            closing_ends_properly(
                g,
                TurnView {
                    hit_limit: t.hit_limit || t.iteration + 1 >= t.max_iterations,
                    iteration: (t.iteration + 1) as u32,
                    ..t
                },
                none,
            );
        },
    }
}

// ---------------------------------------------------------------------------
// Progress
// ---------------------------------------------------------------------------

/// The iterations a turn can still begin, with its end counted.
pub open spec fn iterations_left(t: TurnView) -> int {
    match t.phase {
        PhaseView::Starting => t.max_iterations - t.iteration + 2,
        PhaseView::Ended => 0,
        PhaseView::Summarizing => 1,
        PhaseView::Loading { with_tools: false } => 1,
        _ => t.max_iterations - t.iteration + 1,
    }
}

/// How far a turn is from the end of its iteration.
pub open spec fn stages_left(t: TurnView) -> int {
    match t.phase {
        PhaseView::Loading { with_tools } => if !with_tools {
            1
        } else if t.retried {
            4
        } else {
            7
        },
        PhaseView::Waiting { .. } => if t.retried {
            3
        } else {
            6
        },
        PhaseView::Recovering { .. } => 5,
        PhaseView::Repairing { .. } => 2,
        PhaseView::Running { .. } => 1,
        _ => 0,
    }
}

/// The tool calls that a turn still has to make.
pub open spec fn calls_left(t: TurnView) -> int {
    match t.phase {
        PhaseView::Running { next } => t.calls.len() - next,
        _ => 0,
    }
}

/// Whether a turn is closer to its end than another state of it.
pub open spec fn closer(a: TurnView, b: TurnView) -> bool {
    ||| 0 <= iterations_left(a) < iterations_left(b)
    ||| iterations_left(a) == iterations_left(b) && 0 <= stages_left(a) < stages_left(b)
    ||| iterations_left(a) == iterations_left(b) && stages_left(a) == stages_left(b) && 0
        <= calls_left(a) < calls_left(b)
}

/// Whether a turn stands in an iteration.
spec fn iterates(t: TurnView) -> bool {
    t.iteration < t.max_iterations
}

proof fn closing_is_late(g: GatewayView, t: TurnView, e: Seq<EventView>)
    ensures
        iterations_left(finished(g, t, e).t) == 0,
        0 <= iterations_left(wound_up(g, t, e).t) <= 1,
{
    reveal(finished);
    reveal(wound_up);
}

proof fn calling_progress(g: GatewayView, t: TurnView, next: int, e: Seq<EventView>)
    requires
        iterates(t),
        0 <= next <= t.calls.len(),
    ensures
        ({
            let o = calling(g, t, next, e).t;
            ||| 0 <= iterations_left(o) <= 1
            ||| iterations_left(o) == t.max_iterations - t.iteration + 1 && stages_left(o) == 0
            ||| iterations_left(o) == t.max_iterations - t.iteration + 1 && stages_left(o) == 1
                && 0 <= calls_left(o) <= t.calls.len() - next
        }),
    decreases t.calls.len() - next,
{
    reveal(calling);
    reveal(tools_done);
    reveal(wound_up);
    reveal(finished);
    if next < t.calls.len() && !g.cancelled(t.key) {
        let c = t.calls[next];
        if !t.tools.contains(c.name) {
            let r = call_result(t, next, UNAVAILABLE_TOOL@ + c.name, true);
            calling_progress(
                g,
                with_result(t, next, r),
                next + 1,
                e.push(EventView::ToolStart { request: c }).push(result_event(r)),
            );
        }
    }
}

proof fn commit_progress(g: GatewayView, t: TurnView, m: MessageView)
    requires
        iterates(t),
        t.phase is Waiting || t.phase is Repairing,
    ensures
        closer(committed(g, t, m, Seq::empty()).t, t),
{
    reveal(committed);
    let g1 = g.with_message(t.key, m);
    let t1 = TurnView { new_messages: t.new_messages.push(m), ..t };
    calling_progress(
        g1,
        TurnView { calls: requests_in(m.content), results: Seq::empty(), ..t1 },
        0,
        Seq::empty(),
    );
    closing_is_late(
        g1,
        t1,
        Seq::<EventView>::empty().push(EventView::AssistantMessage { message: m }),
    );
}

/// Every step brings a turn closer to its end: it ends after a bounded number
/// of iterations, each with a bounded number of provider calls and one call
/// per requested tool.
pub proof fn turn_makes_progress(g: GatewayView, t: TurnView, input: InputView)
    requires
        in_order(t),
        awaited(t, input),
        t.phase is Starting ==> t.iteration == 0,
    ensures
        closer(stepped(g, t, input).t, t),
{
    reveal(rolled_back);
    reveal(iterating);
    match input {
        InputView::Begin => {
            closing_is_late(g, t, Seq::empty());
        },
        InputView::Loaded { messages } => {},
        InputView::Reply { response, usage } => {
            reveal(replied);
            reveal(finished);
            let g1 = counted(g, t.key, usage);
            let t1 = TurnView { usage: t.usage.plus(usage), ..t };
            if !(t.phase is Summarizing) {
                commit_progress(g1, t1, response);
            }
        },
        InputView::Failure { error, overflow } => {
            reveal(failing);
            reveal(finished);
        },
        InputView::RepairReply { outcome } => {
            reveal(repair_replied);
            let r = repaired_reply(t.policy, t.phase->response, outcome);
            commit_progress(
                counted(g, t.key, r.1),
                TurnView { usage: t.usage.plus(r.1), ..t },
                r.0,
            );
            commit_progress(g, t, r.0);
        },
        InputView::ToolDone { content, is_error } => {
            let next = t.phase->next;
            let r = call_result(t, next, content, is_error);
            calling_progress(g, with_result(t, next, r), next + 1, seq![result_event(r)]);
        },
        InputView::Compacted { compacted } => {
            reveal(compaction_over);
            let t1 = TurnView {
                hit_limit: t.hit_limit || t.iteration + 1 >= t.max_iterations,
                iteration: (t.iteration + 1) as u32,
                ..t
            };
            closing_is_late(g, t1, Seq::empty());
        },
    }
}

// ---------------------------------------------------------------------------
// Tool calls and their results
// ---------------------------------------------------------------------------

/// Whether the first `n` calls have a result.
pub open spec fn all_answered(calls: Seq<RequestView>, results: Seq<ContentView>, n: int) -> bool {
    forall|i: int| 0 <= i < n ==> answers(results, (#[trigger] calls[i]).id)
}

/// Whether a turn and its session fit: outside of tool calls every tool call
/// in the history is answered, as in the request under way; during them the last message asks for them, and
/// those already made have a result.
pub open spec fn sound(g: GatewayView, t: TurnView) -> bool {
    let h = g.history(t.key);
    match t.phase {
        PhaseView::Running { next } => open_calls(h, t) && all_answered(t.calls, t.results, next),
        PhaseView::Ended => true,
        PhaseView::Waiting { asked } => paired(h) && paired(asked),
        _ => paired(h),
    }
}

/// Whether the calls of a turn are those of the last message, and everything
/// before it is answered.
pub open spec fn open_calls(h: Seq<MessageView>, t: TurnView) -> bool {
    &&& h.len() > 0
    &&& paired(h.drop_last())
    &&& has_requests(h.last())
    &&& t.calls == requests_in(h.last().content)
}

proof fn paired_push_other(p: Seq<MessageView>, m: MessageView)
    requires
        paired(p),
        m.role == Role::User || !has_requests(m),
    ensures
        paired(p.push(m)),
{
    let t = p.push(m);
    assert forall|k: int| 0 <= k < t.len() implies #[trigger] answered(t, k) by {
        if k < p.len() {
            assert(answered(p, k));
            assert(t[k] == p[k]);
            if k + 1 < p.len() {
                assert(t[k + 1] == p[k + 1]);
            }
        }
    }
}

proof fn paired_push_exchange(h: Seq<MessageView>, results: Seq<ContentView>)
    requires
        h.len() > 0,
        paired(h.drop_last()),
        all_answered(
            requests_in(h.last().content),
            results,
            requests_in(h.last().content).len() as int,
        ),
    ensures
        paired(h.push(MessageView { role: Role::User, content: results })),
{
    let r = MessageView { role: Role::User, content: results };
    let t = h.push(r);
    let p = h.drop_last();
    assert forall|k: int| 0 <= k < t.len() implies #[trigger] answered(t, k) by {
        if k < p.len() {
            assert(answered(p, k));
            assert(t[k] == p[k]);
            if k + 1 < p.len() {
                assert(t[k + 1] == p[k + 1]);
            }
        } else if k == p.len() {
            assert(t[k] == h.last());
            assert(t[k + 1] == r);
            assert forall|q: int|
                0 <= q < t[k].content.len() && #[trigger] t[k].content[q] is ToolRequest implies answers(
                t[k + 1].content,
                t[k].content[q]->ToolRequest_id,
            ) by {
                let x = request_listed(t[k].content, q);
                assert(answers(results, requests_in(h.last().content)[x].id));
            }
        }
    }
}

proof fn non_images_parts(c: Seq<ContentView>)
    ensures
        forall|i: int|
            0 <= i < c.len() && !(#[trigger] c[i] is Image) ==> non_images(c).contains(c[i]),
        forall|i: int| 0 <= i < non_images(c).len() ==> c.contains(#[trigger] non_images(c)[i]),
    decreases c.len(),
{
    if c.len() > 0 {
        let d = c.drop_last();
        non_images_parts(d);
        let n = non_images(c);
        let nd = non_images(d);
        assert forall|i: int| 0 <= i < c.len() && !(#[trigger] c[i] is Image) implies n.contains(
            c[i],
        ) by {
            if i < d.len() {
                assert(d[i] == c[i]);
                assert(nd.contains(c[i]));
                let j = choose|j: int| 0 <= j < nd.len() && nd[j] == c[i];
                assert(n[j] == c[i]);
            } else {
                assert(n.last() == c[i]);
            }
        }
        assert forall|i: int| 0 <= i < n.len() implies c.contains(#[trigger] n[i]) by {
            if i < nd.len() {
                assert(n[i] == nd[i]);
                assert(d.contains(nd[i]));
                let j = choose|j: int| 0 <= j < d.len() && d[j] == nd[i];
                assert(c[j] == n[i]);
            } else {
                assert(c[c.len() - 1] == n[i]);
            }
        }
    }
}

proof fn paired_without_images(m: Seq<MessageView>)
    requires
        paired(m),
    ensures
        paired(without_images(m)),
{
    let w = without_images(m);
    assert forall|k: int| 0 <= k < w.len() implies #[trigger] answered(w, k) by {
        assert(answered(m, k));
        non_images_parts(m[k].content);
        if w[k].role == Role::Assistant && has_requests(w[k]) {
            let q = choose|q: int|
                0 <= q < w[k].content.len() && #[trigger] w[k].content[q] is ToolRequest;
            assert(m[k].content.contains(non_images(m[k].content)[q]));
            let p = choose|p: int| 0 <= p < m[k].content.len() && m[k].content[p] == w[k].content[q];
            assert(m[k].content[p] is ToolRequest);
            assert(has_requests(m[k]));
            non_images_parts(m[k + 1].content);
            assert forall|x: int|
                0 <= x < w[k].content.len() && #[trigger] w[k].content[x] is ToolRequest implies answers(
                w[k + 1].content,
                w[k].content[x]->ToolRequest_id,
            ) by {
                let id = w[k].content[x]->ToolRequest_id;
                assert(m[k].content.contains(non_images(m[k].content)[x]));
                let y = choose|y: int|
                    0 <= y < m[k].content.len() && m[k].content[y] == w[k].content[x];
                assert(m[k].content[y] is ToolRequest);
                assert(answers(m[k + 1].content, id));
                let z = choose|z: int|
                    0 <= z < m[k + 1].content.len() && is_result_of(
                        #[trigger] m[k + 1].content[z],
                        id,
                    );
                assert(!(m[k + 1].content[z] is Image));
                assert(non_images(m[k + 1].content).contains(m[k + 1].content[z]));
                let kept = non_images(m[k + 1].content);
                let x2 = m[k + 1].content[z];
                let v = choose|v: int| 0 <= v < kept.len() && kept[v] == x2;
                assert(w[k + 1].content == kept);
                assert(is_result_of(w[k + 1].content[v], id));
            }
        }
    }
}

/// The messages of a request are as sound as the history they come from.
proof fn request_is_paired(g: GatewayView, t: TurnView)
    requires
        paired(g.history(t.key)),
    ensures
        paired(session_context(g, t.key)),
        paired(without_images(session_context(g, t.key))),
{
    let h = g.history(t.key);
    if let Some(c) = g.compaction(t.key) {
        context_stays_paired(h, Some(c.0), c.1 as int);
        paired_without_images(provider_context(h, Some(c.0), c.1 as int));
    } else {
        paired_without_images(h);
    }
}

/// Whether a step leaves turn and session fitting, and asks the provider only
/// with histories in which every tool call is answered.
pub open spec fn stays_sound(o: Outcome) -> bool {
    &&& sound(o.g, o.t)
    &&& o.step.action matches ActionView::LoadImages { messages } ==> paired(messages)
    &&& o.step.action matches ActionView::Ask { messages, .. } ==> paired(messages)
    &&& o.step.action matches ActionView::AskRepair { messages } ==> paired(messages)
}

proof fn drained_history(g: GatewayView, k: crate::session::KeyView)
    requires
        paired(g.history(k)),
    ensures
        paired(g.drained(k).history(k)),
{
    draining_keeps_pairing(g.history(k), g.waiting(k));
}

proof fn closing_stays_sound(g: GatewayView, t: TurnView, e: Seq<EventView>)
    requires
        paired(g.history(t.key)),
    ensures
        stays_sound(finished(g, t, e)),
        stays_sound(wound_up(g, t, e)),
        stays_sound(iterating(g, t, e)),
{
    reveal(finished);
    reveal(wound_up);
    reveal(iterating);
    drained_history(g, t.key);
    let g1 = g.drained(t.key);
    let m = user_text(LIMIT_MESSAGE@);
    let g2 = g1.with_message(t.key, m);
    paired_push_user(g1.history(t.key), m);
    assert(g2.history(t.key) == g1.history(t.key).push(m));
    request_is_paired(g2, t);
    request_is_paired(g1, t);
}

proof fn cancelled_results_answer(
    calls: Seq<RequestView>,
    done: Seq<ContentView>,
    n: int,
)
    requires
        0 <= n <= calls.len(),
    ensures
        all_answered(calls, done + cancelled_results(calls, done, n), n),
    decreases n,
{
    if n > 0 {
        cancelled_results_answer(calls, done, n - 1);
        let rest = cancelled_results(calls, done, n - 1);
        let all = cancelled_results(calls, done, n);
        assert forall|i: int| 0 <= i < n implies answers(
            done + all,
            (#[trigger] calls[i]).id,
        ) by {
            let id = calls[i].id;
            if i < n - 1 {
                assert(answers(done + rest, id));
                let q = choose|q: int|
                    0 <= q < (done + rest).len() && is_result_of(#[trigger] (done + rest)[q], id);
                assert((done + all)[q] == (done + rest)[q]);
                assert(is_result_of((done + all)[q], id));
            } else if answers(done, id) {
                let q = choose|q: int| 0 <= q < done.len() && is_result_of(#[trigger] done[q], id);
                assert((done + all)[q] == done[q]);
                assert(is_result_of((done + all)[q], id));
            } else {
                let q = done.len() + rest.len();
                assert((done + all)[q as int] == cancelled_result(id));
                assert(is_result_of((done + all)[q as int], id));
            }
        }
    }
}

proof fn tools_stay_sound(g: GatewayView, t: TurnView, e: Seq<EventView>)
    requires
        open_calls(g.history(t.key), t),
        g.cancelled(t.key) || all_answered(t.calls, t.results, t.calls.len() as int),
    ensures
        stays_sound(tools_done(g, t, e)),
{
    reveal(tools_done);
    let h = g.history(t.key);
    let added = if g.cancelled(t.key) {
        cancelled_results(t.calls, t.results, t.calls.len() as int)
    } else {
        Seq::empty()
    };
    let results = t.results + added;
    cancelled_results_answer(t.calls, t.results, t.calls.len() as int);
    if !g.cancelled(t.key) {
        assert(results =~= t.results);
    }
    requests_nonempty(h.last().content);
    assert(answers(results, t.calls[0].id));
    let m = MessageView { role: Role::User, content: results };
    let t1 = TurnView { results, new_messages: t.new_messages.push(m), ..t };
    let g1 = g.with_message(t.key, m);
    paired_push_exchange(h, results);
    assert(g1.history(t.key) == h.push(m));
    closing_stays_sound(g1, t1, e + result_events(added));
}

proof fn answers_push(results: Seq<ContentView>, x: ContentView, id: Seq<char>)
    requires
        answers(results, id) || is_result_of(x, id),
    ensures
        answers(results.push(x), id),
{
    let r = results.push(x);
    if answers(results, id) {
        let q = choose|q: int| 0 <= q < results.len() && is_result_of(#[trigger] results[q], id);
        assert(is_result_of(r[q], id));
    } else {
        assert(is_result_of(r[results.len() as int], id));
    }
}

proof fn calls_stay_sound(g: GatewayView, t: TurnView, next: int, e: Seq<EventView>)
    requires
        open_calls(g.history(t.key), t),
        0 <= next <= t.calls.len(),
        all_answered(t.calls, t.results, next),
    ensures
        stays_sound(calling(g, t, next, e)),
    decreases t.calls.len() - next,
{
    reveal(calling);
    if next >= t.calls.len() || g.cancelled(t.key) {
        tools_stay_sound(g, t, e);
    } else {
        let c = t.calls[next];
        if !t.tools.contains(c.name) {
            let r = call_result(t, next, UNAVAILABLE_TOOL@ + c.name, true);
            result_answers(t, next, r);
            calls_stay_sound(
                g,
                with_result(t, next, r),
                next + 1,
                e.push(EventView::ToolStart { request: c }).push(result_event(r)),
            );
        }
    }
}

proof fn result_answers(t: TurnView, next: int, r: ContentView)
    requires
        0 <= next < t.calls.len(),
        all_answered(t.calls, t.results, next),
        is_result_of(r, t.calls[next].id),
    ensures
        all_answered(t.calls, t.results.push(r), next + 1),
{
    assert forall|i: int| 0 <= i < next + 1 implies answers(
        t.results.push(r),
        (#[trigger] t.calls[i]).id,
    ) by {
        answers_push(t.results, r, t.calls[i].id);
    }
}

proof fn commit_stays_sound(g: GatewayView, t: TurnView, m: MessageView)
    requires
        paired(g.history(t.key)),
    ensures
        stays_sound(committed(g, t, m, Seq::empty())),
{
    reveal(committed);
    let h = g.history(t.key);
    let g1 = g.with_message(t.key, m);
    let t1 = TurnView { new_messages: t.new_messages.push(m), ..t };
    assert(g1.history(t.key) == h.push(m));
    assert(h.push(m).drop_last() =~= h);
    if has_requests(m) {
        calls_stay_sound(
            g1,
            TurnView { calls: requests_in(m.content), results: Seq::empty(), ..t1 },
            0,
            Seq::empty(),
        );
    } else {
        paired_push_other(h, m);
        closing_stays_sound(
            g1,
            t1,
            Seq::<EventView>::empty().push(EventView::AssistantMessage { message: m }),
        );
    }
}

/// The provider is never sent a history with an unanswered tool call: if every
/// call is answered when a turn begins, every request of the turn has only
/// answered calls, whatever tools run, fail or are cancelled. Where images are
/// loaded for a request, the messages that come back must have their calls
/// answered as those that were handed out.
pub proof fn requests_stay_paired(g: GatewayView, t: TurnView, input: InputView)
    requires
        in_order(t),
        awaited(t, input),
        sound(g, t),
        input matches InputView::Loaded { messages } ==> paired(messages),
    ensures
        stays_sound(stepped(g, t, input)),
{
    reveal(rolled_back);
    match input {
        InputView::Begin => {
            closing_stays_sound(g, t, Seq::empty());
        },
        InputView::Loaded { messages } => {},
        InputView::Reply { response, usage } => {
            reveal(replied);
            let g1 = counted(g, t.key, usage);
            let t1 = TurnView { usage: t.usage.plus(usage), ..t };
            assert(g1.history(t.key) == g.history(t.key));
            if t.phase is Summarizing {
                reveal(finished);
            } else {
                commit_stays_sound(g1, t1, response);
                paired_push_user(t.phase->asked, user_text(t.policy.repair_text()->0));
            }
        },
        InputView::Failure { error, overflow } => {
            reveal(failing);
            reveal(finished);
        },
        InputView::RepairReply { outcome } => {
            reveal(repair_replied);
            let r = repaired_reply(t.policy, t.phase->response, outcome);
            let g1 = counted(g, t.key, r.1);
            assert(g1.history(t.key) == g.history(t.key));
            commit_stays_sound(g1, TurnView { usage: t.usage.plus(r.1), ..t }, r.0);
            commit_stays_sound(g, t, r.0);
        },
        InputView::ToolDone { content, is_error } => {
            let next = t.phase->next;
            let r = call_result(t, next, content, is_error);
            result_answers(t, next, r);
            calls_stay_sound(g, with_result(t, next, r), next + 1, seq![result_event(r)]);
        },
        InputView::Compacted { compacted } => {
            reveal(compaction_over);
            let t1 = TurnView {
                hit_limit: t.hit_limit || t.iteration + 1 >= t.max_iterations,
                iteration: (t.iteration + 1) as u32,
                ..t
            };
            closing_stays_sound(g, t1, Seq::empty());
            request_is_paired(g, t);
        },
    }
}

// ---------------------------------------------------------------------------
// What a failed turn leaves
// ---------------------------------------------------------------------------

/// Whether a turn began on a history and has only added to it.
pub open spec fn grew_from(h0: Seq<MessageView>, g: GatewayView, t: TurnView) -> bool {
    h0.is_prefix_of(g.history(t.key)) && t.start_len == h0.len()
}

proof fn prefix_push(h0: Seq<MessageView>, h: Seq<MessageView>, m: MessageView)
    requires
        h0.is_prefix_of(h),
    ensures
        h0.is_prefix_of(h.push(m)),
{
    assert(h.push(m).take(h0.len() as int) =~= h.take(h0.len() as int));
}

proof fn texts_only_add(h0: Seq<MessageView>, h: Seq<MessageView>, t: Seq<Seq<char>>)
    requires
        h0.is_prefix_of(h),
    ensures
        h0.is_prefix_of(with_texts(h, t)),
    decreases t.len(),
{
    if t.len() > 0 {
        texts_only_add(h0, h, t.drop_last());
        prefix_push(h0, with_texts(h, t.drop_last()), user_text(t.last()));
    }
}

proof fn closing_only_adds(h0: Seq<MessageView>, g: GatewayView, t: TurnView, e: Seq<EventView>)
    requires
        grew_from(h0, g, t),
    ensures
        grew_from(h0, finished(g, t, e).g, finished(g, t, e).t),
        grew_from(h0, wound_up(g, t, e).g, wound_up(g, t, e).t),
        grew_from(h0, iterating(g, t, e).g, iterating(g, t, e).t),
{
    reveal(finished);
    reveal(wound_up);
    reveal(iterating);
    texts_only_add(h0, g.history(t.key), g.waiting(t.key));
    let g1 = g.drained(t.key);
    prefix_push(h0, g1.history(t.key), user_text(LIMIT_MESSAGE@));
}

proof fn calls_only_add(
    h0: Seq<MessageView>,
    g: GatewayView,
    t: TurnView,
    next: int,
    e: Seq<EventView>,
)
    requires
        grew_from(h0, g, t),
    ensures
        grew_from(h0, calling(g, t, next, e).g, calling(g, t, next, e).t),
    decreases t.calls.len() - next,
{
    reveal(calling);
    if next < 0 || next >= t.calls.len() || g.cancelled(t.key) {
        reveal(tools_done);
        let added = if g.cancelled(t.key) {
            cancelled_results(t.calls, t.results, t.calls.len() as int)
        } else {
            Seq::empty()
        };
        let results = t.results + added;
        let m = MessageView { role: Role::User, content: results };
        prefix_push(h0, g.history(t.key), m);
        let t1 = TurnView {
            results,
            new_messages: if results.len() > 0 {
                t.new_messages.push(m)
            } else {
                t.new_messages
            },
            ..t
        };
        let g1 = if results.len() > 0 {
            g.with_message(t.key, m)
        } else {
            g
        };
        closing_only_adds(h0, g1, t1, e + result_events(added));
    } else {
        let c = t.calls[next];
        if !t.tools.contains(c.name) {
            let r = call_result(t, next, UNAVAILABLE_TOOL@ + c.name, true);
            calls_only_add(
                h0,
                g,
                with_result(t, next, r),
                next + 1,
                e.push(EventView::ToolStart { request: c }).push(result_event(r)),
            );
        }
    }
}

proof fn commit_only_adds(h0: Seq<MessageView>, g: GatewayView, t: TurnView, m: MessageView)
    requires
        grew_from(h0, g, t),
    ensures
        ({
            let o = committed(g, t, m, Seq::empty());
            grew_from(h0, o.g, o.t)
        }),
{
    reveal(committed);
    prefix_push(h0, g.history(t.key), m);
    let g1 = g.with_message(t.key, m);
    let t1 = TurnView { new_messages: t.new_messages.push(m), ..t };
    calls_only_add(
        h0,
        g1,
        TurnView { calls: requests_in(m.content), results: Seq::empty(), ..t1 },
        0,
        Seq::empty(),
    );
    closing_only_adds(
        h0,
        g1,
        t1,
        Seq::<EventView>::empty().push(EventView::AssistantMessage { message: m }),
    );
}

/// A failed turn leaves the session as it was before the turn, all messages of
/// the turn taken back.
pub proof fn failed_turn_restores_history(
    h0: Seq<MessageView>,
    g: GatewayView,
    t: TurnView,
    error: Seq<char>,
)
    requires
        grew_from(h0, g, t),
    ensures
        rolled_back(g, t, error).g.history(t.key) == h0,
{
    reveal(rolled_back);
    let h = g.history(t.key);
    if h0.len() == h.len() {
        assert(h.take(h0.len() as int) =~= h);
    }
}

/// A turn never touches the messages that were there before it: they stay the
/// beginning of the session through every step.
pub proof fn turn_only_adds(h0: Seq<MessageView>, g: GatewayView, t: TurnView, input: InputView)
    requires
        awaited(t, input),
        grew_from(h0, g, t),
    ensures
        grew_from(h0, stepped(g, t, input).g, stepped(g, t, input).t),
{
    assert forall|error: Seq<char>| ({
        let o = #[trigger] rolled_back(g, t, error);
        grew_from(h0, o.g, o.t)
    }) by {
        failed_turn_restores_history(h0, g, t, error);
        reveal(rolled_back);
        assert(h0.take(h0.len() as int) =~= h0);
    }
    match input {
        InputView::Begin => {
            closing_only_adds(h0, g, t, Seq::empty());
        },
        InputView::Loaded { messages } => {},
        InputView::Reply { response, usage } => {
            reveal(replied);
            let g1 = counted(g, t.key, usage);
            let t1 = TurnView { usage: t.usage.plus(usage), ..t };
            assert(g1.history(t.key) == g.history(t.key));
            commit_only_adds(h0, g1, t1, response);
            prefix_push(h0, g1.history(t.key), response);
            closing_only_adds(
                h0,
                g1.with_message(t.key, response),
                TurnView { new_messages: t1.new_messages.push(response), ..t1 },
                seq![EventView::AssistantMessage { message: response }],
            );
        },
        InputView::Failure { error, overflow } => {
            reveal(failing);
            closing_only_adds(h0, g, t, seq![EventView::Error { text: LIMIT_FAILED@ }]);
            let o = rolled_back(g, t, error);
        },
        InputView::RepairReply { outcome } => {
            reveal(repair_replied);
            let r = repaired_reply(t.policy, t.phase->response, outcome);
            let g1 = counted(g, t.key, r.1);
            assert(g1.history(t.key) == g.history(t.key));
            commit_only_adds(h0, g1, TurnView { usage: t.usage.plus(r.1), ..t }, r.0);
            commit_only_adds(h0, g, t, r.0);
        },
        InputView::ToolDone { content, is_error } => {
            let next = t.phase->next;
            let r = call_result(t, next, content, is_error);
            calls_only_add(h0, g, with_result(t, next, r), next + 1, seq![result_event(r)]);
        },
        InputView::Compacted { compacted } => {
            reveal(compaction_over);
            let t1 = TurnView {
                hit_limit: t.hit_limit || t.iteration + 1 >= t.max_iterations,
                iteration: (t.iteration + 1) as u32,
                ..t
            };
            closing_only_adds(h0, g, t1, Seq::empty());
        },
    }
}

/// A user below full trust is never told the text of an error: whatever it
/// is, a step says and asks for the same.
pub proof fn error_detail_needs_full_trust(g: GatewayView, t: TurnView, a: Seq<char>, b: Seq<char>)
    requires
        t.trust.rank() > crate::session::TrustLevel::Full.rank(),
    ensures
        forall|overflow: bool|
            (#[trigger] stepped(g, t, InputView::Failure { error: a, overflow })).step == stepped(
                g,
                t,
                InputView::Failure { error: b, overflow },
            ).step,
        forall|compacted: bool|
            (#[trigger] stepped(
                g,
                TurnView { phase: PhaseView::Recovering { error: a }, ..t },
                InputView::Compacted { compacted },
            )).step == stepped(
                g,
                TurnView { phase: PhaseView::Recovering { error: b }, ..t },
                InputView::Compacted { compacted },
            ).step,
{
    reveal(rolled_back);
    reveal(failing);
    reveal(compaction_over);
    reveal(finished);
}

/// A turn that opens on a history in which every tool call is answered begins
/// sound, and begins where the history ends.
pub proof fn opened_turn_is_sound(g: GatewayView, t: TurnView, m: MessageView)
    requires
        paired(g.history(t.key)),
        m.role == Role::User,
        t.phase is Starting,
        t.start_len == g.history(t.key).len(),
    ensures
        sound(g.with_message(t.key, m), t),
        grew_from(g.history(t.key), g.with_message(t.key, m), t),
{
    let h = g.history(t.key);
    paired_push_other(h, m);
    assert(h.take(h.len() as int) =~= h);
    prefix_push(h, h, m);
}

} // verus!
