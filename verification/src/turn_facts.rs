//! What a turn does with what comes in: replies, tool results, failures and
//! messages of the user.
use vstd::prelude::*;

use crate::compact_session::session_context;
use crate::gateway::{with_texts, GatewayView, SessionUsage};
use crate::message::{
    has_requests, requests_in, requests_nonempty, text_of, ContentView, MessageView, Role,
};
use crate::session::{KeyView, TrustLevel};
use crate::stream::{repaired_reply, RepairView};
use crate::turn::{
    awaited, calling, cancelled_results, committed, compaction_over, counted, failing, finished,
    in_order, iterating, last_reply, non_images, repair_replied, replied, result_event,
    result_events, rolled_back, stepped, tools_done, with_result, without_images, wound_up,
    ActionView, EventView, InputView, PhaseView, TurnView,
};
use crate::usage::Usage;

verus! {

/// A user message of one text.
spec fn said(text: Seq<char>) -> MessageView {
    MessageView { role: Role::User, content: seq![ContentView::Text { text }] }
}

/// The messages that wait for a session join it in their order, each as a user
/// message of its own, and wait no more.
pub proof fn waiting_messages_join(g: GatewayView, k: KeyView)
    ensures
        g.drained(k).history(k).len() == g.history(k).len() + g.waiting(k).len(),
        g.history(k).is_prefix_of(g.drained(k).history(k)),
        forall|i: int|
            #![trigger g.waiting(k)[i]]
            0 <= i < g.waiting(k).len() ==> g.drained(k).history(k)[g.history(k).len() + i] == (
            MessageView {
                role: Role::User,
                content: seq![ContentView::Text { text: g.waiting(k)[i] }],
            }),
        g.drained(k).waiting(k).len() == 0,
{
    texts_join(g.history(k), g.waiting(k));
    assert(g.history(k).take(g.history(k).len() as int) =~= g.history(k));
}

proof fn texts_join(h: Seq<MessageView>, t: Seq<Seq<char>>)
    ensures
        with_texts(h, t).len() == h.len() + t.len(),
        h.is_prefix_of(with_texts(h, t)),
        forall|i: int|
            #![trigger t[i]]
            0 <= i < t.len() ==> with_texts(h, t)[h.len() + i] == said(t[i]),
    decreases t.len(),
{
    if t.len() == 0 {
        assert(h.take(h.len() as int) =~= h);
    } else {
        texts_join(h, t.drop_last());
        let before = with_texts(h, t.drop_last());
        assert(before.push(said(t.last())).take(h.len() as int) =~= before.take(h.len() as int));
        assert forall|i: int| #![trigger t[i]] 0 <= i < t.len() implies with_texts(h, t)[h.len() + i]
            == said(t[i]) by {
            if i < t.len() - 1 {
                assert(t.drop_last()[i] == t[i]);
            }
        }
    }
}

proof fn prefix_grows(h: Seq<MessageView>, a: Seq<MessageView>, b: Seq<MessageView>)
    requires
        h.is_prefix_of(a),
        a.is_prefix_of(b),
    ensures
        h.is_prefix_of(b),
{
    assert(b.take(h.len() as int) =~= a.take(h.len() as int));
}

proof fn prefix_of_push(h: Seq<MessageView>, m: MessageView)
    ensures
        h.is_prefix_of(h.push(m)),
        h.is_prefix_of(h),
{
    assert(h.push(m).take(h.len() as int) =~= h);
    assert(h.take(h.len() as int) =~= h);
}

/// The end of a turn only adds to the session.
proof fn closing_keeps(g: GatewayView, t: TurnView, e: Seq<EventView>)
    ensures
        g.history(t.key).is_prefix_of(finished(g, t, e).g.history(t.key)),
        g.history(t.key).is_prefix_of(wound_up(g, t, e).g.history(t.key)),
        g.history(t.key).is_prefix_of(iterating(g, t, e).g.history(t.key)),
        wound_up(g, t, e).t.results == t.results,
        e.is_prefix_of(wound_up(g, t, e).step.events),
        !(wound_up(g, t, e).t.phase is Running),
        !(wound_up(g, t, e).t.phase is Compacting),
{
    reveal(finished);
    reveal(wound_up);
    reveal(iterating);
    let h = g.history(t.key);
    waiting_messages_join(g, t.key);
    let g1 = g.drained(t.key);
    let m = said(crate::turn::LIMIT_MESSAGE@);
    prefix_of_push(g1.history(t.key), m);
    prefix_of_push(h, m);
    prefix_grows(h, g1.history(t.key), g1.history(t.key).push(m));
    assert(e.take(e.len() as int) =~= e);
    let d = EventView::Done {
        messages: last_reply(t.new_messages, t.new_messages.len() as int),
        usage: t.usage,
        hit_limit: t.hit_limit,
    };
    assert(e.push(d).take(e.len() as int) =~= e);
}

/// The calls from `next` on: what is recorded for each, what is said, and what
/// joins the session.
proof fn calls_are_recorded(g: GatewayView, t: TurnView, next: int, e: Seq<EventView>)
    requires
        0 <= next <= t.calls.len(),
        t.results.len() > 0 || next < t.calls.len(),
    ensures
        ({
            let o = calling(g, t, next, e);
            let more = o.t.results.len() - t.results.len();
            &&& t.results.is_prefix_of(o.t.results)
            &&& e.is_prefix_of(o.step.events)
            &&& !g.cancelled(t.key) ==> forall|j: int|
                #![trigger t.calls[next + j]]
                0 <= j < more ==> !t.tools.contains(t.calls[next + j].name)
                    && o.t.results[t.results.len() + j] == (ContentView::ToolResult {
                    id: t.calls[next + j].id,
                    output: "tool not available in this session: "@ + t.calls[next + j].name,
                    is_error: true,
                })
            &&& g.cancelled(t.key) ==> forall|j: int|
                #![trigger o.t.results[j]]
                t.results.len() <= j < o.t.results.len() ==> o.t.results[j]->output
                    == "tool execution was cancelled because the turn was stopped by the user"@
                    && o.t.results[j]->is_error && o.t.results[j] is ToolResult
            &&& o.t.phase is Running ==> {
                &&& !g.cancelled(t.key)
                &&& next + more < t.calls.len()
                &&& o.t.phase == (PhaseView::Running { next: next + more })
                &&& t.tools.contains(t.calls[next + more].name)
                &&& o.step.action == (ActionView::RunTool { request: t.calls[next + more] })
                &&& o.step.events.last() == (EventView::ToolStart {
                    request: t.calls[next + more],
                })
                &&& o.g == g
            }
            &&& !(o.t.phase is Running) ==> {
                &&& !g.cancelled(t.key) ==> more == t.calls.len() - next && o.t.phase is Compacting
                    && o.step.action == (ActionView::Compact { force: false })
                    && o.g.history(t.key) == g.history(t.key).push(
                    MessageView { role: Role::User, content: o.t.results },
                ) && o.t.new_messages == t.new_messages.push(
                    MessageView { role: Role::User, content: o.t.results },
                )
                &&& o.t.results.len() > 0 ==> g.history(t.key).push(
                    MessageView { role: Role::User, content: o.t.results },
                ).is_prefix_of(o.g.history(t.key))
            }
        }),
    decreases t.calls.len() - next,
{
    reveal(calling);
    let o = calling(g, t, next, e);
    assert(t.results.take(t.results.len() as int) =~= t.results);
    assert(e.take(e.len() as int) =~= e);
    if next >= t.calls.len() || g.cancelled(t.key) {
        reveal(tools_done);
        let added = if g.cancelled(t.key) {
            cancelled_results(t.calls, t.results, t.calls.len() as int)
        } else {
            Seq::empty()
        };
        cancelled_texts(t.calls, t.results, t.calls.len() as int);
        let results = t.results + added;
        assert(results.take(t.results.len() as int) =~= t.results);
        let e1 = e + result_events(added);
        assert(e1.take(e.len() as int) =~= e);
        if !g.cancelled(t.key) {
            assert(results =~= t.results);
        }
        let m = MessageView { role: Role::User, content: results };
        let t1 = TurnView {
            results,
            new_messages: if results.len() > 0 {
                t.new_messages.push(m)
            } else {
                t.new_messages
            },
            ..t
        };
        let g1 = if results.len() > 0 {
            g.with_message(t.key, m)
        } else {
            g
        };
        closing_keeps(g1, t1, e1);
        if results.len() > 0 {
            assert(g1.history(t.key) == g.history(t.key).push(m));
            prefix_of_push(g.history(t.key).push(m), m);
        }
        if g.cancelled(t.key) {
            let all = wound_up(g1, t1, e1).step.events;
            assert(all.take(e.len() as int) =~= e1.take(e.len() as int));
        }
        assert forall|j: int| #![trigger o.t.results[j]] t.results.len() <= j < o.t.results.len() && g.cancelled(t.key) implies o.t.results[j]->output
            == "tool execution was cancelled because the turn was stopped by the user"@ && o.t.results[j]->is_error && o.t.results[j] is ToolResult by {
            assert(o.t.results[j] == added[j - t.results.len()]);
        }
    } else {
        let c = t.calls[next];
        let e1 = e.push(EventView::ToolStart { request: c });
        assert(e1.take(e.len() as int) =~= e);
        if t.tools.contains(c.name) {
            assert(t.calls[next + 0] == c);
        } else {
            let r = ContentView::ToolResult {
                id: c.id,
                output: "tool not available in this session: "@ + c.name,
                is_error: true,
            };
            let e2 = e1.push(result_event(r));
            let t1 = with_result(t, next, r);
            assert(t1.results == t.results.push(r));
            calls_are_recorded(g, t1, next + 1, e2);
            let more = o.t.results.len() - t.results.len();
            assert(o.t.results.take(t.results.len() as int) =~= t.results) by {
                assert(o.t.results.take(t1.results.len() as int) == t1.results);
                assert(t1.results.take(t.results.len() as int) =~= t.results);
            }
            assert(o.t.results[t.results.len() as int] == t1.results[t.results.len() as int]);
            assert(o.step.events.take(e.len() as int) =~= e) by {
                assert(o.step.events.take(e2.len() as int) == e2);
                assert(e2.take(e.len() as int) =~= e);
            }
            if !g.cancelled(t.key) {
                assert forall|j: int| #![trigger t.calls[next + j]] 0 <= j < more implies !t.tools.contains(
                    t.calls[next + j].name,
                ) && o.t.results[t.results.len() + j] == (ContentView::ToolResult {
                    id: t.calls[next + j].id,
                    output: "tool not available in this session: "@ + t.calls[next + j].name,
                    is_error: true,
                }) by {
                    if j > 0 {
                        assert(t1.calls[next + 1 + (j - 1)] == t.calls[next + j]);
                        assert(o.t.results[t1.results.len() + (j - 1)] == o.t.results[t.results.len()
                            + j]);
                    }
                }
                assert(t1.calls[next + 1 + (more - 1)] == t.calls[next + more]);
            }
        }
    }
}

proof fn cancelled_texts(
    calls: Seq<crate::message::RequestView>,
    done: Seq<ContentView>,
    n: int,
)
    ensures
        forall|j: int|
            #![trigger cancelled_results(calls, done, n)[j]]
            0 <= j < cancelled_results(calls, done, n).len() ==> cancelled_results(
                calls,
                done,
                n,
            )[j]->output == "tool execution was cancelled because the turn was stopped by the user"@
                && cancelled_results(calls, done, n)[j]->is_error && cancelled_results(
                calls,
                done,
                n,
            )[j] is ToolResult,
    decreases n,
{
    if n > 0 {
        cancelled_texts(calls, done, n - 1);
        let rest = cancelled_results(calls, done, n - 1);
        let all = cancelled_results(calls, done, n);
        assert forall|j: int| #![trigger all[j]] 0 <= j < all.len() implies all[j]->output
            == "tool execution was cancelled because the turn was stopped by the user"@
            && all[j]->is_error && all[j] is ToolResult by {
            if j < rest.len() {
                assert(all[j] == rest[j]);
            }
        }
    }
}

/// What a tool returns is recorded as it is: whichever call of a reply it was
/// for, its result has the id of that call, the very output and the very flag,
/// is told at once, and is among the results of the message that joins the
/// session when the calls are over. A call of a tool that the session lacks
/// has an error for its result, and the next call of one that it has is made.
pub proof fn tool_results_are_kept(g: GatewayView, t: TurnView, content: Seq<char>, is_error: bool)
    requires
        in_order(t),
        t.phase is Running,
    ensures
        ({
            let n = t.phase->next;
            let o = stepped(g, t, InputView::ToolDone { content, is_error });
            let r = ContentView::ToolResult { id: t.calls[n].id, output: content, is_error };
            let more = o.t.results.len() - t.results.len() - 1;
            &&& o.step.events.len() > 0
            &&& o.step.events[0] == (EventView::ToolResult {
                id: t.calls[n].id,
                message: MessageView { role: Role::User, content: seq![r] },
            })
            &&& t.results.push(r).is_prefix_of(o.t.results)
            &&& !g.cancelled(t.key) ==> forall|j: int|
                #![trigger t.calls[n + 1 + j]]
                0 <= j < more ==> !t.tools.contains(t.calls[n + 1 + j].name)
                    && o.t.results[t.results.len() + 1 + j] == (ContentView::ToolResult {
                    id: t.calls[n + 1 + j].id,
                    output: "tool not available in this session: "@ + t.calls[n + 1 + j].name,
                    is_error: true,
                })
            &&& o.t.phase is Running ==> {
                &&& o.t.phase == (PhaseView::Running { next: n + 1 + more })
                &&& n + 1 + more < t.calls.len()
                &&& o.step.action == (ActionView::RunTool { request: t.calls[n + 1 + more] })
                &&& o.step.events.last() == (EventView::ToolStart {
                    request: t.calls[n + 1 + more],
                })
                &&& o.g == g
            }
            &&& !(o.t.phase is Running) && !g.cancelled(t.key) ==> {
                &&& more == t.calls.len() - n - 1
                &&& o.step.action == (ActionView::Compact { force: false })
                &&& o.g.history(t.key) == g.history(t.key).push(
                    MessageView { role: Role::User, content: o.t.results },
                )
                &&& o.t.new_messages == t.new_messages.push(
                    MessageView { role: Role::User, content: o.t.results },
                )
            }
            &&& g.cancelled(t.key) ==> {
                &&& g.history(t.key).push(
                    MessageView { role: Role::User, content: o.t.results },
                ).is_prefix_of(o.g.history(t.key))
                &&& forall|j: int|
                    #![trigger o.t.results[j]]
                    t.results.len() < j < o.t.results.len() ==> o.t.results[j]->output
                        == "tool execution was cancelled because the turn was stopped by the user"@
                        && o.t.results[j]->is_error
            }
        }),
{
    let n = t.phase->next;
    let r = ContentView::ToolResult { id: t.calls[n].id, output: content, is_error };
    let t1 = with_result(t, n, r);
    let e = seq![result_event(r)];
    calls_are_recorded(g, t1, n + 1, e);
    let o = stepped(g, t, InputView::ToolDone { content, is_error });
    assert(o == calling(g, t1, n + 1, e));
    assert(o.step.events.take(1) == e);
    assert(o.step.events[0] == o.step.events.take(1)[0]);
    let more = o.t.results.len() - t.results.len() - 1;
    assert(o.t.results.len() >= t1.results.len()) by {
        assert(o.t.results.take(t1.results.len() as int) == t1.results);
    }
    if !g.cancelled(t.key) {
        assert forall|j: int| #![trigger t.calls[n + 1 + j]] 0 <= j < more implies !t.tools.contains(
            t.calls[n + 1 + j].name,
        ) && o.t.results[t.results.len() + 1 + j] == (ContentView::ToolResult {
            id: t.calls[n + 1 + j].id,
            output: "tool not available in this session: "@ + t.calls[n + 1 + j].name,
            is_error: true,
        }) by {
            assert(t1.calls[n + 1 + j] == t.calls[n + 1 + j]);
            assert(o.t.results[t1.results.len() + j] == o.t.results[t.results.len() + 1 + j]);
        }
    }
}

/// A reply without tool calls that needs no repair ends the turn: it joins the
/// session, is told, and is what the turn hands out, with the tokens of all
/// calls.
pub proof fn final_reply_ends_the_turn(g: GatewayView, t: TurnView, m: MessageView, usage: Usage)
    requires
        t.phase is Waiting,
        m.role == Role::Assistant,
        forall|i: int| 0 <= i < m.content.len() ==> !(#[trigger] m.content[i] is ToolRequest),
        !t.policy.wants_repair(text_of(m)),
        !t.hit_limit,
    ensures
        ({
            let o = stepped(g, t, InputView::Reply { response: m, usage });
            &&& o.step.action is Stop
            &&& o.step.events == seq![
                EventView::AssistantMessage { message: m },
                EventView::Done {
                    messages: seq![m],
                    usage: t.usage.plus(usage),
                    hit_limit: false,
                },
            ]
            &&& g.history(t.key).push(m).is_prefix_of(o.g.history(t.key))
            &&& o.t.new_messages == t.new_messages.push(m)
            &&& o.g.usage_of(t.key) == (SessionUsage {
                cumulative: g.usage_of(t.key).cumulative.plus(t.usage.plus(usage)),
                last_input_tokens: usage.context_tokens(),
            })
        }),
{
    reveal(replied);
    reveal(committed);
    reveal(wound_up);
    reveal(finished);
    let o = stepped(g, t, InputView::Reply { response: m, usage });
    let g1 = counted(g, t.key, usage);
    let g2 = g1.with_message(t.key, m);
    assert(!has_requests(m));
    assert(g2.history(t.key) == g.history(t.key).push(m));
    waiting_messages_join(g2, t.key);
    let n = t.new_messages.push(m);
    assert(last_reply(n, n.len() as int) == seq![m]);
    assert(o.step.events =~= seq![
        EventView::AssistantMessage { message: m },
        EventView::Done { messages: seq![m], usage: t.usage.plus(usage), hit_limit: false },
    ]);
}

/// A reply with tool calls joins the session, and its calls are made in their
/// order: the first of a tool that the session has, after errors for those
/// before it.
pub proof fn calls_of_a_reply_are_made(g: GatewayView, t: TurnView, m: MessageView, usage: Usage)
    requires
        in_order(t),
        t.phase is Waiting,
        exists|i: int| 0 <= i < m.content.len() && #[trigger] m.content[i] is ToolRequest,
        !g.cancelled(t.key),
    ensures
        ({
            let o = stepped(g, t, InputView::Reply { response: m, usage });
            let calls = requests_in(m.content);
            let k = o.t.results.len() as int;
            &&& calls.len() > 0
            &&& o.t.calls == calls
            &&& g.history(t.key).push(m).is_prefix_of(o.g.history(t.key))
            &&& o.t.usage == t.usage.plus(usage)
            &&& o.g.usage_of(t.key).last_input_tokens == usage.context_tokens()
            &&& forall|j: int|
                #![trigger calls[j]]
                0 <= j < k ==> !t.tools.contains(calls[j].name) && o.t.results[j] == (
                ContentView::ToolResult {
                    id: calls[j].id,
                    output: "tool not available in this session: "@ + calls[j].name,
                    is_error: true,
                })
            &&& o.t.phase is Running ==> {
                &&& k < calls.len()
                &&& o.t.phase == (PhaseView::Running { next: k })
                &&& t.tools.contains(calls[k].name)
                &&& o.step.action == (ActionView::RunTool { request: calls[k] })
                &&& o.step.events.last() == (EventView::ToolStart { request: calls[k] })
                &&& o.g.history(t.key) == g.history(t.key).push(m)
                &&& o.t.new_messages == t.new_messages.push(m)
            }
            &&& !(o.t.phase is Running) ==> {
                &&& k == calls.len()
                &&& o.step.action == (ActionView::Compact { force: false })
                &&& o.g.history(t.key) == g.history(t.key).push(m).push(
                    MessageView { role: Role::User, content: o.t.results },
                )
            }
        }),
{
    reveal(replied);
    reveal(committed);
    assert(has_requests(m));
    requests_nonempty(m.content);
    let g1 = counted(g, t.key, usage).with_message(t.key, m);
    let h = g.history(t.key);
    assert(g1.history(t.key) == h.push(m));
    let t1 = TurnView {
        usage: t.usage.plus(usage),
        new_messages: t.new_messages.push(m),
        calls: requests_in(m.content),
        results: Seq::empty(),
        ..t
    };
    calls_are_recorded(g1, t1, 0, Seq::empty());
    let o = calling(g1, t1, 0, Seq::empty());
    assert(o == stepped(g, t, InputView::Reply { response: m, usage }));
    let calls = requests_in(m.content);
    let k = o.t.results.len() as int;
    assert forall|j: int| #![trigger calls[j]] 0 <= j < k implies !t.tools.contains(calls[j].name)
        && o.t.results[j] == (ContentView::ToolResult {
        id: calls[j].id,
        output: "tool not available in this session: "@ + calls[j].name,
        is_error: true,
    }) by {
        assert(t1.calls[0 + j] == calls[j]);
        assert(o.t.results[t1.results.len() + j] == o.t.results[j]);
    }
    assert(t1.calls[0 + k] == calls[k]);
    prefix_of_push(h.push(m), MessageView { role: Role::User, content: o.t.results });
    calls_keep_usage(g1, t1, 0, Seq::empty());
}

proof fn calls_keep_usage(g: GatewayView, t: TurnView, next: int, e: Seq<EventView>)
    requires
        !g.cancelled(t.key),
        next >= 0,
    ensures
        calling(g, t, next, e).t.usage == t.usage,
        calling(g, t, next, e).t.calls == t.calls,
        calling(g, t, next, e).g.usage == g.usage,
        calling(g, t, next, e).t.phase is Running ==> calling(g, t, next, e).t.new_messages
            == t.new_messages,
    decreases t.calls.len() - next,
{
    reveal(calling);
    reveal(tools_done);
    if next < t.calls.len() && !t.tools.contains(t.calls[next].name) {
        let c = t.calls[next];
        let r = ContentView::ToolResult {
            id: c.id,
            output: crate::turn::UNAVAILABLE_TOOL@ + c.name,
            is_error: true,
        };
        calls_keep_usage(
            g,
            with_result(t, next, r),
            next + 1,
            e.push(EventView::ToolStart { request: c }).push(result_event(r)),
        );
    }
}

/// Whether a step asks the model with the messages of the session: as they are
/// where their images are loaded first, else without their images.
pub open spec fn asks_with_session(
    o: crate::turn::Outcome,
    t: TurnView,
    with_tools: bool,
) -> bool {
    let m = session_context(o.g, t.key);
    if t.image_input {
        o.step.action == (ActionView::LoadImages { messages: m }) && o.t.phase == (
        PhaseView::Loading { with_tools })
    } else {
        o.step.action == (ActionView::Ask { messages: without_images(m), with_tools })
    }
}

/// A turn begins by asking the model, with the tools, about the session and
/// the messages that came in since.
pub proof fn turns_begin_with_a_question(g: GatewayView, t: TurnView)
    requires
        t.phase is Starting,
        t.iteration < t.max_iterations,
        !g.cancelled(t.key),
    ensures
        ({
            let o = stepped(g, t, InputView::Begin);
            &&& asks_with_session(o, t, true)
            &&& o.g.history(t.key) == g.drained(t.key).history(t.key)
            &&& o.step.events.len() == 0
            &&& o.t.new_messages == t.new_messages
        }),
{
    reveal(iterating);
}

/// After tool calls the model is asked again, with the tools, as long as there
/// are iterations left; after the last one it is asked without them to sum up,
/// and the turn is marked as one that hit its limit.
pub proof fn iterations_go_on_to_the_limit(g: GatewayView, t: TurnView, compacted: bool)
    requires
        in_order(t),
        t.phase is Compacting,
        !g.cancelled(t.key),
        !t.hit_limit,
    ensures
        ({
            let o = stepped(g, t, InputView::Compacted { compacted });
            &&& t.iteration + 1 < t.max_iterations ==> {
                &&& asks_with_session(o, t, true)
                &&& o.t.iteration == t.iteration + 1
                &&& !o.t.hit_limit
                &&& o.g.history(t.key) == g.drained(t.key).history(t.key)
            }
            &&& t.iteration + 1 >= t.max_iterations ==> {
                let m = MessageView {
                    role: Role::User,
                    content: seq![
                        ContentView::Text {
                            text: "You have reached the maximum number of tool-call iterations for this turn. You cannot call any more tools. Summarize what you accomplished, what is still incomplete, and what the user should know to continue."@,
                        },
                    ],
                };
                &&& asks_with_session(o, t, false)
                &&& o.t.hit_limit
                &&& o.g.history(t.key) == g.drained(t.key).history(t.key).push(m)
                &&& o.t.new_messages == t.new_messages.push(m)
            }
            &&& o.step.events.len() == 0
        }),
{
    reveal(compaction_over);
    reveal(iterating);
    reveal(wound_up);
}

/// The messages with loaded images are the ones that the model is asked with.
pub proof fn loaded_messages_are_sent(g: GatewayView, t: TurnView, messages: Seq<MessageView>)
    requires
        t.phase is Loading,
    ensures
        ({
            let o = stepped(g, t, InputView::Loaded { messages });
            &&& o.step.action == (ActionView::Ask { messages, with_tools: t.phase->with_tools })
            &&& o.g == g
            &&& o.step.events.len() == 0
        }),
{
}

/// The answer to the request to sum up joins the session and is handed out, and
/// the turn says that it hit its limit; a failure to answer is told.
pub proof fn summaries_are_handed_out(g: GatewayView, t: TurnView, m: MessageView, usage: Usage)
    requires
        t.phase is Summarizing,
        t.hit_limit,
        m.role == Role::Assistant,
        forall|i: int| 0 <= i < m.content.len() ==> !(#[trigger] m.content[i] is ToolRequest),
    ensures
        ({
            let o = stepped(g, t, InputView::Reply { response: m, usage });
            &&& o.step.action is Stop
            &&& o.step.events == seq![
                EventView::AssistantMessage { message: m },
                EventView::Done { messages: seq![m], usage: t.usage.plus(usage), hit_limit: true },
            ]
            &&& o.g.history(t.key) == g.history(t.key).push(m)
        }),
        forall|error: Seq<char>, overflow: bool|
            (#[trigger] stepped(g, t, InputView::Failure { error, overflow })).step.events[0] == (
            EventView::Error {
                text: "Hit iteration limit and failed to generate summary."@,
            }) && stepped(g, t, InputView::Failure { error, overflow }).step.action is Stop
                && stepped(g, t, InputView::Failure { error, overflow }).g.history(t.key)
                == g.history(t.key),
{
    reveal(replied);
    reveal(failing);
    reveal(finished);
    assert(!has_requests(m));
    let n = t.new_messages.push(m);
    assert(last_reply(n, n.len() as int) == seq![m]);
    let o = stepped(g, t, InputView::Reply { response: m, usage });
    assert(o.step.events =~= seq![
        EventView::AssistantMessage { message: m },
        EventView::Done { messages: seq![m], usage: t.usage.plus(usage), hit_limit: true },
    ]);
}

/// A request that overflowed is tried once more after a compaction, with the
/// session as it is; a turn whose request failed for good tells the error to
/// those of full trust and the owner, and nobody else, and leaves the session
/// as it was before the turn.
pub proof fn failures_are_told_and_taken_back(
    g: GatewayView,
    t: TurnView,
    error: Seq<char>,
    overflow: bool,
)
    requires
        t.phase is Waiting,
        t.start_len <= g.history(t.key).len(),
    ensures
        ({
            let o = stepped(g, t, InputView::Failure { error, overflow });
            let retry = stepped(o.g, o.t, InputView::Compacted { compacted: true });
            let lost = stepped(o.g, o.t, InputView::Compacted { compacted: false });
            let text = if t.trust == TrustLevel::Owner || t.trust == TrustLevel::Full {
                error
            } else {
                "Something went wrong. Please try again later."@
            };
            let end = seq![
                EventView::Error { text },
                EventView::Done { messages: Seq::empty(), usage: t.usage, hit_limit: false },
            ];
            let back = g.history(t.key).take(t.start_len as int);
            if overflow && !t.retried {
                &&& o.step.action == (ActionView::Compact { force: true })
                &&& o.step.events.len() == 0
                &&& o.g == g
                &&& asks_with_session(retry, t, true)
                &&& retry.g == g
                &&& retry.t.retried
                &&& lost.step.events == end
                &&& lost.step.action is Stop
                &&& lost.g.history(t.key) == back
            } else {
                &&& o.step.events == end
                &&& o.step.action is Stop
                &&& o.g.history(t.key) == back
            }
        }),
{
    reveal(failing);
    reveal(rolled_back);
    reveal(compaction_over);
    let h = g.history(t.key);
    if t.start_len == h.len() {
        assert(h.take(t.start_len as int) =~= h);
    }
}

/// A blank reply where one is owed is asked for once more, with the very
/// messages that were sent and the prompt of the policy behind them, and does
/// not join the session; a repaired reply takes its place.
pub proof fn blank_replies_are_asked_for_again(
    g: GatewayView,
    t: TurnView,
    m: MessageView,
    usage: Usage,
    better: MessageView,
    more: Usage,
)
    requires
        t.phase is Waiting,
        forall|i: int| 0 <= i < m.content.len() ==> !(#[trigger] m.content[i] is ToolRequest),
        t.policy.wants_repair(text_of(m)),
        !t.hit_limit,
        better.role == Role::Assistant,
        forall|i: int|
            0 <= i < better.content.len() ==> !(#[trigger] better.content[i] is ToolRequest),
        crate::text::trimmed(text_of(better)).len() > 0,
    ensures
        ({
            let o = stepped(g, t, InputView::Reply { response: m, usage });
            let done = stepped(
                o.g,
                o.t,
                InputView::RepairReply {
                    outcome: RepairView::Replied { response: better, usage: more },
                },
            );
            &&& o.step.action == (ActionView::AskRepair {
                messages: t.phase->asked.push(
                    MessageView {
                        role: Role::User,
                        content: seq![ContentView::Text { text: t.policy.repair_text()->0 }],
                    },
                ),
            })
            &&& o.g.history(t.key) == g.history(t.key)
            &&& o.step.events.len() == 0
            &&& done.step.action is Stop
            &&& done.step.events.len() == 2
            &&& done.step.events[0] == (EventView::AssistantMessage { message: better })
            &&& done.step.events[1] matches EventView::Done { messages, hit_limit, usage: all }
                && messages == seq![better] && !hit_limit && (more.context_tokens() > 0 ==> all
                == t.usage.plus(usage).plus(more))
            &&& g.history(t.key).push(better).is_prefix_of(done.g.history(t.key))
        }),
{
    reveal(replied);
    reveal(repair_replied);
    reveal(committed);
    reveal(wound_up);
    reveal(finished);
    assert(!has_requests(m));
    assert(!has_requests(better));
    let o = stepped(g, t, InputView::Reply { response: m, usage });
    let outcome = RepairView::Replied { response: better, usage: more };
    let r = repaired_reply(t.policy, m, outcome);
    assert(r.0 == better && r.1 == more);
    let g1 = counted(o.g, t.key, more);
    let n = o.t.new_messages.push(better);
    assert(last_reply(n, n.len() as int) == seq![better]);
    assert(g1.with_message(t.key, better).history(t.key) == g.history(t.key).push(better));
    assert(o.g.with_message(t.key, better).history(t.key) == g.history(t.key).push(better));
    waiting_messages_join(g1.with_message(t.key, better), t.key);
    waiting_messages_join(o.g.with_message(t.key, better), t.key);
}

/// Taking the images out of parts takes out nothing else, and leaves the order
/// as it is.
pub proof fn only_images_are_left_out(a: Seq<ContentView>, b: Seq<ContentView>, x: ContentView)
    ensures
        non_images(a + b) == non_images(a) + non_images(b),
        non_images(seq![x]) == (if x is Image {
            Seq::empty()
        } else {
            seq![x]
        }),
    decreases b.len(),
{
    let one = seq![x];
    assert(one.drop_last() =~= Seq::empty());
    assert(non_images(one.drop_last()) =~= Seq::empty());
    assert(non_images(one) =~= (if x is Image {
        Seq::empty()
    } else {
        seq![x]
    }));
    if b.len() == 0 {
        assert(a + b =~= a);
        assert(non_images(a) + non_images(b) =~= non_images(a));
    } else {
        only_images_are_left_out(a, b.drop_last(), x);
        assert((a + b).drop_last() =~= a + b.drop_last());
        assert((a + b).last() == b.last());
        assert(non_images(a + b) =~= non_images(a) + non_images(b));
    }
}

/// Messages without their images are as many as before, each by whom it was.
pub proof fn messages_outlive_their_images(m: Seq<MessageView>, i: int)
    requires
        0 <= i < m.len(),
    ensures
        without_images(m).len() == m.len(),
        without_images(m)[i].role == m[i].role,
        without_images(m)[i].content == non_images(m[i].content),
{
}

/// Whether all but one session is the same in two states.
pub open spec fn elsewhere_same(a: GatewayView, b: GatewayView, k: KeyView) -> bool {
    &&& forall|other: KeyView|
        #![trigger a.history(other)]
        #![trigger b.history(other)]
        other != k ==> a.history(other) == b.history(other)
    &&& forall|other: KeyView|
        #![trigger a.usage_of(other)]
        #![trigger b.usage_of(other)]
        other != k ==> a.usage_of(other) == b.usage_of(other)
    &&& forall|other: KeyView|
        #![trigger a.waiting(other)]
        #![trigger b.waiting(other)]
        other != k ==> a.waiting(other) == b.waiting(other)
    &&& a.compactions == b.compactions
    &&& a.epochs == b.epochs
    &&& a.active == b.active
    &&& a.agent_id == b.agent_id
}

proof fn closing_stays_here(g: GatewayView, t: TurnView, e: Seq<EventView>)
    ensures
        elsewhere_same(finished(g, t, e).g, g, t.key),
        elsewhere_same(wound_up(g, t, e).g, g, t.key),
        elsewhere_same(iterating(g, t, e).g, g, t.key),
{
    reveal(finished);
    reveal(wound_up);
    reveal(iterating);
}

proof fn calls_stay_here(g: GatewayView, t: TurnView, next: int, e: Seq<EventView>)
    ensures
        elsewhere_same(calling(g, t, next, e).g, g, t.key),
    decreases t.calls.len() - next,
{
    reveal(calling);
    if next < 0 || next >= t.calls.len() || g.cancelled(t.key) {
        reveal(tools_done);
        let added = if g.cancelled(t.key) {
            cancelled_results(t.calls, t.results, t.calls.len() as int)
        } else {
            Seq::empty()
        };
        let results = t.results + added;
        let m = MessageView { role: Role::User, content: results };
        let t1 = TurnView {
            results,
            new_messages: if results.len() > 0 {
                t.new_messages.push(m)
            } else {
                t.new_messages
            },
            ..t
        };
        let g1 = if results.len() > 0 {
            g.with_message(t.key, m)
        } else {
            g
        };
        closing_stays_here(g1, t1, e + result_events(added));
    } else {
        let c = t.calls[next];
        if !t.tools.contains(c.name) {
            let r = ContentView::ToolResult {
                id: c.id,
                output: crate::turn::UNAVAILABLE_TOOL@ + c.name,
                is_error: true,
            };
            calls_stay_here(
                g,
                with_result(t, next, r),
                next + 1,
                e.push(EventView::ToolStart { request: c }).push(result_event(r)),
            );
        }
    }
}

proof fn commit_stays_here(g: GatewayView, t: TurnView, m: MessageView)
    ensures
        elsewhere_same(committed(g, t, m, Seq::empty()).g, g, t.key),
{
    reveal(committed);
    let g1 = g.with_message(t.key, m);
    let t1 = TurnView { new_messages: t.new_messages.push(m), ..t };
    calls_stay_here(
        g1,
        TurnView { calls: requests_in(m.content), results: Seq::empty(), ..t1 },
        0,
        Seq::empty(),
    );
    closing_stays_here(
        g1,
        t1,
        Seq::<EventView>::empty().push(EventView::AssistantMessage { message: m }),
    );
}

/// A turn works in its own session: it changes nothing of any other, and
/// nothing of compactions, of how often sessions were started, or of which
/// turns run.
pub proof fn turns_stay_in_their_session(g: GatewayView, t: TurnView, input: InputView)
    requires
        awaited(t, input),
    ensures
        elsewhere_same(stepped(g, t, input).g, g, t.key),
{
    reveal(rolled_back);
    match input {
        InputView::Begin => {
            closing_stays_here(g, t, Seq::empty());
        },
        InputView::Loaded { messages } => {},
        InputView::Reply { response, usage } => {
            reveal(replied);
            let g1 = counted(g, t.key, usage);
            let t1 = TurnView { usage: t.usage.plus(usage), ..t };
            commit_stays_here(g1, t1, response);
            closing_stays_here(
                g1.with_message(t.key, response),
                TurnView { new_messages: t1.new_messages.push(response), ..t1 },
                seq![EventView::AssistantMessage { message: response }],
            );
        },
        InputView::Failure { error, overflow } => {
            reveal(failing);
            closing_stays_here(
                g,
                t,
                seq![EventView::Error { text: crate::turn::LIMIT_FAILED@ }],
            );
        },
        InputView::RepairReply { outcome } => {
            reveal(repair_replied);
            let r = repaired_reply(t.policy, t.phase->response, outcome);
            let g1 = counted(g, t.key, r.1);
            commit_stays_here(g1, TurnView { usage: t.usage.plus(r.1), ..t }, r.0);
            commit_stays_here(g, t, r.0);
        },
        InputView::ToolDone { content, is_error } => {
            let next = t.phase->next;
            let r = ContentView::ToolResult { id: t.calls[next].id, output: content, is_error };
            calls_stay_here(g, with_result(t, next, r), next + 1, seq![result_event(r)]);
        },
        InputView::Compacted { compacted } => {
            reveal(compaction_over);
            let t1 = TurnView {
                hit_limit: t.hit_limit || t.iteration + 1 >= t.max_iterations,
                iteration: (t.iteration + 1) as u32,
                ..t
            };
            closing_stays_here(g, t1, Seq::empty());
        },
    }
}

proof fn last_reply_at(m: Seq<MessageView>, n: int, p: int)
    requires
        0 <= p < n <= m.len(),
        m[p].role == Role::Assistant,
        !has_requests(m[p]),
        forall|j: int|
            p < j < n ==> (#[trigger] m[j]).role == Role::User || has_requests(m[j]),
    ensures
        last_reply(m, n) == seq![m[p]],
    decreases n,
{
    if n - 1 > p {
        assert(m[n - 1].role == Role::User || has_requests(m[n - 1]));
        last_reply_at(m, n - 1, p);
    }
}

proof fn no_last_reply(m: Seq<MessageView>, n: int)
    requires
        n <= m.len(),
        forall|j: int| 0 <= j < n ==> (#[trigger] m[j]).role == Role::User || has_requests(m[j]),
    ensures
        last_reply(m, n).len() == 0,
    decreases n,
{
    if n > 0 {
        assert(m[n - 1].role == Role::User || has_requests(m[n - 1]));
        no_last_reply(m, n - 1);
    }
}

/// The reply that a turn hands out is the last message of the agent that calls
/// no tool, and there is none where every message of the agent calls some.
pub proof fn last_words_are_handed_out(m: Seq<MessageView>, p: int)
    ensures
        0 <= p < m.len() && m[p].role == Role::Assistant && (forall|i: int|
            0 <= i < m[p].content.len() ==> !(#[trigger] m[p].content[i] is ToolRequest)) && (
        forall|j: int|
            p < j < m.len() ==> (#[trigger] m[j]).role == Role::User || has_requests(m[j]))
            ==> last_reply(m, m.len() as int) == seq![m[p]],
        (forall|j: int|
            0 <= j < m.len() ==> (#[trigger] m[j]).role == Role::User || has_requests(m[j]))
            ==> last_reply(m, m.len() as int).len() == 0,
{
    if 0 <= p < m.len() && m[p].role == Role::Assistant && (forall|i: int|
        0 <= i < m[p].content.len() ==> !(#[trigger] m[p].content[i] is ToolRequest)) && (forall|
        j: int,
    | p < j < m.len() ==> (#[trigger] m[j]).role == Role::User || has_requests(m[j])) {
        last_reply_at(m, m.len() as int, p);
    }
    if forall|j: int|
        0 <= j < m.len() ==> (#[trigger] m[j]).role == Role::User || has_requests(m[j]) {
        no_last_reply(m, m.len() as int);
    }
}

} // verus!
