//! What a turn is set up with: its prompt, its model and its tools, and how its
//! calls are tried again.
use vstd::prelude::*;

use crate::compaction_store::{slug, state_file};
use crate::config::{CronDeliveryMode, GroupConfig, GroupTrigger, StreamPolicy, UserConfig};
use crate::final_reply::FinalReplyPolicy;
use crate::group_history::history_text;
use crate::message::{text_of, ContentView, MessageView, Role};
use crate::models::{configured_name, limit_from, model_of, session_tools};
use crate::prompt::{
    activation, assembled, delivery_block, group_from, intro_lines, is_for, roster, signal_target,
};
use crate::session::{key_text, KeyView, KindView};
use crate::stream::{
    backoff, call_decision, doublings, lacks_announced_calls, next_call, repaired_reply, transient,
    AssistantCall, CallDecision, RepairView,
};
use crate::text::{
    has_text, has_text_splits, joined, lower_ascii, opt_view, trimmed, views,
};
use crate::text_laws::{ends_come_off, lists_join};
use crate::usage::Usage;

verus! {

/// A scheduled turn is told where its reply goes and how it is delivered:
/// always, or only when needed and with the token that says so else.
pub proof fn scheduled_turns_are_told_how(channel: Seq<char>)
    ensures
        has_text(delivery_block(CronDeliveryMode::Always, Some(channel)), "via "@ + channel + "."@),
        has_text(
            delivery_block(CronDeliveryMode::Always, Some(channel)),
            "delivery = \"always\""@,
        ),
        has_text(
            delivery_block(CronDeliveryMode::AsNeeded, Some(channel)),
            "via "@ + channel + "."@,
        ),
        has_text(
            delivery_block(CronDeliveryMode::AsNeeded, Some(channel)),
            "delivery = \"as_needed\""@,
        ),
        has_text(
            delivery_block(CronDeliveryMode::AsNeeded, Some(channel)),
            "reply with exactly NO_ACTION_NEEDED"@,
        ),
        delivery_block(CronDeliveryMode::Always, None) == delivery_block(
            CronDeliveryMode::Always,
            Some("messaging"@),
        ),
        delivery_block(CronDeliveryMode::AsNeeded, None) == delivery_block(
            CronDeliveryMode::AsNeeded,
            Some("messaging"@),
        ),
{
    let a = crate::prompt::DELIVERY_START@;
    let b = crate::prompt::DELIVERY_ALWAYS@;
    let c = crate::prompt::DELIVERY_AS_NEEDED@;
    reveal_strlit("## Scheduled Delivery\n- This scheduled response will be delivered to the user via ");
    reveal_strlit(".\n- This cron uses delivery = \"always\". Always reply with the content to deliver.\n- End the turn with exactly one non-empty final message to deliver.\n- After any tool use, you must still send that final message. Never end silently.\n- Do not reply with NO_ACTION_NEEDED.");
    reveal_strlit(".\n- This cron uses delivery = \"as_needed\". Be highly selective: only send a message when the user would likely want the interruption now.\n- Routine status, unchanged conditions, low-confidence guesses, or information that can wait should be treated as no action needed.\n- If nothing needs attention, reply with exactly NO_ACTION_NEEDED.\n- If something truly needs attention, reply with only the content to deliver.\n- End the turn with exactly one final output: either NO_ACTION_NEEDED, or the non-empty message to deliver.\n- After any tool use, you must still send one of those final outputs. Never end silently.\n- Never include NO_ACTION_NEEDED alongside real content.");
    reveal_strlit("via ");
    reveal_strlit(".");
    reveal_strlit("delivery = \"always\"");
    reveal_strlit("delivery = \"as_needed\"");
    reveal_strlit("reply with exactly NO_ACTION_NEEDED");
    let p = "via "@ + channel + "."@;
    let x = a + channel + b;
    let y = a + channel + c;
    assert(a.skip(78) =~= "via "@);
    assert(a.take(78) + p + b.skip(1) =~= x);
    has_text_splits(x, p);
    assert(a.take(78) + p + c.skip(1) =~= y);
    has_text_splits(y, p);
    let q = "delivery = \"always\""@;
    assert(b.subrange(19, 19int + q.len()) =~= q);
    assert((a + channel + b.take(19)) + q + b.skip(19int + q.len()) =~= x);
    has_text_splits(x, q);
    let r = "delivery = \"as_needed\""@;
    assert(c.subrange(19, 19int + r.len()) =~= r);
    assert((a + channel + c.take(19)) + r + c.skip(19int + r.len()) =~= y);
    has_text_splits(y, r);
    let t = "reply with exactly NO_ACTION_NEEDED"@;
    assert(c.subrange(300, 300int + t.len()) =~= t);
    assert((a + channel + c.take(300)) + t + c.skip(300int + t.len()) =~= y);
    has_text_splits(y, t);
}

/// What a prompt gains for its session: a scheduled turn's delivery goes to the
/// end of the first block, the memory's index to the end of the last, and no
/// other block changes.
pub proof fn prompts_gain_at_their_ends(
    blocks: Seq<Seq<char>>,
    kind: KindView,
    mode: CronDeliveryMode,
    channel: Option<Seq<char>>,
    memory: Seq<char>,
    i: int,
)
    requires
        blocks.len() > 1,
        0 <= i < blocks.len(),
    ensures
        ({
            let both = assembled(blocks, kind, Some(mode), channel, Some(memory));
            &&& both.len() == blocks.len()
            &&& 0 < i < blocks.len() - 1 ==> both[i] == blocks[i]
            &&& both[blocks.len() - 1] == blocks[blocks.len() - 1] + "\n\n"@ + memory
            &&& kind is Cron ==> both[0] == blocks[0] + "\n\n"@ + delivery_block(mode, channel)
            &&& !(kind is Cron) ==> both[0] == blocks[0]
        }),
        assembled(blocks, kind, None, channel, None) == blocks,
        !(kind is Cron) ==> assembled(blocks, kind, Some(mode), channel, None) == blocks,
        assembled(Seq::empty(), kind, None, channel, Some(memory)) == seq![memory],
{
}

proof fn roster_is_local(a: Seq<UserConfig>, b: Seq<UserConfig>, n: int)
    requires
        n <= a.len(),
        n <= b.len(),
        forall|i: int| 0 <= i < n ==> a[i] == b[i],
    ensures
        roster(a, n) == roster(b, n),
    decreases n,
{
    if n > 0 {
        roster_is_local(a, b, n - 1);
    }
}

/// The people of a group are the users that can be met on Signal, in order,
/// each with their trust.
pub proof fn rosters_list_who_is_on_signal(users: Seq<UserConfig>, u: UserConfig)
    ensures
        roster(users.push(u), (users.len() + 1) as int) == (if exists|i: int|
            0 <= i < u.match_patterns@.len() && "signal:"@.is_prefix_of(
                (#[trigger] u.match_patterns@[i])@,
            ) {
            roster(users, users.len() as int).push(
                u.name@ + " (trust:"@ + u.trust.name() + ")"@,
            )
        } else {
            roster(users, users.len() as int)
        }),
        roster(users, 0).len() == 0,
{
    roster_is_local(users, users.push(u), users.len() as int);
}

/// In a group the agent is told its name, how it is called, who is there where
/// somebody is known, and how to stay silent where it hears everything.
pub proof fn groups_are_introduced(
    trigger: GroupTrigger,
    agent_id: Seq<char>,
    users: Seq<UserConfig>,
)
    ensures
        ({
            let lines = intro_lines(trigger, agent_id, users);
            let known = roster(users, users.len() as int);
            &&& lines[1] == "Your name in this group is \""@ + agent_id
                + "\". When a message contains @"@ + agent_id
                + ", the sender is addressing you directly."@
            &&& lines[2] == "Activation: "@ + activation(trigger) + "."@
            &&& known.len() > 0 ==> lines[3] == "Known participants: "@ + joined(known, ", "@)
                + ". Messages from known participants include a (user:name) tag in the sender header."@
            &&& lines.len() == 5 + (if known.len() > 0 {
                1int
            } else {
                0
            }) + (if trigger == GroupTrigger::Always {
                2int
            } else {
                0
            })
            &&& trigger == GroupTrigger::Always ==> lines[lines.len() - 4]
                == "If no response is needed, reply with exactly \""@ + "NO_REPLY"@
                + "\" (and nothing else) so the system stays silent. Do not add any other words, punctuation, or explanations."@
        }),
        activation(GroupTrigger::Always) == "always-on (you receive every group message)"@,
        activation(GroupTrigger::Mention) == activation(GroupTrigger::Regex),
        activation(GroupTrigger::Mention)
            == "trigger-only (you are invoked only when explicitly mentioned or triggered; recent chat context may be included)"@,
        activation(GroupTrigger::Llm)
            == "trigger-only (a classifier determined you should respond; recent chat context may be included)"@,
{
}

proof fn group_is_first_from(groups: Seq<GroupConfig>, kind: KindView, i: int, p: int)
    requires
        0 <= i <= p < groups.len(),
        is_for(groups[p], kind),
        forall|j: int| i <= j < p ==> !is_for(#[trigger] groups[j], kind),
    ensures
        group_from(groups, kind, i) == Some(groups[p]),
    decreases p - i,
{
    if i < p {
        assert(!is_for(groups[i], kind));
        group_is_first_from(groups, kind, i + 1, p);
    }
}

proof fn no_group_from(groups: Seq<GroupConfig>, kind: KindView, i: int)
    requires
        0 <= i <= groups.len(),
        forall|j: int| i <= j < groups.len() ==> !is_for(#[trigger] groups[j], kind),
    ensures
        group_from(groups, kind, i) is None,
    decreases groups.len() - i,
{
    if i < groups.len() {
        no_group_from(groups, kind, i + 1);
    }
}

/// A group has the first settings that name it or stand for every group; a
/// session that is no group has none.
pub proof fn groups_have_the_first_settings(groups: Seq<GroupConfig>, id: Seq<char>, p: int)
    ensures
        0 <= p < groups.len() && (views(groups[p].match_patterns@).contains(id) || views(
            groups[p].match_patterns@,
        ).contains("*"@)) && (forall|j: int|
            0 <= j < p ==> !views((#[trigger] groups[j]).match_patterns@).contains(id) && !views(
                groups[j].match_patterns@,
            ).contains("*"@)) ==> group_from(groups, KindView::Group(id), 0) == Some(groups[p]),
        (forall|j: int|
            0 <= j < groups.len() ==> !views((#[trigger] groups[j]).match_patterns@).contains(id)
                && !views(groups[j].match_patterns@).contains("*"@)) ==> group_from(
            groups,
            KindView::Group(id),
            0,
        ) is None,
        group_from(groups, KindView::Dm(id), 0) is None,
        group_from(groups, KindView::Main, 0) is None,
        group_from(groups, KindView::Cron(id), 0) is None,
{
    let k = KindView::Group(id);
    if 0 <= p < groups.len() && is_for(groups[p], k) && (forall|j: int|
        0 <= j < p ==> !is_for(#[trigger] groups[j], k)) {
        group_is_first_from(groups, k, 0, p);
    }
    if forall|j: int| 0 <= j < groups.len() ==> !is_for(#[trigger] groups[j], k) {
        no_group_from(groups, k, 0);
    }
    no_group_from(groups, KindView::Dm(id), 0);
    no_group_from(groups, KindView::Main, 0);
    no_group_from(groups, KindView::Cron(id), 0);
}

/// The Signal target of a conversation is its name without the channel, for a
/// group with the word before it.
pub proof fn signal_targets_lose_the_channel(x: Seq<char>)
    ensures
        signal_target(KindView::Dm("signal:"@ + x)) == Some(("direct"@, x)),
        signal_target(KindView::Group("signal:"@ + ("group:"@ + x))) == Some(
            ("group"@, "group:"@ + x),
        ),
        !"group:"@.is_prefix_of(x) ==> signal_target(KindView::Group("signal:"@ + x)) == Some(
            ("group"@, "group:"@ + x),
        ),
        !"signal:"@.is_prefix_of(x) ==> signal_target(KindView::Dm(x)) == Some(("direct"@, x)),
        signal_target(KindView::Main) is None,
        signal_target(KindView::Cron(x)) is None,
{
    ends_come_off(x, "signal:"@);
    ends_come_off("group:"@ + x, "signal:"@);
    ends_come_off(x, "group:"@);
}

proof fn model_is_first(users: Seq<UserConfig>, name: Seq<char>, i: int, p: int)
    requires
        0 <= i <= p < users.len(),
        users[p].name@ == name,
        forall|j: int| i <= j < p ==> (#[trigger] users[j]).name@ != name,
    ensures
        model_of(users, name, i) == opt_view(users[p].model),
    decreases p - i,
{
    if i < p {
        assert(users[i].name@ != name);
        model_is_first(users, name, i + 1, p);
    }
}

proof fn no_model(users: Seq<UserConfig>, name: Seq<char>, i: int)
    requires
        0 <= i <= users.len(),
        forall|j: int| i <= j < users.len() ==> (#[trigger] users[j]).name@ != name,
    ensures
        model_of(users, name, i) is None,
    decreases users.len() - i,
{
    if i < users.len() {
        no_model(users, name, i + 1);
    }
}

/// A user's model is the one set for the first user of their name; it serves
/// where it is available, and the default one, by its name in the catalog,
/// where it is not.
pub proof fn users_get_their_model(
    users: Seq<UserConfig>,
    name: Seq<char>,
    p: int,
    model: Seq<char>,
)
    ensures
        0 <= p < users.len() && users[p].name@ == name && (forall|j: int|
            0 <= j < p ==> (#[trigger] users[j]).name@ != name) ==> model_of(users, name, 0)
            == opt_view(users[p].model),
        (forall|j: int| 0 <= j < users.len() ==> (#[trigger] users[j]).name@ != name) ==> model_of(
            users,
            name,
            0,
        ) is None,
        configured_name(name, None, None, None) == name,
        configured_name(name, Some(model), None, None) == model,
        configured_name(name, None, Some(name), Some(model)) == model,
        forall|d: Option<Seq<char>>| #[trigger]
            configured_name(name, d, Some(name), Some(model)) == model,
        forall|d: Option<Seq<char>>| #[trigger]
            configured_name(name, d, Some(name), None) == configured_name(name, d, None, None),
{
    if 0 <= p < users.len() && users[p].name@ == name && (forall|j: int|
        0 <= j < p ==> (#[trigger] users[j]).name@ != name) {
        model_is_first(users, name, 0, p);
    }
    if forall|j: int| 0 <= j < users.len() ==> (#[trigger] users[j]).name@ != name {
        no_model(users, name, 0);
    }
}

/// The limit of a model is the first that is set for its key.
pub proof fn first_limit_holds(
    keys: Seq<Seq<char>>,
    limits: Seq<usize>,
    key: Seq<char>,
    i: int,
    p: int,
)
    requires
        0 <= i <= p <= keys.len(),
        forall|j: int| i <= j < p ==> #[trigger] keys[j] != key,
    ensures
        p < keys.len() && keys[p] == key ==> limit_from(keys, limits, key, i) == Some(limits[p]),
        p == keys.len() ==> limit_from(keys, limits, key, i) is None,
    decreases p - i,
{
    if i < p {
        assert(keys[i] != key);
        first_limit_holds(keys, limits, key, i + 1, p);
    }
}

proof fn tools_are_local(
    a: Seq<Seq<char>>,
    b: Seq<Seq<char>>,
    n: int,
    kind: KindView,
    allowed: Option<Seq<Seq<char>>>,
    supported: bool,
)
    requires
        n <= a.len(),
        n <= b.len(),
        forall|i: int| 0 <= i < n ==> a[i] == b[i],
    ensures
        session_tools(a, n, kind, allowed, supported) == session_tools(
            b,
            n,
            kind,
            allowed,
            supported,
        ),
    decreases n,
{
    if n > 0 {
        tools_are_local(a, b, n - 1, kind, allowed, supported);
    }
}

/// A session has its tools in order: all of them, but for those not on its
/// list where it has one, those that send or start tasks where it is a
/// scheduled one, and any where its model takes none.
pub proof fn sessions_have_their_tools(
    tools: Seq<Seq<char>>,
    name: Seq<char>,
    kind: KindView,
    allowed: Option<Seq<Seq<char>>>,
    supported: bool,
)
    ensures
        session_tools(tools.push(name), (tools.len() + 1) as int, kind, allowed, supported) == (
        if !supported || (allowed is Some && !allowed->0.contains(name)) || (kind is Cron && (name
            == "signal_send"@ || name == "signal_react"@ || name == "signal_reply"@ || name
            == "cron_trigger"@)) {
            session_tools(tools, tools.len() as int, kind, allowed, supported)
        } else {
            session_tools(tools, tools.len() as int, kind, allowed, supported).push(name)
        }),
        session_tools(tools, 0, kind, allowed, supported).len() == 0,
{
    tools_are_local(tools, tools.push(name), tools.len() as int, kind, allowed, supported);
}

/// An error is one of the connection exactly where it says one of these things,
/// in whatever letters.
pub proof fn connection_errors_say_so(error: Seq<char>)
    ensures
        transient(error) <==> exists|i: int|
            0 <= i < 14 && has_text(lower_ascii(error), #[trigger] connection_faults()[i]),
{
    let f = connection_faults();
    let t = lower_ascii(error);
    assert(f.len() == 14);
    assert(f[0] == "error sending request for url"@ && f[1] == "connection reset"@ && f[2]
        == "connection closed"@ && f[3] == "connection terminated"@ && f[4]
        == "network connection lost"@ && f[5] == "network error"@ && f[6]
        == "remote protocol error"@);
    assert(f[7] == "peer closed"@ && f[8] == "broken pipe"@ && f[9] == "unexpected eof"@ && f[10]
        == "timed out"@ && f[11] == "timeout"@ && f[12] == "deadline has elapsed"@ && f[13]
        == "body write aborted"@);
    if exists|i: int| 0 <= i < 14 && has_text(t, #[trigger] f[i]) {
        let i = choose|i: int| 0 <= i < 14 && has_text(t, #[trigger] f[i]);
        assert(i == 0 || i == 1 || i == 2 || i == 3 || i == 4 || i == 5 || i == 6 || i == 7 || i
            == 8 || i == 9 || i == 10 || i == 11 || i == 12 || i == 13);
    }
}

/// What errors of a connection say.
pub open spec fn connection_faults() -> Seq<Seq<char>> {
    seq![
        "error sending request for url"@,
        "connection reset"@,
        "connection closed"@,
        "connection terminated"@,
        "network connection lost"@,
        "network error"@,
        "remote protocol error"@,
        "peer closed"@,
        "broken pipe"@,
        "unexpected eof"@,
        "timed out"@,
        "timeout"@,
        "deadline has elapsed"@,
        "body write aborted"@,
    ]
}

/// The wait before another try doubles from try to try, up to the ninth.
pub proof fn waits_double(base: nat, attempt: u32)
    ensures
        backoff(base, 0) == base,
        attempt < 8 ==> backoff(base, (attempt + 1) as u32) == 2 * backoff(base, attempt),
        attempt >= 8 ==> backoff(base, attempt) == backoff(base, 8),
{
    assert(doublings(0) == 1);
    if attempt < 8 {
        let d = doublings(attempt as nat);
        assert(doublings((attempt + 1) as nat) == 2 * d);
        assert(base * (2 * d) == 2 * (base * d)) by (nonlinear_arith);
    }
    assert(base * 1 == base);
}

/// A failed connection is tried again twice as a stream and three times as a
/// plain call, after a fifth of a second that doubles; a stream that does not
/// come gives way to a plain call unless it is required; anything else, and
/// anything after the first output or that calls for compaction, stands.
pub proof fn failed_calls_are_tried_again(
    call: AssistantCall,
    saw_output: bool,
    overflow: bool,
    error: Seq<char>,
)
    ensures
        ({
            let d = call_decision(call, saw_output, overflow, error);
            &&& overflow ==> d == CallDecision::Fail
            &&& call.streaming && saw_output ==> d == CallDecision::Fail
            &&& !overflow && call.streaming && !saw_output ==> {
                &&& transient(error) && call.attempt == 0 ==> d == (CallDecision::Retry {
                    backoff_ms: 200,
                })
                &&& transient(error) && call.attempt == 1 ==> d == (CallDecision::Retry {
                    backoff_ms: 400,
                })
                &&& !transient(error) || call.attempt >= 2 ==> d == (if call.policy
                    == StreamPolicy::Require {
                    CallDecision::Fail
                } else {
                    CallDecision::FallBack
                })
            }
            &&& !overflow && !call.streaming ==> {
                &&& transient(error) && call.attempt == 0 ==> d == (CallDecision::Retry {
                    backoff_ms: 200,
                })
                &&& transient(error) && call.attempt == 1 ==> d == (CallDecision::Retry {
                    backoff_ms: 400,
                })
                &&& transient(error) && call.attempt == 2 ==> d == (CallDecision::Retry {
                    backoff_ms: 800,
                })
                &&& !transient(error) || call.attempt >= 3 ==> d == CallDecision::Fail
            }
        }),
        call.attempt < u32::MAX ==> next_call(call, CallDecision::Retry { backoff_ms: 0 }) == (
        AssistantCall {
            streaming: call.streaming,
            policy: call.policy,
            attempt: (call.attempt + 1) as u32,
        }),
        next_call(call, CallDecision::FallBack) == (AssistantCall {
            streaming: false,
            policy: call.policy,
            attempt: 0,
        }),
{
    reveal_with_fuel(doublings, 4);
    assert(doublings(0) == 1 && doublings(1) == 2 && doublings(2) == 4);
}

/// A reply that was asked for again counts where it says something and calls no
/// tool; else a stock reply stands in where one is owed in any case, and the
/// blank one stays where silence is allowed.
pub proof fn repaired_replies_stand_in(
    original: MessageView,
    response: MessageView,
    usage: Usage,
)
    ensures
        ({
            let fit = (forall|i: int|
                0 <= i < response.content.len() ==> !(#[trigger] response.content[i] is ToolRequest))
                && trimmed(text_of(response)).len() > 0;
            let signal = repaired_reply(
                FinalReplyPolicy::Signal,
                original,
                RepairView::Replied { response, usage },
            );
            let always = repaired_reply(
                FinalReplyPolicy::CronAlways,
                original,
                RepairView::Replied { response, usage },
            );
            let needed = repaired_reply(
                FinalReplyPolicy::CronAsNeeded,
                original,
                RepairView::Replied { response, usage },
            );
            &&& signal.1 == usage && always.1 == usage && needed.1 == usage
            &&& fit ==> signal.0 == response && always.0 == response && needed.0 == response
            &&& !fit ==> {
                &&& signal.0 == (MessageView {
                    role: Role::Assistant,
                    content: seq![ContentView::Text { text: "Done."@ }],
                })
                &&& always.0 == (MessageView {
                    role: Role::Assistant,
                    content: seq![ContentView::Text { text: "Completed."@ }],
                })
                &&& needed.0 == original
            }
        }),
        repaired_reply(FinalReplyPolicy::CronAsNeeded, original, RepairView::Failed).0 == original,
        repaired_reply(FinalReplyPolicy::Signal, original, RepairView::Failed).0 == (MessageView {
            role: Role::Assistant,
            content: seq![ContentView::Text { text: "Done."@ }],
        }),
{
}

/// A response that stopped for tools has some, or is turned down.
pub proof fn announced_calls_are_there(m: MessageView, u: Usage)
    ensures
        lacks_announced_calls(m, u) <==> u.stop_reason is Some && u.stop_reason->0@ == "tool_use"@
            && (forall|i: int|
            0 <= i < m.content.len() ==> !(#[trigger] m.content[i] is ToolRequest)),
{
}

/// The context of a group has its messages one to a line, between a line that
/// says what they are and one that says what to answer.
pub proof fn group_context_has_every_message(e: Seq<Seq<char>>)
    requires
        e.len() > 0,
    ensures
        history_text(e) == "[Chat messages since your last reply — for context]"@ + "\n"@ + joined(
            e,
            "\n"@,
        ) + "\n"@ + "[Current message — respond to this]"@,
{
    let h = seq![crate::group_history::HISTORY_HEADER@];
    let f = seq![crate::group_history::HISTORY_FOOTER@];
    lists_join(h, e, "\n"@, h[0]);
    lists_join(h + e, f, "\n"@, f[0]);
    lists_join(h, f, "\n"@, h[0]);
    lists_join(h, f, "\n"@, f[0]);
    assert(f =~= seq![f[0]]);
    assert(h =~= seq![h[0]]);
}

/// The file of a conversation's state is named like the conversation, with
/// underscores for colons.
pub proof fn states_are_filed_by_name(key: KeyView, i: int)
    requires
        0 <= i < key_text(key).len(),
    ensures
        state_file(key) == slug(key_text(key)) + "_compaction.json"@,
        slug(key_text(key)).len() == key_text(key).len(),
        key_text(key)[i] == ':' ==> slug(key_text(key))[i] == '_',
        key_text(key)[i] != ':' ==> slug(key_text(key))[i] == key_text(key)[i],
{
}

/// A group without messages has no context, and one with messages has.
pub proof fn silent_groups_have_no_context(e: Seq<Seq<char>>)
    ensures
        crate::group_history::context_of(e) is None <==> e.len() == 0,
        e.len() > 0 ==> crate::group_history::context_of(e) == Some(
            crate::group_history::history_text(e),
        ),
{
}

} // verus!
