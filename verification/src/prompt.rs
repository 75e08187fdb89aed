//! The parts of the system prompt that depend on the session.
use vstd::prelude::*;

use crate::config::{Config, CronDeliveryMode, GroupConfig, GroupTrigger, UserConfig};
use crate::group_trigger::SILENT_REPLY_TOKEN;
use crate::session::{KindView, SessionKey, SessionKind};
use crate::text::{
    after_prefix, cat2, cat3, cat4, cat5, holds_text, join_texts, joined, opt_str_view,
    starts_with, strip_prefix_text, views,
};

verus! {

/// Stands before the channel in the prompt for scheduled turns.
pub const DELIVERY_START: &'static str = "## Scheduled Delivery\n- This scheduled response will be delivered to the user via ";

/// Stands behind the channel where replies are always delivered.
pub const DELIVERY_ALWAYS: &'static str = ".\n- This cron uses delivery = \"always\". Always reply with the content to deliver.\n- End the turn with exactly one non-empty final message to deliver.\n- After any tool use, you must still send that final message. Never end silently.\n- Do not reply with NO_ACTION_NEEDED.";

/// Stands behind the channel where replies are delivered when needed.
pub const DELIVERY_AS_NEEDED: &'static str = ".\n- This cron uses delivery = \"as_needed\". Be highly selective: only send a message when the user would likely want the interruption now.\n- Routine status, unchanged conditions, low-confidence guesses, or information that can wait should be treated as no action needed.\n- If nothing needs attention, reply with exactly NO_ACTION_NEEDED.\n- If something truly needs attention, reply with only the content to deliver.\n- End the turn with exactly one final output: either NO_ACTION_NEEDED, or the non-empty message to deliver.\n- After any tool use, you must still send one of those final outputs. Never end silently.\n- Never include NO_ACTION_NEEDED alongside real content.";

/// The prompt for scheduled turns.
pub open spec fn delivery_block(mode: CronDeliveryMode, channel: Option<Seq<char>>) -> Seq<char> {
    let c = match channel {
        Some(c) => c,
        None => "messaging"@,
    };
    match mode {
        CronDeliveryMode::Always => DELIVERY_START@ + c + DELIVERY_ALWAYS@,
        CronDeliveryMode::AsNeeded => DELIVERY_START@ + c + DELIVERY_AS_NEEDED@,
    }
}

/// Builds the prompt for scheduled turns.
pub fn build_cron_delivery_prompt_block(
    delivery_mode: CronDeliveryMode,
    channel: Option<&str>,
) -> (r: String)
    ensures
        r@ == delivery_block(delivery_mode, opt_str_view(channel)),
{
    let channel = match channel {
        Some(c) => c,
        None => "messaging",
    };
    match delivery_mode {
        CronDeliveryMode::Always => cat3(DELIVERY_START, channel, DELIVERY_ALWAYS),
        CronDeliveryMode::AsNeeded => cat3(DELIVERY_START, channel, DELIVERY_AS_NEEDED),
    }
}

/// The blocks with a text at the end of the one at `i`, or where there is none
/// as a block of its own.
pub open spec fn extended(blocks: Seq<Seq<char>>, i: int, text: Seq<char>) -> Seq<Seq<char>> {
    if blocks.len() == 0 {
        seq![text]
    } else {
        blocks.update(i, blocks[i] + "\n\n"@ + text)
    }
}

fn extend_block(blocks: &mut Vec<String>, i: usize, text: &str)
    requires
        old(blocks)@.len() > 0 ==> i < old(blocks)@.len(),
    ensures
        views(final(blocks)@) == extended(views(old(blocks)@), i as int, text@),
{
    let ghost before = views(blocks@);
    if blocks.len() == 0 {
        blocks.push(text.to_owned());
        assert(views(blocks@) =~= seq![text@]);
    } else {
        let b = cat3(blocks[i].as_str(), "\n\n", text);
        blocks.set(i, b);
        assert(views(blocks@) =~= before.update(i as int, b@));
    }
}

/// The blocks with a text at the end of the last one.
pub open spec fn with_last(blocks: Seq<Seq<char>>, text: Seq<char>) -> Seq<Seq<char>> {
    extended(blocks, blocks.len() - 1, text)
}

/// Puts a text at the end of the last block.
pub fn append_to_last_block(blocks: &mut Vec<String>, text: &str)
    ensures
        views(final(blocks)@) == with_last(views(old(blocks)@), text@),
{
    let n: usize = blocks.len();
    if n == 0 {
        extend_block(blocks, 0, text);
    } else {
        extend_block(blocks, n - 1, text);
    }
}

/// The blocks of a prompt: for a scheduled turn the delivery block joins the
/// first, stable one; the memory index joins the last, volatile one.
pub open spec fn assembled(
    blocks: Seq<Seq<char>>,
    kind: KindView,
    mode: Option<CronDeliveryMode>,
    channel: Option<Seq<char>>,
    memory_index: Option<Seq<char>>,
) -> Seq<Seq<char>> {
    let b1 = if kind is Cron && mode is Some {
        extended(blocks, 0, delivery_block(mode->0, channel))
    } else {
        blocks
    };
    match memory_index {
        Some(m) => with_last(b1, m),
        None => b1,
    }
}

/// Adds what a session needs to the blocks of its prompt.
pub fn build_prompt(
    blocks: Vec<String>,
    kind: &SessionKind,
    cron_delivery_mode: Option<CronDeliveryMode>,
    channel: Option<&str>,
    memory_index: Option<&str>,
) -> (r: Vec<String>)
    ensures
        views(r@) == assembled(
            views(blocks@),
            kind@,
            cron_delivery_mode,
            opt_str_view(channel),
            opt_str_view(memory_index),
        ),
{
    let mut out = blocks;
    let is_cron = match kind {
        SessionKind::Cron(_) => true,
        _ => false,
    };
    if is_cron {
        if let Some(mode) = cron_delivery_mode {
            let block = build_cron_delivery_prompt_block(mode, channel);
            extend_block(&mut out, 0, block.as_str());
        }
    }
    if let Some(m) = memory_index {
        append_to_last_block(&mut out, m);
    }
    out
}

/// How the agent is invoked in a group.
pub open spec fn activation(trigger: GroupTrigger) -> Seq<char> {
    match trigger {
        GroupTrigger::Always => "always-on (you receive every group message)"@,
        GroupTrigger::Llm => "trigger-only (a classifier determined you should respond; recent chat context may be included)"@,
        _ => "trigger-only (you are invoked only when explicitly mentioned or triggered; recent chat context may be included)"@,
    }
}

/// Whether a user can be met on Signal.
pub open spec fn on_signal(u: UserConfig) -> bool {
    exists|i: int| 0 <= i < u.match_patterns@.len() && "signal:"@.is_prefix_of(
        (#[trigger] u.match_patterns@[i])@,
    )
}

/// The users among the first `n` who can be met on Signal, with their trust.
pub open spec fn roster(users: Seq<UserConfig>, n: int) -> Seq<Seq<char>>
    decreases n,
{
    if n <= 0 {
        Seq::empty()
    } else {
        let rest = roster(users, n - 1);
        if on_signal(users[n - 1]) {
            rest.push(users[n - 1].name@ + " (trust:"@ + users[n - 1].trust.name() + ")"@)
        } else {
            rest
        }
    }
}

/// The sentences of the introduction to a group.
pub open spec fn intro_lines(
    trigger: GroupTrigger,
    agent_id: Seq<char>,
    users: Seq<UserConfig>,
) -> Seq<Seq<char>> {
    let known = roster(users, users.len() as int);
    let head = seq![
        "You are replying inside a group chat."@,
        "Your name in this group is \""@ + agent_id + "\". When a message contains @"@ + agent_id
            + ", the sender is addressing you directly."@,
        "Activation: "@ + activation(trigger) + "."@,
    ];
    let people = if known.len() > 0 {
        seq![
            "Known participants: "@ + joined(known, ", "@)
                + ". Messages from known participants include a (user:name) tag in the sender header."@,
        ]
    } else {
        Seq::empty()
    };
    let silence = if trigger == GroupTrigger::Always {
        seq![
            "If no response is needed, reply with exactly \""@ + SILENT_REPLY_TOKEN@
                + "\" (and nothing else) so the system stays silent. Do not add any other words, punctuation, or explanations."@,
            "Be extremely selective: reply only when directly addressed or clearly helpful. Otherwise stay silent."@,
        ]
    } else {
        Seq::empty()
    };
    let tail = seq![
        "Be a good group participant: mostly lurk and follow the conversation; reply only when directly addressed or you can add clear value."@,
        "Address the specific sender noted in the message context. Sender headers show names like \"Alice (user:alice)\" — use the display name (Alice) when addressing them."@,
    ];
    head + people + silence + tail
}

fn push_line(lines: &mut Vec<String>, line: String)
    ensures
        views(final(lines)@) == views(old(lines)@).push(line@),
{
    lines.push(line);
    assert(views(lines@) =~= views(old(lines)@).push(line@));
}

fn is_on_signal(u: &UserConfig) -> (r: bool)
    ensures
        r == on_signal(*u),
{
    for i in 0..u.match_patterns.len()
        invariant
            forall|j: int|
                0 <= j < i ==> !"signal:"@.is_prefix_of((#[trigger] u.match_patterns@[j])@),
    {
        if starts_with(u.match_patterns[i].as_str(), "signal:") {
            return true;
        }
    }
    false
}

fn build_roster(users: &Vec<UserConfig>) -> (r: Vec<String>)
    ensures
        views(r@) == roster(users@, users@.len() as int),
{
    let mut out: Vec<String> = Vec::new();
    assert(views(out@) =~= Seq::empty());
    for i in 0..users.len()
        invariant
            views(out@) == roster(users@, i as int),
    {
        if is_on_signal(&users[i]) {
            push_line(
                &mut out,
                cat4(users[i].name.as_str(), " (trust:", users[i].trust.name_text(), ")"),
            );
        }
    }
    out
}

/// Builds the introduction to a group.
pub fn build_group_intro(trigger: GroupTrigger, agent_id: &str, users: &Vec<UserConfig>) -> (r:
    String)
    ensures
        r@ == joined(intro_lines(trigger, agent_id@, users@), " "@),
{
    let how = match trigger {
        GroupTrigger::Always => "always-on (you receive every group message)",
        GroupTrigger::Llm => "trigger-only (a classifier determined you should respond; recent chat context may be included)",
        GroupTrigger::Mention => "trigger-only (you are invoked only when explicitly mentioned or triggered; recent chat context may be included)",
        GroupTrigger::Regex => "trigger-only (you are invoked only when explicitly mentioned or triggered; recent chat context may be included)",
    };
    let mut lines: Vec<String> = Vec::new();
    assert(views(lines@) =~= Seq::empty());
    push_line(&mut lines, "You are replying inside a group chat.".to_owned());
    push_line(
        &mut lines,
        cat5(
            "Your name in this group is \"",
            agent_id,
            "\". When a message contains @",
            agent_id,
            ", the sender is addressing you directly.",
        ),
    );
    push_line(&mut lines, cat3("Activation: ", how, "."));
    let known = build_roster(users);
    if known.len() > 0 {
        let names = join_texts(&known, ", ");
        push_line(
            &mut lines,
            cat3(
                "Known participants: ",
                names.as_str(),
                ". Messages from known participants include a (user:name) tag in the sender header.",
            ),
        );
    }
    if trigger == GroupTrigger::Always {
        push_line(
            &mut lines,
            cat3(
                "If no response is needed, reply with exactly \"",
                SILENT_REPLY_TOKEN,
                "\" (and nothing else) so the system stays silent. Do not add any other words, punctuation, or explanations.",
            ),
        );
        push_line(
            &mut lines,
            "Be extremely selective: reply only when directly addressed or clearly helpful. Otherwise stay silent.".to_owned(),
        );
    }
    push_line(
        &mut lines,
        "Be a good group participant: mostly lurk and follow the conversation; reply only when directly addressed or you can add clear value.".to_owned(),
    );
    push_line(
        &mut lines,
        "Address the specific sender noted in the message context. Sender headers show names like \"Alice (user:alice)\" — use the display name (Alice) when addressing them.".to_owned(),
    );
    assert(views(lines@) =~= intro_lines(trigger, agent_id@, users@));
    join_texts(&lines, " ")
}

/// Whether the settings of a group are for a session: one of their patterns is
/// the session's group, or stands for every group.
pub open spec fn is_for(g: GroupConfig, kind: KindView) -> bool {
    kind matches KindView::Group(id) && (views(g.match_patterns@).contains(id) || views(
        g.match_patterns@,
    ).contains("*"@))
}

/// The first settings from position `i` on that are for a session.
pub open spec fn group_from(groups: Seq<GroupConfig>, kind: KindView, i: int) -> Option<GroupConfig>
    decreases groups.len() - i,
{
    if i < 0 || i >= groups.len() {
        None
    } else if is_for(groups[i], kind) {
        Some(groups[i])
    } else {
        group_from(groups, kind, i + 1)
    }
}

/// Finds the settings for the group of a session.
pub fn find_group_config_by_session<'a>(key: &SessionKey, config: &'a Config) -> (r: Option<
    &'a GroupConfig,
>)
    ensures
        match r {
            Some(g) => group_from(config.groups@, key.kind@, 0) == Some(*g),
            None => group_from(config.groups@, key.kind@, 0) is None,
        },
{
    let groups = &config.groups;
    for i in 0..groups.len()
        invariant
            *groups == config.groups,
            group_from(config.groups@, key.kind@, 0) == group_from(
                config.groups@,
                key.kind@,
                i as int,
            ),
    {
        if let SessionKind::Group(id) = &key.kind {
            let patterns = &groups[i].match_patterns;
            if holds_text(patterns, id.as_str()) || holds_text(patterns, "*") {
                return Some(&groups[i]);
            }
        }
    }
    None
}

/// Adds the introduction to the group of a session, where there are settings
/// for it.
pub fn add_group_intro(blocks: &mut Vec<String>, key: &SessionKey, config: &Config)
    ensures
        views(final(blocks)@) == (match group_from(config.groups@, key.kind@, 0) {
            Some(g) => with_last(
                views(old(blocks)@),
                joined(intro_lines(g.trigger, config.agent.id@, config.users@), " "@),
            ),
            None => views(old(blocks)@),
        }),
{
    if let Some(group) = find_group_config_by_session(key, config) {
        let intro = build_group_intro(group.trigger, config.agent.id.as_str(), &config.users);
        append_to_last_block(blocks, intro.as_str());
    }
}

/// A text without a prefix, if it has it.
pub open spec fn without_prefix(s: Seq<char>, p: Seq<char>) -> Seq<char> {
    match after_prefix(s, p) {
        Some(rest) => rest,
        None => s,
    }
}

/// The Signal target of a session: its kind and its name.
pub open spec fn signal_target(k: KindView) -> Option<(Seq<char>, Seq<char>)> {
    match k {
        KindView::Dm(identity) => Some(("direct"@, without_prefix(identity, "signal:"@))),
        KindView::Group(group) => {
            let target = without_prefix(group, "signal:"@);
            if "group:"@.is_prefix_of(target) {
                Some(("group"@, target))
            } else {
                Some(("group"@, "group:"@ + target))
            }
        },
        _ => None,
    }
}

/// The Signal target of a session.
pub fn signal_target_from_session(kind: &SessionKind) -> (r: Option<(&'static str, String)>)
    ensures
        match r {
            Some(x) => signal_target(kind@) == Some((x.0@, x.1@)),
            None => signal_target(kind@) is None,
        },
{
    match kind {
        SessionKind::Dm(identity) => {
            let target = match strip_prefix_text(identity.as_str(), "signal:") {
                Some(t) => t,
                None => identity.clone(),
            };
            Some(("direct", target))
        },
        SessionKind::Group(group) => {
            let target = match strip_prefix_text(group.as_str(), "signal:") {
                Some(t) => t,
                None => group.clone(),
            };
            if starts_with(target.as_str(), "group:") {
                Some(("group", target))
            } else {
                Some(("group", cat2("group:", target.as_str())))
            }
        },
        _ => None,
    }
}

} // verus!
