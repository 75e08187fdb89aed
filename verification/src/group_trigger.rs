//! When the agent answers in a group.
use vstd::prelude::*;

use crate::config::{GroupConfig, GroupTrigger};
use crate::text::{
    cat2, cat3, chars_of, contains_text, find_chars, find_from_is_least, first_of, has_text,
    has_text_splits, occurs_at, part, same_text,
    starts_with, string_of, trim_text, trimmed, views,
};

verus! {

/// A reply that is not sent.
pub const SILENT_REPLY_TOKEN: &'static str = "NO_REPLY";

/// Asks whether the agent should answer.
pub const DEFAULT_TRIGGER_PROMPT: &'static str = "\
You are evaluating whether the assistant should respond to the latest message \
in this group chat. You have the full conversation context and system \
instructions above.

Evaluate the most recent message and reply with ONLY \"YES\" or \"NO\":
- YES: The assistant should respond (message is directed at the assistant, \
asks a question, requests help, or the assistant can add clear value)
- NO: The assistant should stay silent (casual chatter between other people, \
reactions, status updates, messages not relevant to the assistant)

Reply with only YES or NO, nothing else.";

/// Whether the agent answers.
#[derive(Clone, Copy, Debug, PartialEq, Eq, Structural)]
pub enum TriggerDecision {
    Respond,
    Skip,
}

/// A text in small letters, as `str::to_lowercase` writes it.
pub uninterp spec fn lowercase(s: Seq<char>) -> Seq<char>;

/// `str::to_lowercase`. Claimed: the result depends on the text alone, and is
/// what [`lowercase`] names.
#[verifier::external_body]
pub(crate) fn to_lowercase(s: &str) -> (r: String)
    ensures
        r@ == lowercase(s@),
{
    s.to_lowercase()
}

/// Whether a text is a regular expression that `regex` accepts.
pub uninterp spec fn regex_accepted(pattern: Seq<char>) -> bool;

/// Whether a regular expression matches anywhere in a text.
pub uninterp spec fn regex_found(pattern: Seq<char>, text: Seq<char>) -> bool;

/// `regex::Regex::new`. Claimed: whether it succeeds depends on the pattern
/// alone, and is what [`regex_accepted`] names.
#[verifier::external_body]
pub(crate) fn is_regex(pattern: &str) -> (r: bool)
    ensures
        r == regex_accepted(pattern@),
{
    regex::Regex::new(pattern).is_ok()
}

/// `regex::Regex::is_match` on a pattern that `regex::Regex::new` accepts.
/// Claimed: there is an outcome exactly for such patterns, it depends on the
/// pattern and the text alone, and it is what [`regex_found`] names.
#[verifier::external_body]
pub(crate) fn regex_is_match(pattern: &str, text: &str) -> (r: Option<bool>)
    ensures
        match r {
            Some(b) => regex_accepted(pattern@) && b == regex_found(pattern@, text@),
            None => !regex_accepted(pattern@),
        },
{
    match regex::Regex::new(pattern) {
        Ok(re) => Some(re.is_match(text)),
        Err(_) => None,
    }
}

/// The body of a message without the `[from ... at ...]` envelope before it.
pub open spec fn without_envelope(content: Seq<char>) -> Seq<char> {
    if "[from "@.is_prefix_of(content) {
        match first_of(content, "] "@) {
            Some(i) => content.skip(i + 2),
            None => content,
        }
    } else {
        content
    }
}

/// Strips the `[from ... at ...]` envelope from a message.
pub fn strip_envelope_prefix(content: &str) -> (r: String)
    ensures
        r@ == without_envelope(content@),
{
    if starts_with(content, "[from ") {
        let chars = chars_of(content);
        let close = chars_of("] ");
        proof {
            reveal_strlit("] ");
            assert(close@.len() == 2);
        }
        let n: usize = chars.len();
        if let Some(i) = find_chars(chars.as_slice(), close.as_slice()) {
            let rest = part(chars.as_slice(), i + 2, n);
            assert(rest@ =~= content@.skip(i + 2));
            return string_of(rest.as_slice());
        }
    }
    content.to_owned()
}

/// Whether a body mentions the agent by `@` and its name, or one of the other
/// names. All texts are in small letters.
pub open spec fn mentioned(body: Seq<char>, agent: Seq<char>, names: Seq<Seq<char>>) -> bool {
    has_text(body, "@"@ + agent) || exists|i: int|
        0 <= i < names.len() && has_text(body, #[trigger] names[i])
}

/// Whether a body mentions the agent. All texts are in small letters.
pub fn mentions(body: &str, agent: &str, names: &Vec<String>) -> (r: bool)
    ensures
        r == mentioned(body@, agent@, views(names@)),
{
    let at = cat2("@", agent);
    if contains_text(body, at.as_str()) {
        return true;
    }
    for i in 0..names.len()
        invariant
            forall|j: int| 0 <= j < i ==> !has_text(body@, #[trigger] views(names@)[j]),
    {
        if contains_text(body, names[i].as_str()) {
            assert(has_text(body@, views(names@)[i as int]));
            return true;
        }
    }
    false
}

/// The names in small letters.
pub open spec fn lowercase_all(names: Seq<Seq<char>>) -> Seq<Seq<char>> {
    Seq::new(names.len(), |i: int| lowercase(names[i]))
}

/// Whether a group message calls for a reply.
pub open spec fn triggered(content: Seq<char>, group: GroupConfig, agent_id: Seq<char>) -> bool {
    let body = without_envelope(content);
    match group.trigger {
        GroupTrigger::Always => true,
        GroupTrigger::Mention => mentioned(
            lowercase(body),
            lowercase(agent_id),
            lowercase_all(views(group.mention_names@)),
        ),
        GroupTrigger::Regex => match group.trigger_regex {
            Some(p) => regex_accepted(p@) && regex_found(p@, body),
            None => false,
        },
        GroupTrigger::Llm => false,
    }
}

/// Decides whether a group message calls for a reply, for triggers that need
/// no model.
///
/// A mention trigger always fires on `@` and the agent's name. A pattern that
/// is no regular expression never fires.
pub fn evaluate_trigger(content: &str, group_config: &GroupConfig, agent_id: &str) -> (r:
    TriggerDecision)
    requires
        group_config.trigger != GroupTrigger::Llm,
    ensures
        r == (if triggered(content@, *group_config, agent_id@) {
            TriggerDecision::Respond
        } else {
            TriggerDecision::Skip
        }),
{
    let body = strip_envelope_prefix(content);
    let respond = match group_config.trigger {
        GroupTrigger::Always => true,
        GroupTrigger::Mention => {
            let lower = to_lowercase(body.as_str());
            let agent = to_lowercase(agent_id);
            let mut names: Vec<String> = Vec::new();
            let ghost all = lowercase_all(views(group_config.mention_names@));
            for i in 0..group_config.mention_names.len()
                invariant
                    all == lowercase_all(views(group_config.mention_names@)),
                    views(names@) == all.take(i as int),
            {
                let ghost before = views(names@);
                let n = to_lowercase(group_config.mention_names[i].as_str());
                names.push(n);
                assert(views(names@) =~= before.push(n@));
                assert(all[i as int] == n@);
                assert(views(names@) =~= all.take(i + 1));
            }
            assert(all.take(group_config.mention_names.len() as int) =~= all);
            mentions(lower.as_str(), agent.as_str(), &names)
        },
        GroupTrigger::Regex => match &group_config.trigger_regex {
            Some(pattern) => match regex_is_match(pattern.as_str(), body.as_str()) {
                Some(found) => found,
                None => false,
            },
            None => false,
        },
        GroupTrigger::Llm => false,
    };
    if respond {
        TriggerDecision::Respond
    } else {
        TriggerDecision::Skip
    }
}

/// Whether a reply is the silent reply token, bare or in quotes.
pub open spec fn silent(text: Seq<char>) -> bool {
    let t = trimmed(text);
    t == SILENT_REPLY_TOKEN@ || t == "\""@ + SILENT_REPLY_TOKEN@ + "\""@ || t == "'"@
        + SILENT_REPLY_TOKEN@ + "'"@
}

/// Whether a reply is the silent reply token.
pub fn is_silent_reply(text: &str) -> (r: bool)
    ensures
        r == silent(text@),
{
    let t = trim_text(text);
    let double = cat3("\"", SILENT_REPLY_TOKEN, "\"");
    let single = cat3("'", SILENT_REPLY_TOKEN, "'");
    same_text(t.as_str(), SILENT_REPLY_TOKEN) || same_text(t.as_str(), double.as_str())
        || same_text(t.as_str(), single.as_str())
}

/// A text in capitals, as `str::to_uppercase` writes it.
pub uninterp spec fn uppercase(s: Seq<char>) -> Seq<char>;

/// `str::to_uppercase`. Claimed: the result depends on the text alone, and is
/// what [`uppercase`] names.
#[verifier::external_body]
pub(crate) fn to_uppercase(s: &str) -> (r: String)
    ensures
        r@ == uppercase(s@),
{
    s.to_uppercase()
}

/// The question a model is asked about the latest message.
pub fn llm_trigger_question(user_input: &str, trigger_prompt: &Option<String>) -> (r: String)
    ensures
        r@ == user_input@ + "\n\n---\n"@ + (match *trigger_prompt {
            Some(p) => p@,
            None => DEFAULT_TRIGGER_PROMPT@,
        }),
{
    let prompt = match trigger_prompt {
        Some(p) => p.as_str(),
        None => DEFAULT_TRIGGER_PROMPT,
    };
    cat3(user_input, "\n\n---\n", prompt)
}

/// Whether a reply in capitals says yes.
pub fn begins_with_yes(upper: &str) -> (r: bool)
    ensures
        r == "YES"@.is_prefix_of(upper@),
{
    starts_with(upper, "YES")
}

/// Whether a model's reply says that the agent should answer.
pub fn llm_trigger_decision(reply: &str) -> (r: bool)
    ensures
        r == "YES"@.is_prefix_of(uppercase(trimmed(reply@))),
{
    let t = trim_text(reply);
    let u = to_uppercase(t.as_str());
    begins_with_yes(u.as_str())
}

/// A mention trigger fires exactly where the message, without its envelope and
/// in small letters, holds an `@` with the agent's name, or any one of the
/// configured names, wherever in their list it stands.
pub proof fn any_name_calls_the_agent(content: Seq<char>, group: GroupConfig, agent_id: Seq<char>)
    requires
        group.trigger == GroupTrigger::Mention,
    ensures
        triggered(content, group, agent_id) <==> {
            ||| exists|a: Seq<char>, b: Seq<char>| #[trigger]
                (a + ("@"@ + lowercase(agent_id)) + b) == lowercase(without_envelope(content))
            ||| exists|i: int, a: Seq<char>, b: Seq<char>|
                0 <= i < group.mention_names@.len() && #[trigger] (a + lowercase(
                    group.mention_names@[i]@,
                ) + b) == lowercase(without_envelope(content))
        },
{
    let body = lowercase(without_envelope(content));
    let names = lowercase_all(views(group.mention_names@));
    has_text_splits(body, "@"@ + lowercase(agent_id));
    assert forall|i: int| 0 <= i < names.len() implies (#[trigger] has_text(body, names[i]) <==> exists|
        a: Seq<char>,
        b: Seq<char>,
    | #[trigger] (a + lowercase(group.mention_names@[i]@) + b) == body) by {
        has_text_splits(body, names[i]);
    }
    if exists|i: int, a: Seq<char>, b: Seq<char>|
        0 <= i < group.mention_names@.len() && #[trigger] (a + lowercase(group.mention_names@[i]@) + b)
            == body {
        let (i, a, b) = choose|i: int, a: Seq<char>, b: Seq<char>|
            0 <= i < group.mention_names@.len() && #[trigger] (a + lowercase(
                group.mention_names@[i]@,
            ) + b) == body;
        assert(has_text(body, names[i]));
    }
    if exists|i: int| 0 <= i < names.len() && has_text(body, #[trigger] names[i]) {
        let i = choose|i: int| 0 <= i < names.len() && has_text(body, #[trigger] names[i]);
        let (a, b) = choose|a: Seq<char>, b: Seq<char>| #[trigger]
            (a + lowercase(group.mention_names@[i]@) + b) == body;
        assert((a + lowercase(group.mention_names@[i]@) + b) == body);
    }
}

/// A group that is always answered is answered whatever is said; with a regular
/// expression exactly what it finds, in the message without its envelope, is
/// answered; and without one nothing is.
pub proof fn other_triggers(content: Seq<char>, group: GroupConfig, agent_id: Seq<char>)
    ensures
        group.trigger == GroupTrigger::Always ==> triggered(content, group, agent_id),
        group.trigger == GroupTrigger::Regex ==> (triggered(content, group, agent_id) <==> {
            &&& group.trigger_regex is Some
            &&& regex_accepted(group.trigger_regex->0@)
            &&& regex_found(group.trigger_regex->0@, without_envelope(content))
        }),
{
}

/// An envelope is taken off a message up to the first end of it, and a message
/// without an envelope is left as it is.
pub proof fn envelopes_come_off(sender: Seq<char>, body: Seq<char>)
    requires
        forall|a: Seq<char>, b: Seq<char>| #[trigger] (a + "] "@ + b) != sender + "]"@,
    ensures
        without_envelope("[from "@ + sender + "] "@ + body) == body,
        !"[from "@.is_prefix_of(body) ==> without_envelope(body) == body,
{
    reveal_strlit("[from ");
    reveal_strlit("] ");
    reveal_strlit("]");
    let head = "[from "@ + sender;
    let content = head + "] "@ + body;
    let end = "] "@;
    let n = head.len() as int;
    assert(content.subrange(n, n + 2) =~= end);
    assert(occurs_at(content, end, n));
    assert("[from "@.is_prefix_of(content)) by {
        assert(content.take(6) =~= "[from "@);
    }
    assert forall|i: int| 0 <= i < n implies !#[trigger] occurs_at(content, end, i) by {
        if occurs_at(content, end, i) {
            let c = content.subrange(i, i + 2);
            assert(c[0] == content[i] && c[1] == content[i + 1]);
            assert(content[i] == ']' && content[i + 1] == ' ');
            if i < 6 {
                assert(content[i] == "[from "@[i]);
            } else {
                let t = sender + "]"@;
                let k = i - 6;
                assert(t[k] == content[i]);
                assert(t[k + 1] == content[i + 1]);
                assert(t.take(k) + end + t.skip(k + 2) =~= t);
                assert((t.take(k) + "] "@ + t.skip(k + 2)) == t);
            }
        }
    }
    find_from_is_least(content, end, 0);
    assert(content.skip(n + 2) =~= body);
}

/// A reply stays unsent exactly where it is the silent token with blanks
/// around it, bare or between quotes of one kind.
pub proof fn only_the_token_is_silent(text: Seq<char>)
    ensures
        silent(text) <==> {
            ||| trimmed(text) == "NO_REPLY"@
            ||| trimmed(text) == "\""@ + "NO_REPLY"@ + "\""@
            ||| trimmed(text) == "'"@ + "NO_REPLY"@ + "'"@
        },
{
}

} // verus!
