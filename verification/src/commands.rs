//! The commands that a user can type instead of a message.
use vstd::prelude::*;

use crate::gateway::{Gateway, GatewayView};
use crate::session::{
    hyphenated, key_text, parse_uuid, uuid_fault, uuid_number, uuid_text, KeyView, SessionKey,
};
use crate::text::{
    cat2, cat3, cat4, cat5, chars_of, decimal, decimal_text, join_texts, joined, lines, opt_view,
    part, same_text, split_lines, split_words, string_of, strip_prefix_text, trim_text, trimmed,
    views, words,
};

verus! {

/// Digits with a comma before each group of three, counted from the end.
pub open spec fn grouped(s: Seq<char>) -> Seq<char>
    decreases s.len(),
{
    if s.len() <= 3 {
        s
    } else {
        grouped(s.take(s.len() - 3)) + ","@ + s.skip(s.len() - 3)
    }
}

/// The groups of three of a text from place `k` on, each behind a comma.
spec fn groups_from(s: Seq<char>, k: int) -> Seq<char>
    decreases s.len() - k,
{
    if k < 0 || k + 3 > s.len() {
        Seq::empty()
    } else {
        ","@ + s.subrange(k, k + 3) + groups_from(s, k + 3)
    }
}

proof fn grouped_in_turn(s: Seq<char>, k: int)
    requires
        0 <= k <= s.len(),
        (s.len() - k) % 3 == 0,
    ensures
        grouped(s) == grouped(s.take(k)) + groups_from(s, k) || k == 0,
    decreases s.len() - k,
{
    if k == s.len() {
        assert(s.take(k) =~= s);
        assert(grouped(s) =~= grouped(s.take(k)) + groups_from(s, k));
    } else if k > 0 {
        grouped_in_turn(s, k + 3);
        let t = s.take(k + 3);
        assert(t.take(t.len() - 3) =~= s.take(k));
        assert(t.skip(t.len() - 3) =~= s.subrange(k, k + 3));
        assert(grouped(t) == grouped(s.take(k)) + ","@ + s.subrange(k, k + 3));
        assert(grouped(s.take(k)) + ","@ + s.subrange(k, k + 3) + groups_from(s, k + 3)
            =~= grouped(s.take(k)) + groups_from(s, k));
    }
}

/// A number with a comma before each group of three digits.
pub fn format_number(value: u64) -> (r: String)
    ensures
        r@ == grouped(decimal(value as nat)),
{
    let text = decimal_text(value);
    let digits = chars_of(text.as_str());
    let n: usize = digits.len();
    let mut at: usize = n;
    while at > 3
        invariant
            at <= n,
            (n - at) % 3 == 0,
            n > 0 ==> at > 0,
        decreases at,
    {
        at -= 3;
    }
    let head = part(digits.as_slice(), 0, at);
    assert(head@ =~= digits@.take(at as int));
    let mut out = string_of(head.as_slice());
    proof {
        grouped_in_turn(digits@, at as int);
        if at == 0 {
            assert(digits@ =~= Seq::<char>::empty());
            assert(grouped(digits@) =~= out@ + groups_from(digits@, at as int));
        }
    }
    while at < n
        invariant
            at <= n,
            n == digits@.len(),
            (n - at) % 3 == 0,
            grouped(digits@) == out@ + groups_from(digits@, at as int),
        decreases n - at,
    {
        let group = part(digits.as_slice(), at, at + 3);
        let group_text = string_of(group.as_slice());
        let ghost was = out@;
        out.append(",");
        out.append(group_text.as_str());
        assert(group@ =~= digits@.subrange(at as int, at + 3));
        assert(was + groups_from(digits@, at as int) =~= out@ + groups_from(digits@, at + 3));
        at += 3;
    }
    assert(out@ =~= grouped(digits@));
    out
}

pub open spec fn without_commas(s: Seq<char>) -> Seq<char> {
    s.filter(|c: char| c != ',')
}

/// A text that holds no comma is what is left of its groups without commas.
pub proof fn commas_only_group(s: Seq<char>)
    requires
        !s.contains(','),
    ensures
        without_commas(grouped(s)) == s,
    decreases s.len(),
{
    let keep = |c: char| c != ',';
    if s.len() <= 3 {
        assert forall|i: int| 0 <= i < s.len() implies keep(#[trigger] s[i]) by {
            assert(s.contains(s[i]));
        }
        filter_keeps_all(s, keep);
    } else {
        let head = s.take(s.len() - 3);
        let tail = s.skip(s.len() - 3);
        assert forall|i: int| 0 <= i < tail.len() implies keep(#[trigger] tail[i]) by {
            assert(s.contains(s[s.len() - 3 + i]));
        }
        assert(!head.contains(',')) by {
            if head.contains(',') {
                let i = choose|i: int| 0 <= i < head.len() && head[i] == ',';
                assert(s[i] == ',');
            }
        }
        commas_only_group(head);
        filter_keeps_all(tail, keep);
        reveal_strlit(",");
        let comma = ","@;
        assert(comma =~= seq![',']);
        assert(comma.filter(keep) =~= Seq::<char>::empty()) by {
            reveal_with_fuel(Seq::filter, 2);
            assert(comma.drop_last() =~= Seq::<char>::empty());
            assert(!keep(comma.last()));
        }
        Seq::filter_distributes_over_add(grouped(head) + comma, tail, keep);
        Seq::filter_distributes_over_add(grouped(head), comma, keep);
        assert(head + tail =~= s);
        assert(without_commas(grouped(s)) =~= head + tail);
    }
}

proof fn filter_keeps_all(s: Seq<char>, keep: spec_fn(char) -> bool)
    requires
        forall|i: int| 0 <= i < s.len() ==> keep(#[trigger] s[i]),
    ensures
        s.filter(keep) == s,
    decreases s.len(),
{
    reveal(Seq::filter);
    if s.len() > 0 {
        filter_keeps_all(s.drop_last(), keep);
        assert(s.drop_last().push(s.last()) =~= s);
    }
}

/// A command of the subagents.
#[derive(Clone, Debug, PartialEq, Eq)]
pub enum SubagentsCommand {
    List,
    Inspect { run_id: Option<String> },
    Kill { run_id: Option<String> },
    Other,
}

/// A command.
#[derive(Clone, Debug, PartialEq, Eq)]
pub enum SlashCommand {
    New,
    Stop,
    Status,
    Models,
    /// The model that is asked for, or nothing.
    Model { requested: String },
    Subagents { command: SubagentsCommand },
    Help,
}

#[verifier::ext_equal]
pub enum SubagentsCommandView {
    List,
    Inspect { run_id: Option<Seq<char>> },
    Kill { run_id: Option<Seq<char>> },
    Other,
}

#[verifier::ext_equal]
pub enum SlashCommandView {
    New,
    Stop,
    Status,
    Models,
    Model { requested: Seq<char> },
    Subagents { command: SubagentsCommandView },
    Help,
}

impl View for SubagentsCommand {
    type V = SubagentsCommandView;

    open spec fn view(&self) -> SubagentsCommandView {
        match *self {
            SubagentsCommand::List => SubagentsCommandView::List,
            SubagentsCommand::Inspect { run_id } => SubagentsCommandView::Inspect {
                run_id: opt_view(run_id),
            },
            SubagentsCommand::Kill { run_id } => SubagentsCommandView::Kill {
                run_id: opt_view(run_id),
            },
            SubagentsCommand::Other => SubagentsCommandView::Other,
        }
    }
}

impl View for SlashCommand {
    type V = SlashCommandView;

    open spec fn view(&self) -> SlashCommandView {
        match *self {
            SlashCommand::New => SlashCommandView::New,
            SlashCommand::Stop => SlashCommandView::Stop,
            SlashCommand::Status => SlashCommandView::Status,
            SlashCommand::Models => SlashCommandView::Models,
            SlashCommand::Model { requested } => SlashCommandView::Model { requested: requested@ },
            SlashCommand::Subagents { command } => SlashCommandView::Subagents {
                command: command@,
            },
            SlashCommand::Help => SlashCommandView::Help,
        }
    }
}

/// The word at a place, where there is one.
pub open spec fn word_at(w: Seq<Seq<char>>, i: int) -> Option<Seq<char>> {
    if i < w.len() {
        Some(w[i])
    } else {
        None
    }
}

pub open spec fn subagents_command(w: Seq<Seq<char>>) -> SubagentsCommandView {
    let action = match word_at(w, 1) {
        Some(a) => a,
        None => "list"@,
    };
    if action == "list"@ {
        SubagentsCommandView::List
    } else if action == "inspect"@ {
        SubagentsCommandView::Inspect { run_id: word_at(w, 2) }
    } else if action == "kill"@ {
        SubagentsCommandView::Kill { run_id: word_at(w, 2) }
    } else {
        SubagentsCommandView::Other
    }
}

/// The command that an input is, by its first word.
pub open spec fn slash_command(input: Seq<char>) -> Option<SlashCommandView> {
    let t = trimmed(input);
    let w = words(t);
    if w.len() == 0 {
        None
    } else if w[0] == "/new"@ || w[0] == "/clear"@ || w[0] == "/reset"@ {
        Some(SlashCommandView::New)
    } else if w[0] == "/stop"@ {
        Some(SlashCommandView::Stop)
    } else if w[0] == "/status"@ {
        Some(SlashCommandView::Status)
    } else if w[0] == "/models"@ {
        Some(SlashCommandView::Models)
    } else if w[0] == "/model"@ {
        Some(
            SlashCommandView::Model {
                requested: match crate::text::after_prefix(t, "/model"@) {
                    Some(rest) => trimmed(rest),
                    None => Seq::empty(),
                },
            },
        )
    } else if w[0] == "/subagents"@ {
        Some(SlashCommandView::Subagents { command: subagents_command(w) })
    } else if w[0] == "/help"@ || w[0] == "/?"@ {
        Some(SlashCommandView::Help)
    } else {
        None
    }
}

pub open spec fn opt_command_view(c: Option<SlashCommand>) -> Option<SlashCommandView> {
    match c {
        Some(c) => Some(c@),
        None => None,
    }
}

fn take_word(w: &Vec<String>, i: usize) -> (r: Option<String>)
    ensures
        opt_view(r) == word_at(views(w@), i as int),
{
    if i < w.len() {
        assert(views(w@)[i as int] == w@[i as int]@);
        Some(w[i].clone())
    } else {
        None
    }
}

fn read_subagents_command(w: &Vec<String>) -> (r: SubagentsCommand)
    ensures
        r@ == subagents_command(views(w@)),
{
    let action = match take_word(w, 1) {
        Some(a) => a,
        None => "list".to_owned(),
    };
    if same_text(action.as_str(), "list") {
        SubagentsCommand::List
    } else if same_text(action.as_str(), "inspect") {
        SubagentsCommand::Inspect { run_id: take_word(w, 2) }
    } else if same_text(action.as_str(), "kill") {
        SubagentsCommand::Kill { run_id: take_word(w, 2) }
    } else {
        SubagentsCommand::Other
    }
}

/// Reads an input as a command.
pub fn read_slash_command(input: &str) -> (r: Option<SlashCommand>)
    ensures
        opt_command_view(r) == slash_command(input@),
{
    let t = trim_text(input);
    let w = split_words(t.as_str());
    assert(views(w@).len() == w@.len());
    if w.len() == 0 {
        return None;
    }
    assert(views(w@)[0] == w@[0]@);
    let c = w[0].as_str();
    if same_text(c, "/new") || same_text(c, "/clear") || same_text(c, "/reset") {
        Some(SlashCommand::New)
    } else if same_text(c, "/stop") {
        Some(SlashCommand::Stop)
    } else if same_text(c, "/status") {
        Some(SlashCommand::Status)
    } else if same_text(c, "/models") {
        Some(SlashCommand::Models)
    } else if same_text(c, "/model") {
        let requested = match strip_prefix_text(t.as_str(), "/model") {
            Some(rest) => trim_text(rest.as_str()),
            None => String::new(),
        };
        assert(requested@ =~= slash_command(input@)->0->requested);
        Some(SlashCommand::Model { requested })
    } else if same_text(c, "/subagents") {
        Some(SlashCommand::Subagents { command: read_subagents_command(&w) })
    } else if same_text(c, "/help") || same_text(c, "/?") {
        Some(SlashCommand::Help)
    } else {
        None
    }
}

/// Starts a conversation anew.
pub fn start_new_session(g: &mut Gateway, key: &SessionKey) -> (r: String)
    requires
        old(g).wf(),
        old(g)@.epoch(key@) < u64::MAX,
    ensures
        r@ == "New session ✅"@,
        final(g).wf(),
        final(g)@ == old(g)@.cleared(key@),
        final(g).buffered(key@) == Seq::<Seq<char>>::empty(),
        forall|k: KeyView| k != key@ ==> #[trigger] final(g).buffered(k) == old(g).buffered(k),
{
    g.clear_session(key);
    "New session ✅".to_owned()
}

/// Stops the turn under way in a conversation. `stopped_children` says whether
/// a child run of it was stopped.
pub fn stop_session(g: &mut Gateway, key: &SessionKey, stopped_children: bool) -> (r: String)
    requires
        old(g).wf(),
    ensures
        final(g).wf(),
        final(g).same_buffers(old(g)),
        final(g)@ == (if old(g)@.active.contains_key(key@) {
            GatewayView { active: old(g)@.active.insert(key@, true), ..old(g)@ }
        } else {
            old(g)@
        }),
        r@ == (if stopped_children || old(g)@.active.contains_key(key@) {
            "Stopping agent…"@
        } else {
            "No active turn to stop."@
        }),
{
    if g.cancel_active_turn(key, stopped_children) {
        "Stopping agent…".to_owned()
    } else {
        "No active turn to stop.".to_owned()
    }
}

pub const HELP: &'static str = "Available commands:\n/new, /clear        — Start a new session (clears history)\n/stop               — Stop the current agent turn and any active child runs\n/status             — Show session info\n/models             — List available primary models\n/model <id>         — Switch your current primary model\n/subagents          — List active and recent subagent runs\n/subagents inspect <run_id> — Show subagent run details\n/subagents kill <run_id>    — Stop an active subagent run\n/help, /?           — Show this help";

pub fn help_text() -> (r: &'static str)
    ensures
        r@ == HELP@,
{
    HELP
}

/// The model of a conversation, and how long its context may be.
#[derive(Clone, Debug, PartialEq, Eq)]
pub struct ModelSelection {
    pub model: String,
    pub context_limit: u64,
}

/// What the status of a conversation is told besides.
#[derive(Debug, PartialEq, Eq)]
pub struct StatusFacts {
    /// The model, or why there is none.
    pub model: Result<ModelSelection, String>,
    /// How much of the context is in use, in percent with one decimal.
    pub percent: String,
    pub active_subagents: u64,
}

pub open spec fn status_model(f: StatusFacts) -> Seq<char> {
    match f.model {
        Ok(m) => m.model@,
        Err(e) => "unavailable ("@ + e@ + ")"@,
    }
}

pub open spec fn status_limit(f: StatusFacts) -> nat {
    match f.model {
        Ok(m) => m.context_limit as nat,
        Err(_) => 0,
    }
}

/// A count, or zero.
pub open spec fn counted(n: Option<u32>) -> nat {
    match n {
        Some(n) => n as nat,
        None => 0,
    }
}

/// The status of a conversation.
pub open spec fn status_text(g: GatewayView, key: crate::session::KeyView, f: StatusFacts) -> Seq<
    char,
> {
    let running = if g.active.contains_key(key) {
        " (running)"@
    } else {
        ""@
    };
    let usage = g.usage_of(key);
    "Session: "@ + key_text(key) + running + "\nAgent: "@ + g.agent_id + "\nModel: "@
        + status_model(f) + "\nMessages: "@ + decimal(g.history(key).len()) + "\nContext: "@
        + grouped(decimal(usage.last_input_tokens as nat)) + " / "@
        + grouped(decimal(status_limit(f))) + " tokens ("@ + f.percent@ + "%)\nTotal tokens used: "@
        + grouped(decimal(counted(usage.cumulative.input_tokens))) + " in / "@
        + grouped(decimal(counted(usage.cumulative.output_tokens))) + " out\nActive subagents: "@
        + decimal(f.active_subagents as nat)
}

/// Tells the status of a conversation.
pub fn format_status(g: &Gateway, key: &SessionKey, f: &StatusFacts) -> (r: String)
    requires
        g.wf(),
    ensures
        r@ == status_text(g@, key@, *f),
{
    let count: usize = g.session_message_count(key);
    let usage = g.session_usage(key);
    let model = match &f.model {
        Ok(m) => m.model.clone(),
        Err(e) => cat3("unavailable (", e.as_str(), ")"),
    };
    let limit: u64 = match &f.model {
        Ok(m) => m.context_limit,
        Err(_) => 0,
    };
    let running = if g.has_active_turn(key) {
        " (running)"
    } else {
        ""
    };
    let input: u64 = match usage.cumulative.input_tokens {
        Some(n) => n as u64,
        None => 0,
    };
    let output: u64 = match usage.cumulative.output_tokens {
        Some(n) => n as u64,
        None => 0,
    };
    let id = key.text();
    let agent = g.agent_id();
    cat5(
        cat5(
            cat5(
                cat5(
                    cat5("Session: ", id.as_str(), running, "\nAgent: ", agent.as_str()).as_str(),
                    "\nModel: ",
                    model.as_str(),
                    "\nMessages: ",
                    decimal_text(count as u64).as_str(),
                ).as_str(),
                "\nContext: ",
                format_number(usage.last_input_tokens as u64).as_str(),
                " / ",
                format_number(limit).as_str(),
            ).as_str(),
            " tokens (",
            f.percent.as_str(),
            "%)\nTotal tokens used: ",
            format_number(input).as_str(),
        ).as_str(),
        " in / ",
        format_number(output).as_str(),
        " out\nActive subagents: ",
        decimal_text(f.active_subagents as u64).as_str(),
    )
}

/// A model that can be chosen.
#[derive(Clone, Debug, PartialEq, Eq)]
pub struct ModelEntry {
    pub id: String,
    pub is_current: bool,
    pub is_default: bool,
    pub description: Option<String>,
    pub context_limit: Option<u64>,
    pub aliases: Vec<String>,
}

pub open spec fn model_tags(e: ModelEntry) -> Seq<char> {
    if e.is_current && e.is_default {
        "current, default"@
    } else if e.is_current {
        "current"@
    } else if e.is_default {
        "default"@
    } else {
        ""@
    }
}

pub open spec fn model_details(e: ModelEntry) -> Seq<char> {
    let limit = match e.context_limit {
        Some(n) => grouped(decimal(n as nat)) + " tokens"@,
        None => ""@,
    };
    match (e.description, e.context_limit) {
        (Some(d), Some(_)) => " — "@ + d@ + " · "@ + limit,
        (Some(d), None) => " — "@ + d@,
        (None, Some(_)) => " — "@ + limit,
        (None, None) => ""@,
    }
}

pub open spec fn model_notes(e: ModelEntry) -> Seq<char> {
    let tagged = e.is_current || e.is_default;
    let aliases = joined(views(e.aliases@), ", "@);
    if e.aliases@.len() > 0 && tagged {
        " (aliases: "@ + aliases + "; "@ + model_tags(e) + ")"@
    } else if e.aliases@.len() > 0 {
        " (aliases: "@ + aliases + ")"@
    } else if tagged {
        " ("@ + model_tags(e) + ")"@
    } else {
        ""@
    }
}

/// A model as a line of the list.
pub open spec fn entry_line(e: ModelEntry) -> Seq<char> {
    let mark = if e.is_current {
        "*"@
    } else {
        "-"@
    };
    "  "@ + mark + " "@ + e.id@ + model_details(e) + model_notes(e)
}

fn write_model_entry(e: &ModelEntry) -> (r: String)
    ensures
        r@ == entry_line(*e),
{
    let mark = if e.is_current {
        "*"
    } else {
        "-"
    };
    let details = match (&e.description, e.context_limit) {
        (Some(d), Some(n)) => {
            let limit = cat2(format_number(n).as_str(), " tokens");
            cat4(" — ", d.as_str(), " · ", limit.as_str())
        },
        (Some(d), None) => cat2(" — ", d.as_str()),
        (None, Some(n)) => {
            let limit = cat2(format_number(n).as_str(), " tokens");
            cat2(" — ", limit.as_str())
        },
        (None, None) => "".to_owned(),
    };
    let tags = if e.is_current && e.is_default {
        "current, default"
    } else if e.is_current {
        "current"
    } else if e.is_default {
        "default"
    } else {
        ""
    };
    let tagged = e.is_current || e.is_default;
    let aliases = join_texts(&e.aliases, ", ");
    let notes = if e.aliases.len() > 0 && tagged {
        cat5(" (aliases: ", aliases.as_str(), "; ", tags, ")")
    } else if e.aliases.len() > 0 {
        cat3(" (aliases: ", aliases.as_str(), ")")
    } else if tagged {
        cat3(" (", tags, ")")
    } else {
        "".to_owned()
    };
    cat2(cat5("  ", mark, " ", e.id.as_str(), details.as_str()).as_str(), notes.as_str())
}

pub open spec fn model_list(models: Seq<ModelEntry>) -> Seq<Seq<char>> {
    seq!["Available models:"@] + models.map(|i: int, e: ModelEntry| entry_line(e))
        + seq![
        "Use /model <id> to switch the primary session model."@,
        "Use subagent profiles for specialized models and bounded delegated work."@,
    ]
}

/// Lists the models that can be chosen.
pub fn format_models(models: &Vec<ModelEntry>) -> (r: String)
    ensures
        r@ == joined(model_list(models@), "\n"@),
{
    let mut out: Vec<String> = Vec::new();
    out.push("Available models:".to_owned());
    for i in 0..models.len()
        invariant
            out@.len() == i + 1,
            out@[0]@ == "Available models:"@,
            forall|j: int| 0 <= j < i ==> (#[trigger] out@[j + 1])@ == entry_line(models@[j]),
    {
        out.push(write_model_entry(&models[i]));
    }
    out.push("Use /model <id> to switch the primary session model.".to_owned());
    out.push("Use subagent profiles for specialized models and bounded delegated work.".to_owned());
    proof {
        assert forall|k: int| 0 <= k < out@.len() implies #[trigger] views(out@)[k] == model_list(
            models@,
        )[k] by {
            if 1 <= k <= models@.len() {
                assert(out@[(k - 1) + 1]@ == entry_line(models@[k - 1]));
            }
        }
        assert(views(out@) =~= model_list(models@));
    }
    join_texts(&out, "\n")
}

/// What is said of the model in use.
pub fn describe_current_model(current: &str) -> (r: String)
    ensures
        r@ == "Current model: "@ + current@
            + "\nUse /models to list available models.\nUse /model <id> to switch."@,
{
    cat3(
        "Current model: ",
        current,
        "\nUse /models to list available models.\nUse /model <id> to switch.",
    )
}

pub open spec fn model_change(outcome: Result<ModelSelection, Seq<char>>, compacted: bool) -> Seq<
    char,
> {
    match outcome {
        Ok(m) => {
            let set = "Model set to "@ + m.model@ + " ✅\nContext window: "@
                + grouped(decimal(m.context_limit as nat)) + " tokens"@;
            if compacted {
                set + "\nSession compacted before handoff ✅"@
            } else {
                set
            }
        },
        Err(error) => "Could not change model: "@ + error,
    }
}

/// What is said of a change of the model. `compacted` says whether the
/// conversation was compacted for it.
pub fn describe_model_change(outcome: Result<ModelSelection, &str>, compacted: bool) -> (r: String)
    ensures
        r@ == model_change(
            match outcome {
                Ok(m) => Ok(m),
                Err(e) => Err(e@),
            },
            compacted,
        ),
{
    match outcome {
        Ok(m) => {
            let set = cat5(
                "Model set to ",
                m.model.as_str(),
                " ✅\nContext window: ",
                format_number(m.context_limit).as_str(),
                " tokens",
            );
            if compacted {
                cat2(set.as_str(), "\nSession compacted before handoff ✅")
            } else {
                set
            }
        },
        Err(error) => cat2("Could not change model: ", error),
    }
}

/// A run of a subagent.
#[derive(Clone, Debug, PartialEq, Eq)]
pub struct SubagentRun {
    pub run_id: String,
    pub status: String,
    pub model: String,
    pub child_session: String,
    pub parent_session: String,
    pub depth: u32,
    pub timeout_seconds: u64,
    pub max_turns: u32,
    pub task: String,
    pub profile: Option<String>,
    pub tool_names: Vec<String>,
    pub paths: Vec<String>,
    pub artifact_paths: Vec<String>,
    pub summary: Option<String>,
    pub error: Option<String>,
}

/// How many runs are listed.
pub const LISTED_RUNS: usize = 10;

pub open spec fn first_line(s: Seq<char>) -> Seq<char> {
    if lines(s).len() > 0 {
        lines(s)[0]
    } else {
        ""@
    }
}

fn take_first_line(s: &str) -> (r: String)
    ensures
        r@ == first_line(s@),
{
    let all = split_lines(s);
    assert(views(all@).len() == all@.len());
    if all.len() > 0 {
        assert(views(all@)[0] == all@[0]@);
        all[0].clone()
    } else {
        "".to_owned()
    }
}

pub open spec fn run_line(run: SubagentRun) -> Seq<char> {
    "- "@ + run.run_id@ + "  "@ + run.status@ + "  "@ + run.model@ + "  "@ + first_line(run.task@)
}

pub open spec fn listed(n: int) -> int {
    if n < LISTED_RUNS {
        n
    } else {
        LISTED_RUNS as int
    }
}

pub open spec fn run_list(runs: Seq<SubagentRun>) -> Seq<Seq<char>> {
    seq!["Subagent runs:"@] + runs.take(listed(runs.len() as int)).map(
        |i: int, run: SubagentRun| run_line(run),
    )
}

/// Lists the runs, the first ten of them.
pub fn list_subagents(runs: &Vec<SubagentRun>) -> (r: String)
    ensures
        r@ == (if runs@.len() == 0 {
            "No subagent runs yet."@
        } else {
            joined(run_list(runs@), "\n"@)
        }),
{
    if runs.len() == 0 {
        return "No subagent runs yet.".to_owned();
    }
    let n: usize = if runs.len() < LISTED_RUNS {
        runs.len()
    } else {
        LISTED_RUNS
    };
    let mut out: Vec<String> = Vec::new();
    out.push("Subagent runs:".to_owned());
    for i in 0..n
        invariant
            n <= runs@.len(),
            out@.len() == i + 1,
            out@[0]@ == "Subagent runs:"@,
            forall|j: int| 0 <= j < i ==> (#[trigger] out@[j + 1])@ == run_line(runs@[j]),
    {
        let run = &runs[i];
        let task = take_first_line(run.task.as_str());
        out.push(cat4(
            cat5("- ", run.run_id.as_str(), "  ", run.status.as_str(), "  ").as_str(),
            run.model.as_str(),
            "  ",
            task.as_str(),
        ));
    }
    proof {
        assert(n == listed(runs@.len() as int));
        assert forall|k: int| 0 <= k < out@.len() implies #[trigger] views(out@)[k] == run_list(
            runs@,
        )[k] by {
            if k > 0 {
                assert(out@[(k - 1) + 1]@ == run_line(runs@[k - 1]));
            }
        }
        assert(views(out@) =~= run_list(runs@));
    }
    join_texts(&out, "\n")
}

/// A list of lines, with one more where there is something to say.
pub open spec fn with_list(l: Seq<Seq<char>>, label: Seq<char>, items: Seq<Seq<char>>) -> Seq<
    Seq<char>,
> {
    if items.len() > 0 {
        l.push(label + joined(items, ", "@))
    } else {
        l
    }
}

pub open spec fn with_note(l: Seq<Seq<char>>, label: Seq<char>, note: Option<String>) -> Seq<
    Seq<char>,
> {
    match note {
        Some(s) => l.push(label + s@),
        None => l,
    }
}

pub open spec fn run_details(run: SubagentRun) -> Seq<Seq<char>> {
    let a = seq![
        "Run: "@ + run.run_id@,
        "Status: "@ + run.status@,
        "Model: "@ + run.model@,
        "Child session: "@ + run.child_session@,
        "Parent session: "@ + run.parent_session@,
        "Depth: "@ + decimal(run.depth as nat),
        "Timeout: "@ + decimal(run.timeout_seconds as nat) + "s"@,
        "Max turns: "@ + decimal(run.max_turns as nat),
        "Task: "@ + run.task@,
    ];
    let b = with_note(a, "Profile: "@, run.profile);
    let c = with_list(b, "Tools: "@, views(run.tool_names@));
    let d = with_list(c, "Paths: "@, views(run.paths@));
    let e = with_list(d, "Artifacts: "@, views(run.artifact_paths@));
    let f = match run.summary {
        Some(s) => e.push(""@).push("Summary:"@).push(s@),
        None => e,
    };
    with_note(f, "Error: "@, run.error)
}

fn add_line(l: &mut Vec<String>, line: String)
    ensures
        views(final(l)@) == views(old(l)@).push(line@),
{
    l.push(line);
    assert(views(l@) =~= views(old(l)@).push(line@));
}

fn add_list(l: &mut Vec<String>, label: &str, items: &Vec<String>)
    ensures
        views(final(l)@) == with_list(views(old(l)@), label@, views(items@)),
{
    if items.len() > 0 {
        let text = join_texts(items, ", ");
        add_line(l, cat2(label, text.as_str()));
    }
}

fn add_note(l: &mut Vec<String>, label: &str, note: &Option<String>)
    ensures
        views(final(l)@) == with_note(views(old(l)@), label@, *note),
{
    if let Some(s) = note {
        add_line(l, cat2(label, s.as_str()));
    }
}

/// Tells all of a run.
pub fn describe_subagent(run: &SubagentRun) -> (r: String)
    ensures
        r@ == joined(run_details(*run), "\n"@),
{
    let mut out: Vec<String> = vec![
        cat2("Run: ", run.run_id.as_str()),
        cat2("Status: ", run.status.as_str()),
        cat2("Model: ", run.model.as_str()),
        cat2("Child session: ", run.child_session.as_str()),
        cat2("Parent session: ", run.parent_session.as_str()),
        cat2("Depth: ", decimal_text(run.depth as u64).as_str()),
        cat3("Timeout: ", decimal_text(run.timeout_seconds as u64).as_str(), "s"),
        cat2("Max turns: ", decimal_text(run.max_turns as u64).as_str()),
        cat2("Task: ", run.task.as_str()),
    ];
    assert(views(out@) =~= seq![
        "Run: "@ + run.run_id@,
        "Status: "@ + run.status@,
        "Model: "@ + run.model@,
        "Child session: "@ + run.child_session@,
        "Parent session: "@ + run.parent_session@,
        "Depth: "@ + decimal(run.depth as nat),
        "Timeout: "@ + decimal(run.timeout_seconds as nat) + "s"@,
        "Max turns: "@ + decimal(run.max_turns as nat),
        "Task: "@ + run.task@,
    ]);
    add_note(&mut out, "Profile: ", &run.profile);
    add_list(&mut out, "Tools: ", &run.tool_names);
    add_list(&mut out, "Paths: ", &run.paths);
    add_list(&mut out, "Artifacts: ", &run.artifact_paths);
    if let Some(s) = &run.summary {
        add_line(&mut out, "".to_owned());
        add_line(&mut out, "Summary:".to_owned());
        add_line(&mut out, s.clone());
    }
    add_note(&mut out, "Error: ", &run.error);
    join_texts(&out, "\n")
}

/// What is said of a run that was asked about, `None` where no run was named.
pub fn inspect_subagent(outcome: Option<Result<SubagentRun, &str>>) -> (r: String)
    ensures
        r@ == (match outcome {
            None => "Usage: /subagents inspect <run_id>"@,
            Some(Ok(run)) => joined(run_details(run), "\n"@),
            Some(Err(e)) => "Could not inspect subagent run: "@ + e@,
        }),
{
    match outcome {
        None => "Usage: /subagents inspect <run_id>".to_owned(),
        Some(Ok(run)) => describe_subagent(&run),
        Some(Err(e)) => cat2("Could not inspect subagent run: ", e),
    }
}

/// The run that is to be stopped.
#[derive(Clone, Debug, PartialEq, Eq)]
pub enum KillRequest {
    /// There is none; this is said.
    Refused { reply: String },
    Stop { run_id: u128 },
}

/// Reads which run is to be stopped.
pub fn read_kill(run_id: Option<&str>) -> (r: KillRequest)
    ensures
        match run_id {
            None => r matches KillRequest::Refused { reply } && reply@
                == "Usage: /subagents kill <run_id>"@,
            Some(id) => match uuid_number(id@) {
                Some(n) => r matches KillRequest::Stop { run_id: u } && u == n,
                None => r matches KillRequest::Refused { reply } && reply@
                    == "Invalid subagent run id: "@ + uuid_fault(id@),
            },
        },
{
    match run_id {
        None => KillRequest::Refused { reply: "Usage: /subagents kill <run_id>".to_owned() },
        Some(id) => match parse_uuid(id) {
            Ok(u) => KillRequest::Stop { run_id: u },
            Err(e) => KillRequest::Refused {
                reply: cat2("Invalid subagent run id: ", e.as_str()),
            },
        },
    }
}

/// What is said once a run was stopped, or was not.
pub fn describe_kill(run_id: u128, outcome: Result<bool, &str>) -> (r: String)
    ensures
        r@ == (match outcome {
            Ok(true) => "Stopped subagent "@ + hyphenated(run_id) + " ✅"@,
            Ok(false) => "No active subagent found for "@ + hyphenated(run_id) + "."@,
            Err(e) => "Could not stop subagent: "@ + e@,
        }),
{
    let id = uuid_text(run_id);
    match outcome {
        Ok(stopped) => if stopped {
            cat3("Stopped subagent ", id.as_str(), " ✅")
        } else {
            cat3("No active subagent found for ", id.as_str(), ".")
        },
        Err(e) => cat2("Could not stop subagent: ", e),
    }
}

pub const SUBAGENTS_USAGE: &'static str = "Usage: /subagents [list|inspect <run_id>|kill <run_id>]";

/// What is said to a command of the subagents that there is not.
pub fn subagents_usage() -> (r: &'static str)
    ensures
        r@ == SUBAGENTS_USAGE@,
{
    SUBAGENTS_USAGE
}

} // verus!
