//! What commands and tools do: which input is which command, what is told of
//! models, runs and reports, and what may be changed in the configuration.
use vstd::prelude::*;

use crate::check_report::{
    failed, failures, icon, result_line, summary, summary_lines, CheckView, Severity,
};
use crate::commands::{
    entry_line, first_line, grouped, model_change, model_list, run_details, run_line, run_list,
    slash_command, status_text, ModelEntry, ModelSelection, SlashCommandView, StatusFacts,
    SubagentRun, SubagentsCommandView,
};
use crate::config::{
    config_path, eq_opt_sandbox_overrides, eq_prompt_config, usual_shared_files, usual_user_files,
    CacheHint, CacheHintConfig, CandidatePath, Config, CronConfig, PromptFileConfig,
    PromptFileEntry, SandboxConfig, UserConfig,
};
use crate::config_tool::{
    appears, backup_note, change_of, cron_change, cron_sandbox, entries_of, entry_change,
    escalation_reason, is_write_request, keeps_entry, keeps_security, may_configure, not_written,
    rejected, sandbox_reason, some_appears, user_change, users_differ, OutputView, WriteRequest,
};
use crate::config_watcher::{changed_sections, reload_errors, restart_fields};
use crate::config_write::{
    action_of, after_backup, after_replacement, after_staging, after_validation, begun, Place,
    WriteActionView, WritePhase, WriteView,
};
use crate::gateway::GatewayView;
use crate::image_tools::{
    image_arguments, image_models, is_image_call, model_fault, requested_image, safe_stem,
    target_model, usable, usable_items, CandidateModel, ImageArgumentsView, ImageCall,
    ImageCapabilities,
};
use crate::json::{json_list, json_string};
use crate::session::{hyphenated, KeyView, KindView, TrustLevel};
use crate::text::{decimal, has_text, joined, lines, trimmed, views, words};
use crate::text_laws::ends_come_off;

verus! {

/// An input is a command exactly where its first word is one, whatever follows
/// and whatever white space stands around it.
pub proof fn first_words_are_commands(input: Seq<char>)
    ensures
        ({
            let w = words(trimmed(input));
            let c = slash_command(input);
            &&& w.len() == 0 ==> c is None
            &&& w.len() > 0 ==> {
                &&& c == Some(SlashCommandView::New) <==> w[0] == "/new"@ || w[0] == "/clear"@
                    || w[0] == "/reset"@
                &&& c == Some(SlashCommandView::Stop) <==> w[0] == "/stop"@
                &&& c == Some(SlashCommandView::Status) <==> w[0] == "/status"@
                &&& c == Some(SlashCommandView::Models) <==> w[0] == "/models"@
                &&& (c is Some && c->0 is Model) <==> w[0] == "/model"@
                &&& (c is Some && c->0 is Subagents) <==> w[0] == "/subagents"@
                &&& c == Some(SlashCommandView::Help) <==> w[0] == "/help"@ || w[0] == "/?"@
            }
        }),
{
    reveal_strlit("/new");
    reveal_strlit("/clear");
    reveal_strlit("/reset");
    reveal_strlit("/stop");
    reveal_strlit("/status");
    reveal_strlit("/models");
    reveal_strlit("/model");
    reveal_strlit("/subagents");
    reveal_strlit("/help");
    reveal_strlit("/?");
    assert("/new"@.len() == 4 && "/clear"@.len() == 6 && "/reset"@.len() == 6 && "/stop"@.len() == 5
        && "/status"@.len() == 7 && "/models"@.len() == 7 && "/model"@.len() == 6
        && "/subagents"@.len() == 10 && "/help"@.len() == 5 && "/?"@.len() == 2);
    assert("/clear"@[1] == 'c' && "/reset"@[1] == 'r' && "/model"@[1] == 'm' && "/stop"@[1] == 's'
        && "/help"@[1] == 'h' && "/status"@[1] == 's' && "/models"@[1] == 'm');
}

/// The model that is asked for is what stands behind the command, but for white
/// space around it.
pub proof fn requested_models_are_trimmed(rest: Seq<char>)
    requires
        words(trimmed("/model"@ + rest)).len() > 0,
        words(trimmed("/model"@ + rest))[0] == "/model"@,
        rest.len() > 0 ==> !crate::text::white_space(rest.last()),
    ensures
        slash_command("/model"@ + rest) == Some(
            SlashCommandView::Model { requested: trimmed(rest) },
        ),
{
    first_words_are_commands("/model"@ + rest);
    reveal_strlit("/model");
    let s = "/model"@ + rest;
    assert(s[0] == '/');
    assert(s.last() == (if rest.len() > 0 {
        rest.last()
    } else {
        'l'
    }));
    crate::text::trimmed_fixed(s);
    ends_come_off(rest, "/model"@);
    reveal_strlit("/new");
    reveal_strlit("/clear");
    reveal_strlit("/reset");
    reveal_strlit("/stop");
    reveal_strlit("/status");
    reveal_strlit("/models");
    assert("/new"@.len() == 4 && "/clear"@.len() == 6 && "/reset"@.len() == 6 && "/stop"@.len() == 5
        && "/status"@.len() == 7 && "/models"@.len() == 7 && "/model"@.len() == 6);
    assert("/clear"@[1] == 'c' && "/reset"@[1] == 'r' && "/model"@[1] == 'm');
}

/// Runs of subagents are listed unless something else is asked: to look at one
/// or to stop one, by the word behind that.
pub proof fn subagent_commands_go_by_words(w: Seq<Seq<char>>)
    requires
        w.len() > 0,
    ensures
        ({
            let c = crate::commands::subagents_command(w);
            &&& w.len() == 1 ==> c == SubagentsCommandView::List
            &&& w.len() > 1 && w[1] == "list"@ ==> c == SubagentsCommandView::List
            &&& w.len() == 2 && w[1] == "inspect"@ ==> c == (SubagentsCommandView::Inspect {
                run_id: None,
            })
            &&& w.len() > 2 && w[1] == "inspect"@ ==> c == (SubagentsCommandView::Inspect {
                run_id: Some(w[2]),
            })
            &&& w.len() == 2 && w[1] == "kill"@ ==> c == (SubagentsCommandView::Kill {
                run_id: None,
            })
            &&& w.len() > 2 && w[1] == "kill"@ ==> c == (SubagentsCommandView::Kill {
                run_id: Some(w[2]),
            })
            &&& w.len() > 1 && w[1] != "list"@ && w[1] != "inspect"@ && w[1] != "kill"@ ==> c
                == SubagentsCommandView::Other
        }),
{
    reveal_strlit("list");
    reveal_strlit("inspect");
    reveal_strlit("kill");
    assert("list"@.len() == 4 && "inspect"@.len() == 7 && "kill"@.len() == 4);
    assert("list"@[0] == 'l' && "kill"@[0] == 'k');
}

/// Three digits stand behind each comma of a number, and up to three before the
/// first.
pub proof fn commas_stand_by_threes(s: Seq<char>)
    ensures
        s.len() <= 3 ==> grouped(s) == s,
        s.len() > 3 ==> {
            &&& grouped(s).len() > 4
            &&& grouped(s)[grouped(s).len() - 4] == ','
            &&& grouped(s).skip(grouped(s).len() - 3) == s.skip(s.len() - 3)
            &&& grouped(s).take(grouped(s).len() - 4) == grouped(s.take(s.len() - 3))
        },
    decreases s.len(),
{
    reveal_strlit(",");
    if s.len() > 3 {
        let g = grouped(s);
        let head = grouped(s.take(s.len() - 3));
        commas_stand_by_threes(s.take(s.len() - 3));
        assert(head.len() > 0) by {
            if s.len() - 3 > 3 {
            } else {
                assert(head == s.take(s.len() - 3));
            }
        }
        assert(g.skip(g.len() - 3) =~= s.skip(s.len() - 3));
        assert(g.take(g.len() - 4) =~= head);
    }
}

proof fn grows(s: Seq<char>, p: Seq<char>, x: Seq<char>)
    requires
        has_text(s, p),
    ensures
        has_text(s + x, p),
{
    assert((s + x).subrange(0, s.len() as int) =~= s);
    crate::text::has_text_in_part(s + x, 0, s.len() as int, p);
}

proof fn grows_in_front(a: Seq<char>, s: Seq<char>, p: Seq<char>)
    requires
        has_text(s, p),
    ensures
        has_text(a + s, p),
{
    let n = a.len() as int;
    assert((a + s).subrange(n, n + s.len()) =~= s);
    crate::text::has_text_in_part(a + s, n, n + s.len(), p);
}

proof fn stands_at_end(a: Seq<char>, p: Seq<char>)
    ensures
        has_text(a + p, p),
{
    let n = a.len() as int;
    assert((a + p).subrange(n, n + p.len()) =~= p);
    assert(crate::text::occurs_at(a + p, p, n));
}

/// The status of a conversation names it, and says whether a turn runs in it.
pub proof fn status_names_the_session(g: GatewayView, k: KeyView, f: StatusFacts, m: ModelSelection)
    requires
        f.model == Ok::<ModelSelection, String>(m),
    ensures
        has_text(
            status_text(g, k, f),
            "Session: "@ + crate::session::key_text(k) + (if g.active.contains_key(k) {
                " (running)"@
            } else {
                ""@
            }) + "\nAgent: "@,
        ),
{
    let running = if g.active.contains_key(k) {
        " (running)"@
    } else {
        ""@
    };
    let usage = g.usage_of(k);
    let c0 = "Session: "@;
    let c1 = c0 + crate::session::key_text(k);
    let c2 = c1 + running;
    let c3 = c2 + "\nAgent: "@;
    let c4 = c3 + g.agent_id;
    let c5 = c4 + "\nModel: "@;
    let c6 = c5 + m.model@;
    let c7 = c6 + "\nMessages: "@;
    let c8 = c7 + decimal(g.history(k).len());
    let c9 = c8 + "\nContext: "@;
    let c10 = c9 + grouped(decimal(usage.last_input_tokens as nat));
    let c11 = c10 + " / "@;
    let c12 = c11 + grouped(decimal(m.context_limit as nat));
    let c13 = c12 + " tokens ("@;
    let c14 = c13 + f.percent@;
    let c15 = c14 + "%)\nTotal tokens used: "@;
    let c16 = c15 + grouped(decimal(crate::commands::counted(usage.cumulative.input_tokens)));
    let c17 = c16 + " in / "@;
    let c18 = c17 + grouped(decimal(crate::commands::counted(usage.cumulative.output_tokens)));
    let c19 = c18 + " out\nActive subagents: "@;
    let c20 = c19 + decimal(f.active_subagents as nat);
    assert(c20 == status_text(g, k, f));
    let p = "Session: "@ + crate::session::key_text(k) + running + "\nAgent: "@;
    stands_at_end(Seq::empty(), p);
    assert(Seq::<char>::empty() + p =~= p);
    assert(p =~= c3);
    grows(c3, p, g.agent_id);
    grows(c4, p, "\nModel: "@);
    grows(c5, p, m.model@);
    grows(c6, p, "\nMessages: "@);
    grows(c7, p, decimal(g.history(k).len()));
    grows(c8, p, "\nContext: "@);
    grows(c9, p, grouped(decimal(usage.last_input_tokens as nat)));
    grows(c10, p, " / "@);
    grows(c11, p, grouped(decimal(m.context_limit as nat)));
    grows(c12, p, " tokens ("@);
    grows(c13, p, f.percent@);
    grows(c14, p, "%)\nTotal tokens used: "@);
    grows(c15, p, grouped(decimal(crate::commands::counted(usage.cumulative.input_tokens))));
    grows(c16, p, " in / "@);
    grows(c17, p, grouped(decimal(crate::commands::counted(usage.cumulative.output_tokens))));
    grows(c18, p, " out\nActive subagents: "@);
    grows(c19, p, decimal(f.active_subagents as nat));
}

/// The status of a conversation tells its agent and its model.
pub proof fn status_tells_the_model(g: GatewayView, k: KeyView, f: StatusFacts, m: ModelSelection)
    requires
        f.model == Ok::<ModelSelection, String>(m),
    ensures
        has_text(
            status_text(g, k, f),
            "\nAgent: "@ + g.agent_id + "\nModel: "@ + m.model@ + "\nMessages: "@,
        ),
{
    let running = if g.active.contains_key(k) {
        " (running)"@
    } else {
        ""@
    };
    let usage = g.usage_of(k);
    let c0 = "Session: "@;
    let c1 = c0 + crate::session::key_text(k);
    let c2 = c1 + running;
    let c3 = c2 + "\nAgent: "@;
    let c4 = c3 + g.agent_id;
    let c5 = c4 + "\nModel: "@;
    let c6 = c5 + m.model@;
    let c7 = c6 + "\nMessages: "@;
    let c8 = c7 + decimal(g.history(k).len());
    let c9 = c8 + "\nContext: "@;
    let c10 = c9 + grouped(decimal(usage.last_input_tokens as nat));
    let c11 = c10 + " / "@;
    let c12 = c11 + grouped(decimal(m.context_limit as nat));
    let c13 = c12 + " tokens ("@;
    let c14 = c13 + f.percent@;
    let c15 = c14 + "%)\nTotal tokens used: "@;
    let c16 = c15 + grouped(decimal(crate::commands::counted(usage.cumulative.input_tokens)));
    let c17 = c16 + " in / "@;
    let c18 = c17 + grouped(decimal(crate::commands::counted(usage.cumulative.output_tokens)));
    let c19 = c18 + " out\nActive subagents: "@;
    let c20 = c19 + decimal(f.active_subagents as nat);
    assert(c20 == status_text(g, k, f));
    let p = "\nAgent: "@ + g.agent_id + "\nModel: "@ + m.model@ + "\nMessages: "@;
    assert(c2 + p =~= c7);
    stands_at_end(c2, p);
    grows(c7, p, decimal(g.history(k).len()));
    grows(c8, p, "\nContext: "@);
    grows(c9, p, grouped(decimal(usage.last_input_tokens as nat)));
    grows(c10, p, " / "@);
    grows(c11, p, grouped(decimal(m.context_limit as nat)));
    grows(c12, p, " tokens ("@);
    grows(c13, p, f.percent@);
    grows(c14, p, "%)\nTotal tokens used: "@);
    grows(c15, p, grouped(decimal(crate::commands::counted(usage.cumulative.input_tokens))));
    grows(c16, p, " in / "@);
    grows(c17, p, grouped(decimal(crate::commands::counted(usage.cumulative.output_tokens))));
    grows(c18, p, " out\nActive subagents: "@);
    grows(c19, p, decimal(f.active_subagents as nat));
}

/// The status of a conversation tells how many messages it has.
pub proof fn status_counts_the_messages(
    g: GatewayView,
    k: KeyView,
    f: StatusFacts,
    m: ModelSelection,
)
    requires
        f.model == Ok::<ModelSelection, String>(m),
    ensures
        has_text(
            status_text(g, k, f),
            "\nMessages: "@ + decimal(g.history(k).len()) + "\nContext: "@,
        ),
{
    let running = if g.active.contains_key(k) {
        " (running)"@
    } else {
        ""@
    };
    let usage = g.usage_of(k);
    let c0 = "Session: "@;
    let c1 = c0 + crate::session::key_text(k);
    let c2 = c1 + running;
    let c3 = c2 + "\nAgent: "@;
    let c4 = c3 + g.agent_id;
    let c5 = c4 + "\nModel: "@;
    let c6 = c5 + m.model@;
    let c7 = c6 + "\nMessages: "@;
    let c8 = c7 + decimal(g.history(k).len());
    let c9 = c8 + "\nContext: "@;
    let c10 = c9 + grouped(decimal(usage.last_input_tokens as nat));
    let c11 = c10 + " / "@;
    let c12 = c11 + grouped(decimal(m.context_limit as nat));
    let c13 = c12 + " tokens ("@;
    let c14 = c13 + f.percent@;
    let c15 = c14 + "%)\nTotal tokens used: "@;
    let c16 = c15 + grouped(decimal(crate::commands::counted(usage.cumulative.input_tokens)));
    let c17 = c16 + " in / "@;
    let c18 = c17 + grouped(decimal(crate::commands::counted(usage.cumulative.output_tokens)));
    let c19 = c18 + " out\nActive subagents: "@;
    let c20 = c19 + decimal(f.active_subagents as nat);
    assert(c20 == status_text(g, k, f));
    let p = "\nMessages: "@ + decimal(g.history(k).len()) + "\nContext: "@;
    assert(c6 + p =~= c9);
    stands_at_end(c6, p);
    grows(c9, p, grouped(decimal(usage.last_input_tokens as nat)));
    grows(c10, p, " / "@);
    grows(c11, p, grouped(decimal(m.context_limit as nat)));
    grows(c12, p, " tokens ("@);
    grows(c13, p, f.percent@);
    grows(c14, p, "%)\nTotal tokens used: "@);
    grows(c15, p, grouped(decimal(crate::commands::counted(usage.cumulative.input_tokens))));
    grows(c16, p, " in / "@);
    grows(c17, p, grouped(decimal(crate::commands::counted(usage.cumulative.output_tokens))));
    grows(c18, p, " out\nActive subagents: "@);
    grows(c19, p, decimal(f.active_subagents as nat));
}

/// The status of a conversation tells how much of the context its last request
/// took, and how much there is.
pub proof fn status_measures_the_context(
    g: GatewayView,
    k: KeyView,
    f: StatusFacts,
    m: ModelSelection,
)
    requires
        f.model == Ok::<ModelSelection, String>(m),
    ensures
        has_text(
            status_text(g, k, f),
            "\nContext: "@ + grouped(decimal(g.usage_of(k).last_input_tokens as nat)) + " / "@ + grouped(decimal(m.context_limit as nat)) + " tokens ("@,
        ),
{
    let running = if g.active.contains_key(k) {
        " (running)"@
    } else {
        ""@
    };
    let usage = g.usage_of(k);
    let c0 = "Session: "@;
    let c1 = c0 + crate::session::key_text(k);
    let c2 = c1 + running;
    let c3 = c2 + "\nAgent: "@;
    let c4 = c3 + g.agent_id;
    let c5 = c4 + "\nModel: "@;
    let c6 = c5 + m.model@;
    let c7 = c6 + "\nMessages: "@;
    let c8 = c7 + decimal(g.history(k).len());
    let c9 = c8 + "\nContext: "@;
    let c10 = c9 + grouped(decimal(usage.last_input_tokens as nat));
    let c11 = c10 + " / "@;
    let c12 = c11 + grouped(decimal(m.context_limit as nat));
    let c13 = c12 + " tokens ("@;
    let c14 = c13 + f.percent@;
    let c15 = c14 + "%)\nTotal tokens used: "@;
    let c16 = c15 + grouped(decimal(crate::commands::counted(usage.cumulative.input_tokens)));
    let c17 = c16 + " in / "@;
    let c18 = c17 + grouped(decimal(crate::commands::counted(usage.cumulative.output_tokens)));
    let c19 = c18 + " out\nActive subagents: "@;
    let c20 = c19 + decimal(f.active_subagents as nat);
    assert(c20 == status_text(g, k, f));
    let p = "\nContext: "@ + grouped(decimal(usage.last_input_tokens as nat)) + " / "@ + grouped(decimal(m.context_limit as nat)) + " tokens ("@;
    assert(c8 + p =~= c13);
    stands_at_end(c8, p);
    grows(c13, p, f.percent@);
    grows(c14, p, "%)\nTotal tokens used: "@);
    grows(c15, p, grouped(decimal(crate::commands::counted(usage.cumulative.input_tokens))));
    grows(c16, p, " in / "@);
    grows(c17, p, grouped(decimal(crate::commands::counted(usage.cumulative.output_tokens))));
    grows(c18, p, " out\nActive subagents: "@);
    grows(c19, p, decimal(f.active_subagents as nat));
}

/// The status of a conversation tells the tokens that it has read and written
/// in all, and how many subagents are at work.
pub proof fn status_counts_the_tokens(g: GatewayView, k: KeyView, f: StatusFacts, m: ModelSelection)
    requires
        f.model == Ok::<ModelSelection, String>(m),
    ensures
        has_text(
            status_text(g, k, f),
            "%)\nTotal tokens used: "@ + grouped(decimal(crate::commands::counted(g.usage_of(k).cumulative.input_tokens))) + " in / "@ + grouped(decimal(crate::commands::counted(g.usage_of(k).cumulative.output_tokens))) + " out\nActive subagents: "@ + decimal(f.active_subagents as nat),
        ),
{
    let running = if g.active.contains_key(k) {
        " (running)"@
    } else {
        ""@
    };
    let usage = g.usage_of(k);
    let c0 = "Session: "@;
    let c1 = c0 + crate::session::key_text(k);
    let c2 = c1 + running;
    let c3 = c2 + "\nAgent: "@;
    let c4 = c3 + g.agent_id;
    let c5 = c4 + "\nModel: "@;
    let c6 = c5 + m.model@;
    let c7 = c6 + "\nMessages: "@;
    let c8 = c7 + decimal(g.history(k).len());
    let c9 = c8 + "\nContext: "@;
    let c10 = c9 + grouped(decimal(usage.last_input_tokens as nat));
    let c11 = c10 + " / "@;
    let c12 = c11 + grouped(decimal(m.context_limit as nat));
    let c13 = c12 + " tokens ("@;
    let c14 = c13 + f.percent@;
    let c15 = c14 + "%)\nTotal tokens used: "@;
    let c16 = c15 + grouped(decimal(crate::commands::counted(usage.cumulative.input_tokens)));
    let c17 = c16 + " in / "@;
    let c18 = c17 + grouped(decimal(crate::commands::counted(usage.cumulative.output_tokens)));
    let c19 = c18 + " out\nActive subagents: "@;
    let c20 = c19 + decimal(f.active_subagents as nat);
    assert(c20 == status_text(g, k, f));
    let p = "%)\nTotal tokens used: "@ + grouped(decimal(crate::commands::counted(usage.cumulative.input_tokens))) + " in / "@ + grouped(decimal(crate::commands::counted(usage.cumulative.output_tokens))) + " out\nActive subagents: "@ + decimal(f.active_subagents as nat);
    assert(c14 + p =~= c20);
    stands_at_end(c14, p);
}

/// The list of models has one line for each, in order, and a mark at the one in
/// use.
pub proof fn models_have_lines(models: Seq<ModelEntry>, i: int)
    requires
        0 <= i < models.len(),
    ensures
        model_list(models).len() == models.len() + 3,
        model_list(models)[0] == "Available models:"@,
        model_list(models)[i + 1] == entry_line(models[i]),
        models[i].is_current ==> ("  "@ + "*"@ + " "@ + models[i].id@).is_prefix_of(
            entry_line(models[i]),
        ),
        !models[i].is_current ==> ("  "@ + "-"@ + " "@ + models[i].id@).is_prefix_of(
            entry_line(models[i]),
        ),
{
    let e = models[i];
    let l = entry_line(e);
    let mark = if e.is_current {
        "*"@
    } else {
        "-"@
    };
    let head = "  "@ + mark + " "@ + e.id@;
    assert(l.subrange(0, head.len() as int) =~= head);
}

/// A model's line says what it is and how long its context is.
pub proof fn model_lines_describe(e: ModelEntry)
    ensures
        e.context_limit is Some ==> has_text(
            entry_line(e),
            grouped(decimal(e.context_limit->0 as nat)) + " tokens"@,
        ),
        e.description is Some ==> has_text(entry_line(e), " — "@ + e.description->0@),
{
    let mark = if e.is_current {
        "*"@
    } else {
        "-"@
    };
    let head = "  "@ + mark + " "@ + e.id@;
    let details = crate::commands::model_details(e);
    let notes = crate::commands::model_notes(e);
    if e.context_limit is Some {
        let p = grouped(decimal(e.context_limit->0 as nat)) + " tokens"@;
        if e.description is Some {
            stands_at_end(" — "@ + e.description->0@ + " · "@, p);
        } else {
            stands_at_end(" — "@, p);
        }
        grows_in_front(head, details, p);
        grows(head + details, p, notes);
    }
    if e.description is Some {
        let p = " — "@ + e.description->0@;
        stands_at_end(Seq::empty(), p);
        assert(Seq::<char>::empty() + p =~= p);
        if e.context_limit is Some {
            grows(p, p, " · "@);
            grows(p + " · "@, p, grouped(decimal(e.context_limit->0 as nat)) + " tokens"@);
        }
        grows_in_front(head, details, p);
        grows(head + details, p, notes);
    }
}

/// A model's line says by which other names it goes.
pub proof fn model_lines_list_aliases(e: ModelEntry)
    requires
        e.aliases@.len() > 0,
    ensures
        has_text(entry_line(e), " (aliases: "@ + joined(views(e.aliases@), ", "@)),
{
    let mark = if e.is_current {
        "*"@
    } else {
        "-"@
    };
    let head = "  "@ + mark + " "@ + e.id@ + crate::commands::model_details(e);
    let notes = crate::commands::model_notes(e);
    let p = " (aliases: "@ + joined(views(e.aliases@), ", "@);
    let tags = crate::commands::model_tags(e);
    stands_at_end(Seq::empty(), p);
    assert(Seq::<char>::empty() + p =~= p);
    if e.is_current || e.is_default {
        grows(p, p, "; "@);
        grows(p + "; "@, p, tags);
        grows(p + "; "@ + tags, p, ")"@);
        assert(notes == p + "; "@ + tags + ")"@);
    } else {
        grows(p, p, ")"@);
        assert(notes == p + ")"@);
    }
    grows_in_front(head, notes, p);
}

proof fn tags_stand_last(e: ModelEntry)
    requires
        e.is_current || e.is_default,
    ensures
        has_text(entry_line(e), crate::commands::model_tags(e) + ")"@),
{
    let mark = if e.is_current {
        "*"@
    } else {
        "-"@
    };
    let head = "  "@ + mark + " "@ + e.id@ + crate::commands::model_details(e);
    let notes = crate::commands::model_notes(e);
    let tags = crate::commands::model_tags(e);
    let p = tags + ")"@;
    let a = if e.aliases@.len() > 0 {
        " (aliases: "@ + joined(views(e.aliases@), ", "@) + "; "@
    } else {
        " ("@
    };
    assert(notes == a + tags + ")"@);
    assert(a + tags + ")"@ =~= a + p);
    stands_at_end(a, p);
    grows_in_front(head, notes, p);
}

/// A model's line says whether it is the one in use or the usual one.
pub proof fn model_lines_have_tags(e: ModelEntry)
    ensures
        e.is_current && e.is_default ==> has_text(entry_line(e), "current, default"@ + ")"@),
        e.is_current && !e.is_default ==> has_text(entry_line(e), "current"@ + ")"@),
        !e.is_current && e.is_default ==> has_text(entry_line(e), "default"@ + ")"@),
{
    if e.is_current || e.is_default {
        tags_stand_last(e);
    }
}

/// A change of the model is told with the model and its context, and whether
/// the conversation was shortened for it; a failure with its reason.
pub proof fn model_changes_are_told(m: ModelSelection, error: Seq<char>)
    ensures
        model_change(Ok(m), false) == "Model set to "@ + m.model@ + " ✅\nContext window: "@
            + grouped(decimal(m.context_limit as nat)) + " tokens"@,
        model_change(Ok(m), true) == model_change(Ok(m), false)
            + "\nSession compacted before handoff ✅"@,
        model_change(Err(error), false) == "Could not change model: "@ + error,
        model_change(Err(error), true) == "Could not change model: "@ + error,
{
}

/// The first ten runs are listed, one to a line, each with the first line of
/// its task.
pub proof fn runs_have_lines(runs: Seq<SubagentRun>, i: int)
    requires
        0 <= i < runs.len(),
        i < 10,
    ensures
        run_list(runs).len() == 1 + (if runs.len() < 10 {
            runs.len() as int
        } else {
            10
        }),
        run_list(runs)[i + 1] == "- "@ + runs[i].run_id@ + "  "@ + runs[i].status@ + "  "@
            + runs[i].model@ + "  "@ + first_line(runs[i].task@),
        lines(runs[i].task@).len() > 0 ==> first_line(runs[i].task@) == lines(runs[i].task@)[0],
        lines(runs[i].task@).len() == 0 ==> first_line(runs[i].task@).len() == 0,
{
    reveal_strlit("");
    assert(run_list(runs)[i + 1] == run_line(runs[i]));
}

/// All of a run is told: what it is, where it runs and how far it may go, then
/// what else there is to say of it.
pub proof fn runs_are_told_whole(run: SubagentRun)
    ensures
        ({
            let d = run_details(run);
            &&& d.len() >= 9
            &&& d[0] == "Run: "@ + run.run_id@
            &&& d[1] == "Status: "@ + run.status@
            &&& d[2] == "Model: "@ + run.model@
            &&& d[3] == "Child session: "@ + run.child_session@
            &&& d[4] == "Parent session: "@ + run.parent_session@
            &&& d[5] == "Depth: "@ + decimal(run.depth as nat)
            &&& d[6] == "Timeout: "@ + decimal(run.timeout_seconds as nat) + "s"@
            &&& d[7] == "Max turns: "@ + decimal(run.max_turns as nat)
            &&& d[8] == "Task: "@ + run.task@
            &&& run.profile matches Some(p) ==> d[9] == "Profile: "@ + p@
            &&& run.error matches Some(e) ==> d.last() == "Error: "@ + e@
            &&& run.summary is Some && run.error is None ==> d.last() == run.summary->0@
            &&& run.profile is None && run.tool_names@.len() > 0 ==> d[9] == "Tools: "@ + joined(
                views(run.tool_names@),
                ", "@,
            )
            &&& run.profile is None && run.tool_names@.len() == 0 && run.paths@.len() > 0 ==> d[9]
                == "Paths: "@ + joined(views(run.paths@), ", "@)
            &&& run.artifact_paths@.len() > 0 && run.summary is None && run.error is None
                ==> d.last() == "Artifacts: "@ + joined(views(run.artifact_paths@), ", "@)
        }),
{
}

/// A write goes on from step to step: it stages the new content, checks it
/// there, keeps the old configuration where there is one, and replaces it; an
/// error at any step ends it and is noted.
pub proof fn writes_go_step_by_step(
    w: WriteView,
    content: Seq<char>,
    report: Seq<CheckView>,
    path: Seq<char>,
    error: Seq<char>,
)
    ensures
        begun(content).phase == WritePhase::Staging,
        begun(content).content == content,
        begun(content).backup is None,
        after_staging(w, None).phase == WritePhase::Validating,
        after_staging(w, Some(error)).phase == WritePhase::Done,
        after_staging(w, Some(error)).report.last() == (CheckView {
            name: "write_staging"@,
            severity: Severity::Error,
            passed: false,
            message: "failed to write staging file: "@ + error,
        }),
        (forall|i: int|
            0 <= i < report.len() ==> (#[trigger] report[i]).passed || report[i].severity
                != Severity::Error) ==> {
            &&& after_validation(w, report, true).phase == WritePhase::BackingUp
            &&& after_validation(w, report, false).phase == WritePhase::Replacing
        },
        (exists|i: int|
            0 <= i < report.len() && !(#[trigger] report[i]).passed && report[i].severity
                == Severity::Error) ==> {
            &&& after_validation(w, report, true).phase == WritePhase::Done
            &&& after_validation(w, report, false).phase == WritePhase::Done
        },
        after_validation(w, report, true).report == report,
        after_validation(w, report, true).content == w.content,
        after_backup(w, Ok(path)).phase == WritePhase::Replacing,
        after_backup(w, Ok(path)).backup == Some(path),
        after_backup(w, Ok(path)).content == w.content,
        after_backup(w, Err(error)).phase == WritePhase::Done,
        after_backup(w, Err(error)).report.last() == (CheckView {
            name: "backup"@,
            severity: Severity::Error,
            passed: false,
            message: "failed to backup config: "@ + error,
        }),
        after_replacement(w, None).phase == WritePhase::Done,
        after_replacement(w, None).report == w.report,
        after_replacement(w, Some(error)).report.last() == (CheckView {
            name: "atomic_write"@,
            severity: Severity::Error,
            passed: false,
            message: "failed to write config: "@ + error,
        }),
        w.phase == WritePhase::Replacing ==> action_of(w) == (WriteActionView::Replace {
            through: Place::Temporary,
            to: Place::Config,
            content: w.content,
        }),
        w.phase == WritePhase::BackingUp ==> action_of(w) == (WriteActionView::Backup {
            from: Place::Config,
            to: Place::Backup,
        }),
        w.phase == WritePhase::Validating ==> action_of(w) == (WriteActionView::Validate {
            at: Place::Staging,
        }),
        w.phase == WritePhase::Done ==> action_of(w) == WriteActionView::Done,
        Place::Staging.spelled() == Some("yaml.staging"@),
        Place::Backup.spelled() == Some("toml.bak"@),
        Place::Temporary.spelled() == Some("yaml.tmp"@),
        Place::Config.spelled() is None,
{
    if exists|i: int|
        0 <= i < report.len() && !(#[trigger] report[i]).passed && report[i].severity
            == Severity::Error {
        let i = choose|i: int|
            0 <= i < report.len() && !(#[trigger] report[i]).passed && report[i].severity
                == Severity::Error;
        assert(failed(report[i], Severity::Error));
    }
}

/// What takes effect only at the next start is named exactly where it differs.
pub proof fn restarts_are_named(c: Config, n: Config)
    ensures
        ({
            let f = restart_fields(c, n);
            &&& f.contains("agent.id"@) <==> n.agent.id@ != c.agent.id@
            &&& f.contains("agent.workspace"@) <==> n.agent.workspace@ != c.agent.workspace@
            &&& f.contains("provider.name"@) <==> n.provider.name@ != c.provider.name@
            &&& f.contains("channels"@) <==> !crate::config::eq_channels_config(
                n.channels,
                c.channels,
            )
            &&& f.contains("memory.db_path"@) <==> n.memory.db_path@ != c.memory.db_path@
            &&& f.contains("memory.embedding"@) <==> !crate::config::eq_opt_memory_embedding_config(
                n.memory.embedding,
                c.memory.embedding,
            )
            &&& f.len() <= 6
        }),
{
    reveal_strlit("agent.id");
    reveal_strlit("agent.workspace");
    reveal_strlit("provider.name");
    reveal_strlit("channels");
    reveal_strlit("memory.db_path");
    reveal_strlit("memory.embedding");
    assert("agent.id"@.len() == 8 && "agent.workspace"@.len() == 15 && "provider.name"@.len() == 13
        && "channels"@.len() == 8 && "memory.db_path"@.len() == 14 && "memory.embedding"@.len()
        == 16);
    assert("agent.id"@[0] == 'a' && "channels"@[0] == 'c');
    let e = Seq::<Seq<char>>::empty();
    let d1 = n.agent.id@ != c.agent.id@;
    let d2 = n.agent.workspace@ != c.agent.workspace@;
    let d3 = n.provider.name@ != c.provider.name@;
    let d4 = !crate::config::eq_channels_config(n.channels, c.channels);
    let d5 = n.memory.db_path@ != c.memory.db_path@;
    let d6 = !crate::config::eq_opt_memory_embedding_config(n.memory.embedding, c.memory.embedding);
    let s1 = crate::config_watcher::with_field(e, d1, "agent.id"@);
    let s2 = crate::config_watcher::with_field(s1, d2, "agent.workspace"@);
    let s3 = crate::config_watcher::with_field(s2, d3, "provider.name"@);
    let s4 = crate::config_watcher::with_field(s3, d4, "channels"@);
    let s5 = crate::config_watcher::with_field(s4, d5, "memory.db_path"@);
    field_named(e, d1, "agent.id"@);
    field_named(s1, d2, "agent.workspace"@);
    field_named(s2, d3, "provider.name"@);
    field_named(s3, d4, "channels"@);
    field_named(s4, d5, "memory.db_path"@);
    field_named(s5, d6, "memory.embedding"@);
}

proof fn field_named(list: Seq<Seq<char>>, differs: bool, field: Seq<char>)
    ensures
        forall|x: Seq<char>| #[trigger]
            crate::config_watcher::with_field(list, differs, field).contains(x) <==> list.contains(
                x,
            ) || (differs && x == field),
{
    let all = crate::config_watcher::with_field(list, differs, field);
    assert forall|x: Seq<char>| #[trigger] all.contains(x) <==> list.contains(x) || (differs && x
        == field) by {
        if all.contains(x) {
            let i = choose|i: int| 0 <= i < all.len() && all[i] == x;
            if i < list.len() {
                assert(list[i] == x);
            }
        }
        if list.contains(x) {
            let i = choose|i: int| 0 <= i < list.len() && list[i] == x;
            assert(all[i] == x);
        }
        if differs {
            assert(all[list.len() as int] == field);
        }
    }
}

/// The sections that changed are named exactly where they did.
pub proof fn changes_are_named(c: Config, n: Config)
    ensures
        ({
            let f = changed_sections(c, n);
            &&& f.contains("users"@) <==> !crate::config::eq_user_config_list(n.users@, c.users@)
            &&& f.contains("agent.model"@) <==> n.agent.model@ != c.agent.model@
            &&& f.contains("memory.prompt_index"@)
                <==> !crate::config::eq_memory_prompt_index_config(
                n.memory.prompt_index,
                c.memory.prompt_index,
            )
            &&& f.contains("memory.retention"@) <==> !crate::config::eq_memory_retention_config(
                n.memory.retention,
                c.memory.retention,
            )
            &&& f.contains("prompt"@) <==> !eq_prompt_config(n.prompt, c.prompt)
            &&& f.contains("cron"@) <==> !crate::config::eq_cron_config_list(n.cron@, c.cron@)
            &&& f.len() <= 6
        }),
{
    reveal_strlit("users");
    reveal_strlit("agent.model");
    reveal_strlit("memory.prompt_index");
    reveal_strlit("memory.retention");
    reveal_strlit("prompt");
    reveal_strlit("cron");
    assert("users"@.len() == 5 && "agent.model"@.len() == 11 && "memory.prompt_index"@.len() == 19
        && "memory.retention"@.len() == 16 && "prompt"@.len() == 6 && "cron"@.len() == 4);
    let e = Seq::<Seq<char>>::empty();
    let d1 = !crate::config::eq_user_config_list(n.users@, c.users@);
    let d2 = n.agent.model@ != c.agent.model@;
    let d3 = !crate::config::eq_memory_prompt_index_config(
        n.memory.prompt_index,
        c.memory.prompt_index,
    );
    let d4 = !crate::config::eq_memory_retention_config(n.memory.retention, c.memory.retention);
    let d5 = !eq_prompt_config(n.prompt, c.prompt);
    let d6 = !crate::config::eq_cron_config_list(n.cron@, c.cron@);
    let s1 = crate::config_watcher::with_field(e, d1, "users"@);
    let s2 = crate::config_watcher::with_field(s1, d2, "agent.model"@);
    let s3 = crate::config_watcher::with_field(s2, d3, "memory.prompt_index"@);
    let s4 = crate::config_watcher::with_field(s3, d4, "memory.retention"@);
    let s5 = crate::config_watcher::with_field(s4, d5, "prompt"@);
    field_named(e, d1, "users"@);
    field_named(s1, d2, "agent.model"@);
    field_named(s2, d3, "memory.prompt_index"@);
    field_named(s3, d4, "memory.retention"@);
    field_named(s4, d5, "prompt"@);
    field_named(s5, d6, "cron"@);
}

proof fn errors_are_local(a: Seq<CheckView>, b: Seq<CheckView>, n: int)
    requires
        n <= a.len(),
        n <= b.len(),
        forall|i: int| 0 <= i < n ==> a[i] == b[i],
    ensures
        reload_errors(a, n) == reload_errors(b, n),
    decreases n,
{
    if n > 0 {
        errors_are_local(a, b, n - 1);
    }
}

/// A reload is barred by every error but those that the environment makes, and
/// each of them is told.
pub proof fn errors_bar_a_reload(checks: Seq<CheckView>, c: CheckView)
    ensures
        reload_errors(checks.push(c), (checks.len() + 1) as int) == (if !c.passed && c.severity
            == Severity::Error && c.name != "api_key_present"@ && c.name
            != "memory_embedding_api_key"@ {
            reload_errors(checks, checks.len() as int).push(c.name + ": "@ + c.message)
        } else {
            reload_errors(checks, checks.len() as int)
        }),
        reload_errors(checks, 0).len() == 0,
{
    errors_are_local(checks, checks.push(c), checks.len() as int);
}

/// The configuration tools are for the owner and those of full trust.
pub proof fn the_trusted_configure(trust: TrustLevel)
    ensures
        may_configure(trust) <==> trust == TrustLevel::Owner || trust == TrustLevel::Full,
{
}

proof fn kept_entries_change_nothing(
    name: Seq<char>,
    b: Seq<UserConfig>,
    a: Seq<UserConfig>,
    k: int,
)
    requires
        0 <= k,
        forall|i: int|
            #![trigger a[i]]
            0 <= i < b.len() && i < a.len() ==> keeps_entry(b[i], a[i]),
    ensures
        entry_change(name, b, a, k) is None,
    decreases a.len() - k,
{
    if k < b.len() && k < a.len() {
        assert(keeps_entry(b[k], a[k]));
        assert(user_change(name, b[k], a[k]) is None);
        kept_entries_change_nothing(name, b, a, k + 1);
    }
}

proof fn kept_tasks_change_nothing(c: Seq<CronConfig>, p: Seq<CronConfig>, i: int)
    requires
        0 <= i <= p.len(),
        forall|j: int|
            0 <= j < p.len() ==> eq_opt_sandbox_overrides(
                (#[trigger] p[j]).sandbox,
                cron_sandbox(c, p[j].name@),
            ),
    ensures
        cron_change(c, p, i) is None,
    decreases p.len() - i,
{
    if i < p.len() {
        assert(eq_opt_sandbox_overrides(p[i].sandbox, cron_sandbox(c, p[i].name@)));
        kept_tasks_change_nothing(c, p, i + 1);
    }
}

/// A change that keeps every user's entries, the sandbox and the prompt files
/// is open to anyone who may configure: whatever else it changes, it is not
/// refused.
pub proof fn harmless_changes_pass(current: Config, proposed: Config)
    requires
        forall|name: Seq<char>| #[trigger]
            entries_of(proposed.users@, name).len() == entries_of(current.users@, name).len(),
        forall|name: Seq<char>, k: int|
            #![trigger entries_of(proposed.users@, name)[k]]
            0 <= k < entries_of(proposed.users@, name).len() ==> {
                let c = entries_of(current.users@, name)[k];
                let p = entries_of(proposed.users@, name)[k];
                &&& p.trust == c.trust
                &&& views(p.match_patterns@) == views(c.match_patterns@)
                &&& eq_opt_sandbox_overrides(p.sandbox, c.sandbox)
            },
        proposed.sandbox.enabled == current.sandbox.enabled,
        proposed.sandbox.allow_network == current.sandbox.allow_network,
        proposed.sandbox.memory@ == current.sandbox.memory@,
        proposed.sandbox.pids_limit == current.sandbox.pids_limit,
        forall|i: int|
            0 <= i < proposed.cron@.len() ==> eq_opt_sandbox_overrides(
                (#[trigger] proposed.cron@[i]).sandbox,
                cron_sandbox(current.cron@, proposed.cron@[i].name@),
            ),
        eq_prompt_config(proposed.prompt, current.prompt),
    ensures
        keeps_security(current, proposed),
{
    let b = current.users@;
    let a = proposed.users@;
    assert forall|name: Seq<char>| !appears(b, a, name) && !appears(a, b, name) by {
        assert(entries_of(a, name).len() == entries_of(b, name).len());
    }
    assert forall|name: Seq<char>| #[trigger] change_of(b, a, name) is None by {
        assert(entries_of(a, name).len() == entries_of(b, name).len());
        kept_entries_change_nothing(name, entries_of(b, name), entries_of(a, name), 0);
    }
    assert(!users_differ(b, a));
    kept_tasks_change_nothing(current.cron@, proposed.cron@, 0);
}

/// The entries of a name are those that bear it, in order.
pub proof fn entries_bear_the_name(
    a: Seq<UserConfig>,
    b: Seq<UserConfig>,
    u: UserConfig,
    name: Seq<char>,
)
    ensures
        entries_of(a + b, name) == entries_of(a, name) + entries_of(b, name),
        entries_of(seq![u], name) == (if u.name@ == name {
            seq![u]
        } else {
            Seq::empty()
        }),
    decreases a.len(),
{
    assert(seq![u].skip(1) =~= Seq::empty());
    assert(entries_of(seq![u].skip(1), name) =~= Seq::empty());
    assert(seq![u] + Seq::<UserConfig>::empty() =~= seq![u]);
    if a.len() == 0 {
        assert(a + b =~= b);
        assert(entries_of(a, name) + entries_of(b, name) =~= entries_of(b, name));
    } else {
        entries_bear_the_name(a.skip(1), b, u, name);
        assert((a + b).skip(1) =~= a.skip(1) + b);
        assert(entries_of(a + b, name) =~= entries_of(a, name) + entries_of(b, name));
    }
}

/// Nobody but the owner changes what a user is trusted with, how they are
/// recognised or their sandbox.
pub proof fn entries_are_guarded(name: Seq<char>, c: UserConfig, p: UserConfig)
    ensures
        user_change(name, c, p) is None <==> {
            &&& p.trust == c.trust
            &&& views(p.match_patterns@) == views(c.match_patterns@)
            &&& eq_opt_sandbox_overrides(p.sandbox, c.sandbox)
        },
        p.trust != c.trust ==> user_change(name, c, p) == Some(
            "cannot change trust for user '"@ + name + "' from "@ + c.trust.name() + " to "@
                + p.trust.name() + " — only Owner can modify trust levels"@,
        ),
{
}

/// The sandbox settings that a task keeps are those of the last task of its
/// name.
pub proof fn last_task_sets_the_sandbox(tasks: Seq<CronConfig>, t: CronConfig, name: Seq<char>)
    ensures
        t.name@ == name ==> cron_sandbox(tasks.push(t), name) == t.sandbox,
        t.name@ != name ==> cron_sandbox(tasks.push(t), name) == cron_sandbox(tasks, name),
        cron_sandbox(Seq::empty(), name) is None,
{
    assert(tasks.push(t).drop_last() =~= tasks);
}

/// Nobody but the owner changes a setting of the sandbox.
pub proof fn the_sandbox_is_guarded(c: SandboxConfig, s: SandboxConfig)
    ensures
        crate::config_tool::sandbox_change(c, s) is None <==> {
            &&& s.enabled == c.enabled
            &&& s.allow_network == c.allow_network
            &&& s.memory@ == c.memory@
            &&& s.pids_limit == c.pids_limit
        },
{
}

/// A line of a report has the mark of its outcome and the message; only what
/// failed is marked as failed.
pub proof fn outcomes_are_marked(c: CheckView)
    ensures
        result_line(c) == icon(c) + " "@ + c.message,
        c.severity == Severity::Info ==> icon(c) == "·"@,
        c.severity != Severity::Info && c.passed ==> icon(c) == "✓"@,
        c.severity == Severity::Warning && !c.passed ==> icon(c) == "⚠"@,
        c.severity == Severity::Error && !c.passed ==> icon(c) == "✗"@,
{
}

/// What failed is counted once for each, and only at its severity.
pub proof fn failures_add_up(a: Seq<CheckView>, b: Seq<CheckView>, c: CheckView, s: Severity)
    ensures
        failures(a + b, s) == failures(a, s) + failures(b, s),
        failures(seq![c], s) == (if c.severity == s && !c.passed {
            1nat
        } else {
            0nat
        }),
    decreases b.len(),
{
    assert(seq![c].drop_last() =~= Seq::empty());
    assert(failures(seq![c].drop_last(), s) == 0);
    if b.len() == 0 {
        assert(a + b =~= a);
    } else {
        failures_add_up(a, b.drop_last(), c, s);
        assert((a + b).drop_last() =~= a + b.drop_last());
    }
}

/// A summary has a line for each outcome, in order, and a last one that counts
/// errors and warnings, or says that there are none.
pub proof fn summaries_have_every_outcome(checks: Seq<CheckView>, i: int)
    requires
        0 <= i < checks.len(),
    ensures
        summary_lines(checks).len() == checks.len() + 1,
        summary_lines(checks)[i] == result_line(checks[i]),
        failures(checks, Severity::Error) == 0 && failures(checks, Severity::Warning) == 0
            ==> summary_lines(checks).last() == "\nall checks passed"@,
        failures(checks, Severity::Error) > 0 || failures(checks, Severity::Warning) > 0
            ==> summary_lines(checks).last() == "\n"@ + decimal(failures(checks, Severity::Error))
            + " error(s), "@ + decimal(failures(checks, Severity::Warning)) + " warning(s)"@,
        summary(checks) == joined(summary_lines(checks), "\n"@),
{
}

proof fn image_models_are_local(a: Seq<CandidateModel>, b: Seq<CandidateModel>, n: int)
    requires
        n <= a.len(),
        n <= b.len(),
        forall|i: int| 0 <= i < n ==> a[i] == b[i],
    ensures
        image_models(a, n) == image_models(b, n),
    decreases n,
{
    if n > 0 {
        image_models_are_local(a, b, n - 1);
    }
}

/// The models that make images are those that say so, in order.
pub proof fn image_models_say_so(models: Seq<CandidateModel>, m: CandidateModel)
    ensures
        image_models(models.push(m), (models.len() + 1) as int) == (if m.image_output {
            image_models(models, models.len() as int).push(m.id@)
        } else {
            image_models(models, models.len() as int)
        }),
        image_models(models, 0).len() == 0,
{
    image_models_are_local(models, models.push(m), models.len() as int);
}

/// An image is made by the model that is asked for, else by the session's own
/// where it can, else by the only one that can; where none or several can, it
/// is not made.
pub proof fn images_have_a_model(
    asked: Seq<char>,
    own: Seq<char>,
    images: Seq<Seq<char>>,
    able: bool,
)
    ensures
        target_model(Some(asked), Some(own), able, images) == Ok::<Seq<char>, Seq<char>>(asked),
        target_model(Some(asked), None, able, images) == Ok::<Seq<char>, Seq<char>>(asked),
        target_model(None, Some(own), true, images) == Ok::<Seq<char>, Seq<char>>(own),
        images.len() == 1 ==> target_model(None, Some(own), false, images) == Ok::<
            Seq<char>,
            Seq<char>,
        >(images[0]) && target_model(None, None, able, images) == Ok::<Seq<char>, Seq<char>>(
            images[0],
        ),
        images.len() == 0 ==> target_model(None, None, able, images) == Err::<
            Seq<char>,
            Seq<char>,
        >("no configured models support image output"@),
        images.len() > 1 ==> target_model(None, Some(own), false, images) == Err::<
            Seq<char>,
            Seq<char>,
        >("multiple image-capable models are configured; pass the 'model' parameter explicitly"@),
{
}

/// An argument is taken without the white space around it, and not at all where
/// it is blank.
pub proof fn arguments_are_trimmed(s: Seq<char>)
    ensures
        usable(None) is None,
        trimmed(s).len() == 0 ==> usable(Some(s)) is None,
        trimmed(s).len() > 0 ==> usable(Some(s)) == Some(trimmed(s)),
{
}

proof fn items_are_local(a: Seq<Option<Seq<char>>>, b: Seq<Option<Seq<char>>>, n: int)
    requires
        n <= a.len(),
        n <= b.len(),
        forall|i: int| 0 <= i < n ==> a[i] == b[i],
    ensures
        usable_items(a, n) == usable_items(b, n),
    decreases n,
{
    if n > 0 {
        items_are_local(a, b, n - 1);
    }
}

/// The items of a list are taken in order, those that are texts and not blank.
pub proof fn items_are_taken_in_order(items: Seq<Option<Seq<char>>>, s: Seq<char>)
    ensures
        usable_items(items.push(Some(s)), (items.len() + 1) as int) == (if trimmed(s).len() > 0 {
            usable_items(items, items.len() as int).push(trimmed(s))
        } else {
            usable_items(items, items.len() as int)
        }),
        usable_items(items.push(None), (items.len() + 1) as int) == usable_items(
            items,
            items.len() as int,
        ),
        usable_items(items, 0).len() == 0,
{
    items_are_local(items, items.push(Some(s)), items.len() as int);
    items_are_local(items, items.push(None), items.len() as int);
}

/// What is asked for of an image is what the arguments say, and what is usual
/// where they say nothing: a place by the kind of the session, and a plain
/// name.
pub proof fn images_are_as_asked(
    prompt: Seq<char>,
    a: ImageArgumentsView,
    kind: KindView,
    run: u128,
)
    ensures
        requested_image(prompt, a, kind).prompt == prompt,
        requested_image(prompt, a, kind).model == usable(a.model),
        a.output_dir is Some && trimmed(a.output_dir->0).len() > 0 ==> requested_image(
            prompt,
            a,
            kind,
        ).output_dir == trimmed(a.output_dir->0),
        a.output_dir is None ==> requested_image(prompt, a, KindView::Main).output_dir
            == "generated/images"@,
        a.output_dir is None ==> requested_image(prompt, a, KindView::Subagent(run)).output_dir
            == "generated/subagents/"@ + hyphenated(run),
        a.file_stem is None ==> requested_image(prompt, a, kind).file_stem == "image"@,
        a.file_stem is Some && trimmed(a.file_stem->0).len() > 0 ==> requested_image(
            prompt,
            a,
            kind,
        ).file_stem == safe_stem(trimmed(a.file_stem->0)),
        a.reference_paths is None ==> requested_image(prompt, a, kind).reference_paths.len() == 0,
        a.reference_paths matches Some(items) ==> requested_image(prompt, a, kind).reference_paths
            == usable_items(items, items.len() as int),
{
}

/// A stem that is safe already is kept, up to its longest.
pub proof fn safe_stems_are_kept(s: Seq<char>)
    requires
        s.len() > 0,
        s[0] != '-',
        s.last() != '-',
        forall|i: int|
            0 <= i < s.len() ==> ('a' <= #[trigger] s[i] <= 'z' || 'A' <= s[i] <= 'Z' || '0' <= s[i]
                <= '9' || s[i] == '-' || s[i] == '_'),
    ensures
        s.len() <= 48 ==> safe_stem(s) == s,
        s.len() > 48 ==> safe_stem(s) == s.take(48),
{
    let all = crate::image_tools::safe_chars(s);
    assert forall|i: int| 0 <= i < s.len() implies all[i] == s[i] by {
        assert('a' <= s[i] <= 'z' || 'A' <= s[i] <= 'Z' || '0' <= s[i] <= '9' || s[i] == '-' || s[i]
            == '_');
    }
    assert(all =~= s);
}

/// A model makes images for a session exactly where it is known, may serve the
/// session, makes images and is configured.
pub proof fn image_models_must_fit(
    model: Seq<char>,
    c: ImageCapabilities,
    kind: KindView,
    configured: bool,
)
    ensures
        model_fault(model, None, kind, configured) == Some("unknown image model: "@ + model),
        model_fault(model, Some(c), kind, configured) is None <==> (c.subagent_only ==> kind
            is Subagent) && c.image_output && configured,
        c.subagent_only && !(kind is Subagent) ==> model_fault(model, Some(c), kind, configured)
            == Some("model '"@ + model + "' is subagent-only; use it from a subagent profile"@),
{
}

/// The configuration is the file that is named, else the first there is: in the
/// current directory, in that for configurations, at home.
pub proof fn configuration_is_found(named: Seq<char>, x: CandidatePath, h: CandidatePath)
    ensures
        forall|local: bool| #[trigger]
            config_path(Some(named), local, Some(x), Some(h)) == named,
        config_path(None, true, Some(x), Some(h)) == "coop.toml"@,
        x.exists ==> config_path(None, false, Some(x), Some(h)) == x.path@,
        !x.exists && h.exists ==> config_path(None, false, Some(x), Some(h)) == h.path@,
        !x.exists && !h.exists ==> config_path(None, false, Some(x), Some(h)) == "coop.toml"@,
        config_path(None, false, None, None) == "coop.toml"@,
{
}

/// A prompt file without a description is described by its path, without the
/// ending of its kind.
pub proof fn prompt_files_are_described(e: PromptFileEntry, c: PromptFileConfig, stem: Seq<char>)
    requires
        crate::config::core_of(e, c),
    ensures
        c.path@ == e.path@,
        c.min_trust == e.trust,
        e.description matches Some(d) ==> c.description@ == d@,
        e.description is None && e.path@ == stem + ".md"@ ==> c.description@ == stem,
        e.cache == CacheHintConfig::Stable ==> c.cache == CacheHint::Stable,
        e.cache == CacheHintConfig::Session ==> c.cache == CacheHint::Session,
        e.cache == CacheHintConfig::Volatile ==> c.cache == CacheHint::Volatile,
{
    ends_come_off(stem, ".md"@);
}

/// A request to write is carried out for those of full trust and the owner who
/// say what to write; others are refused, and without content it is none.
pub proof fn write_requests_need_trust(r: WriteRequest, content: Seq<char>)
    ensures
        is_write_request(r, Some(content), TrustLevel::Full) ==> (r matches WriteRequest::Write {
            content: c,
        } && c@ == content),
        is_write_request(r, Some(content), TrustLevel::Owner) ==> (r matches WriteRequest::Write {
            content: c,
        } && c@ == content),
        is_write_request(r, None, TrustLevel::Full) ==> (r matches WriteRequest::Malformed { error }
            && error@ == "missing 'content' parameter"@),
        is_write_request(r, Some(content), TrustLevel::Inner) || is_write_request(
            r,
            Some(content),
            TrustLevel::Familiar,
        ) || is_write_request(r, Some(content), TrustLevel::Public) ==> (r
            matches WriteRequest::Refused { output } && output@.is_error && output@.content
            == "config_write requires Full trust level"@),
{
}

/// What is told of a write that was not carried out, and of one that was.
pub proof fn writes_are_answered(detail: Seq<char>, path: Seq<char>)
    ensures
        not_written(detail) == (OutputView {
            content: "Config validation failed. File was NOT modified.\n\n"@ + detail,
            is_error: true,
        }),
        rejected(detail) == (OutputView {
            content: "Config write rejected: "@ + detail
                + "\n\nOnly users with Owner trust can modify trust levels, sandbox settings, or security-sensitive configuration."@,
            is_error: true,
        }),
        backup_note(Some(path)) == "Backup: "@ + path,
        backup_note(None) == "No backup (new file)"@,
{
}

/// A refused change is told why: of the users before the sandbox, of the
/// sandbox before the prompt files; that users are added before that they are
/// removed, and that before what else changes of them.
pub proof fn refusals_say_why(
    current: Config,
    proposed: Config,
    reason: Seq<char>,
    name: Seq<char>,
)
    requires
        escalation_reason(current, proposed, reason),
    ensures
        appears(current.users@, proposed.users@, name) ==> exists|n: Seq<char>| #[trigger]
            appears(current.users@, proposed.users@, n) && reason == "cannot add user '"@ + n
                + "' — only Owner can add users"@,
        !some_appears(current.users@, proposed.users@) && appears(
            proposed.users@,
            current.users@,
            name,
        ) ==> exists|n: Seq<char>| #[trigger]
            appears(proposed.users@, current.users@, n) && reason == "cannot remove user '"@ + n
                + "' — only Owner can remove users"@,
        !users_differ(current.users@, proposed.users@) && sandbox_reason(current, proposed) is Some
            ==> reason == sandbox_reason(current, proposed)->0,
        !users_differ(current.users@, proposed.users@) && sandbox_reason(current, proposed) is None
            ==> reason
            == "cannot change prompt file configuration — only Owner can modify which files are included in the system prompt"@,
{
}

/// Whether somebody is added is a matter of how many entries their name has.
pub proof fn more_entries_add_users(b: Seq<UserConfig>, a: Seq<UserConfig>, name: Seq<char>)
    ensures
        appears(b, a, name) <==> entries_of(a, name).len() > entries_of(b, name).len(),
        appears(b, a, name) ==> some_appears(b, a),
        users_differ(b, a) <==> some_appears(b, a) || some_appears(a, b) || exists|n: Seq<char>|
            #[trigger] change_of(b, a, n) is Some,
{
}

/// Images are made for the owner and those of full and inner trust who say what
/// to make; others are refused.
pub proof fn image_calls_need_trust(
    r: ImageCall,
    a: ImageArgumentsView,
    trust: TrustLevel,
    kind: KindView,
)
    requires
        is_image_call(r, a, trust, kind),
    ensures
        trust == TrustLevel::Familiar || trust == TrustLevel::Public ==> (r
            matches ImageCall::Refused { output } && output@.is_error && output@.content
            == "image_generate tool requires Full or Inner trust level"@),
        trust == TrustLevel::Owner || trust == TrustLevel::Full || trust == TrustLevel::Inner ==> {
            &&& a.prompt is None || trimmed(a.prompt->0).len() == 0 ==> (r
                matches ImageCall::Malformed { error } && error@ == "missing 'prompt' parameter"@)
            &&& a.prompt is Some && trimmed(a.prompt->0).len() > 0 ==> (r
                matches ImageCall::Generate { request } && request@.prompt == trimmed(a.prompt->0)
                && request@ == requested_image(trimmed(a.prompt->0), a, kind))
        },
{
}

/// The arguments of an image are read each from its own member.
pub proof fn image_arguments_have_names(text: Seq<char>)
    ensures
        image_arguments(text).prompt == json_string(text, "prompt"@),
        image_arguments(text).model == json_string(text, "model"@),
        image_arguments(text).output_dir == json_string(text, "output_dir"@),
        image_arguments(text).file_stem == json_string(text, "file_stem"@),
        image_arguments(text).reference_paths == json_list(text, "reference_paths"@),
{
}

/// The severities are written in small letters.
pub proof fn severities_have_names()
    ensures
        Severity::Error.name() == "error"@,
        Severity::Warning.name() == "warning"@,
        Severity::Info.name() == "info"@,
{
}

/// The usual prompt files: the agent's character, its identity and its tools
/// for everyone; instructions, what is known of a user and their tools for each
/// user. What concerns tools and instructions is for full trust.
pub proof fn usual_files_are_these(f: Seq<PromptFileEntry>)
    ensures
        usual_shared_files(f) ==> {
            &&& f.len() == 3
            &&& f[0].path@ == "SOUL.md"@ && f[1].path@ == "IDENTITY.md"@ && f[2].path@
                == "TOOLS.md"@
            &&& f[0].trust == TrustLevel::Familiar && f[1].trust == TrustLevel::Familiar
                && f[2].trust == TrustLevel::Full
            &&& f[0].cache == CacheHintConfig::Stable && f[1].cache == CacheHintConfig::Session
                && f[2].cache == CacheHintConfig::Session
        },
        usual_user_files(f) ==> {
            &&& f.len() == 3
            &&& f[0].path@ == "AGENTS.md"@ && f[1].path@ == "USER.md"@ && f[2].path@ == "TOOLS.md"@
            &&& f[0].trust == TrustLevel::Full && f[1].trust == TrustLevel::Inner && f[2].trust
                == TrustLevel::Full
            &&& f[0].cache == CacheHintConfig::Stable && f[1].cache == CacheHintConfig::Session
                && f[2].cache == CacheHintConfig::Session
        },
{
}

/// A change of the sandbox is refused by the first setting that it changes.
pub proof fn sandbox_refusals_say_why(c: SandboxConfig, s: SandboxConfig)
    ensures
        c.enabled && !s.enabled ==> crate::config_tool::sandbox_change(c, s) == Some(
            "cannot change sandbox.enabled from "@ + "true"@ + " to "@ + "false"@
                + " — only Owner can modify sandbox settings"@,
        ),
        !c.enabled && s.enabled ==> crate::config_tool::sandbox_change(c, s) == Some(
            "cannot change sandbox.enabled from "@ + "false"@ + " to "@ + "true"@
                + " — only Owner can modify sandbox settings"@,
        ),
        c.enabled == s.enabled && c.allow_network != s.allow_network
            ==> crate::config_tool::sandbox_change(c, s) == Some(
            "cannot change sandbox.allow_network — only Owner can modify sandbox settings"@,
        ),
        c.enabled == s.enabled && c.allow_network == s.allow_network && c.memory@ != s.memory@
            ==> crate::config_tool::sandbox_change(c, s) == Some(
            "cannot change sandbox.memory — only Owner can modify sandbox settings"@,
        ),
        c.enabled == s.enabled && c.allow_network == s.allow_network && c.memory@ == s.memory@
            && c.pids_limit != s.pids_limit ==> crate::config_tool::sandbox_change(c, s) == Some(
            "cannot change sandbox.pids_limit — only Owner can modify sandbox settings"@,
        ),
{
}

} // verus!
