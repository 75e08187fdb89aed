//! What compaction keeps: between its summaries and the context behind them no
//! message is lost, and no file that the conversation touched is forgotten.
use vstd::prelude::*;

use crate::compact_session::{
    budget_of, due, effective_tokens, message_tokens, request_budget, session_context, shrunk,
    threshold_of, tokens_of,
};
use crate::compaction::{
    add_all_new, call_tokens, capped_size, command_ops, commands_ops, content_ops, cut_point,
    file_lines, kept_parts, last_actions, message_ops, part_ops, parts_size, past_users,
    provider_context, reach_from, removed_paths, reply_parts, request_ops, size_from, stripped_from,
    stripped_one, summarized, touch_all, FileAction, FileView, StateView,
};
use crate::gateway::GatewayView;
use crate::json::json_string;
use crate::message::{
    answered, answers, has_requests, is_result_of, paired, ContentView, MessageView, Role,
};
use crate::session::KeyView;
use crate::text::{byte_len, trimmed, words};
use crate::usage::Usage;

verus! {

/// A compaction summarizes up to its cut, and begins where the previous one
/// ended: every message before the cut that no previous summary covers is
/// among the messages summarized, and where the cut moved forward no other.
/// A cut that did not move forward takes the last few messages before it.
pub proof fn compactions_join(cut: int, previous: Option<StateView>, i: int)
    requires
        0 <= cut,
    ensures
        ({
            let (from, to) = summarized(cut, previous);
            &&& 0 <= from <= to
            &&& to == cut
            &&& previous is None && 0 <= i < cut ==> from <= i < to
            &&& previous is Some && cut > 0 ==> from < to
            &&& previous matches Some(p) ==> match p.messages_at_compaction {
                None => 0 <= i < cut ==> from <= i < to,
                Some(o) => {
                    &&& o <= i < cut ==> from <= i < to
                    &&& o < cut && from <= i < to ==> o <= i
                    &&& o >= cut >= 5 ==> from == cut - 5
                    &&& o >= cut && cut < 5 ==> from == 0
                },
            }
        }),
{
}

proof fn users_lie_between(m: Seq<MessageView>, i: int)
    requires
        0 <= i <= m.len(),
    ensures
        i <= past_users(m, i) <= m.len(),
        past_users(m, i) < m.len() ==> m[past_users(m, i)].role == Role::Assistant,
        forall|j: int| i <= j < past_users(m, i) ==> (#[trigger] m[j]).role == Role::User,
    decreases m.len() - i,
{
    if i < m.len() && m[i].role == Role::User {
        users_lie_between(m, i + 1);
    }
}

proof fn reach_is_last(m: Seq<MessageView>, i: int, target: int)
    requires
        i < m.len(),
    ensures
        match reach_from(m, i, target) {
            Some(k) => 0 <= k <= i && size_from(m, k) >= target && forall|j: int|
                k < j <= i ==> #[trigger] size_from(m, j) < target,
            None => forall|j: int| 0 <= j <= i ==> #[trigger] size_from(m, j) < target,
        },
    decreases i + 1,
{
    if i >= 0 && size_from(m, i) < target {
        reach_is_last(m, i - 1, target);
    }
}

/// Everything is summarized where less than the target is behind the cut: the
/// messages kept are those that reach the target, from as late as possible, but
/// for users' messages at the front. Where all messages together stay below the
/// target, all are kept.
pub proof fn cut_keeps_the_target(m: Seq<MessageView>, target: int) -> (k: int)
    requires
        target > 0,
    ensures
        ({
            let c = cut_point(m, target);
            &&& 0 <= c <= m.len()
            &&& 0 <= k <= c
            &&& size_from(m, 0) < target && (forall|j: int|
                0 <= j < m.len() ==> #[trigger] size_from(m, j) < target) ==> c == 0
            &&& (exists|j: int| 0 <= j < m.len() && #[trigger] size_from(m, j) >= target) ==> {
                &&& k < m.len()
                &&& size_from(m, k) >= target
                &&& forall|j: int| k < j < m.len() ==> #[trigger] size_from(m, j) < target
                &&& forall|j: int| k <= j < c ==> (#[trigger] m[j]).role == Role::User
                &&& c < m.len() ==> m[c].role == Role::Assistant
            }
        }),
{
    reach_is_last(m, m.len() - 1, target);
    match reach_from(m, m.len() - 1, target) {
        Some(i) => {
            users_lie_between(m, i);
            i
        },
        None => 0,
    }
}

/// Behind the summary the context holds the messages from the cut on, each in
/// its place, but for users' messages at the front, which belong to what is
/// summarized.
pub proof fn context_keeps_the_rest(m: Seq<MessageView>, s: StateView, cut: int, i: int)
    requires
        0 <= cut <= m.len(),
        cut <= i < m.len(),
        exists|j: int| cut <= j <= i && (#[trigger] m[j]).role == Role::Assistant,
    ensures
        ({
            let c = provider_context(m, Some(s), cut);
            let p = c.len() - (m.len() - i);
            &&& c[0] == (MessageView {
                role: Role::User,
                content: seq![ContentView::Text { text: s.summary }],
            })
            &&& 1 <= p < c.len()
            &&& c[p] == m[i]
            &&& c.len() <= 1 + m.len() - cut
        }),
        provider_context(m, None, cut) == m,
{
    users_lie_between(m, cut);
    let j = choose|j: int| cut <= j <= i && (#[trigger] m[j]).role == Role::Assistant;
    assert(past_users(m, cut) <= j);
}

/// A summary and the context behind it cover the whole history: each message
/// was covered by the previous compaction, or is among the messages summarized,
/// or stands in the context, at its distance from the cut.
pub proof fn every_message_is_summarized_or_kept(
    m: Seq<MessageView>,
    target: int,
    previous: Option<StateView>,
    s: StateView,
    i: int,
)
    requires
        target > 0,
        0 <= i < m.len(),
        cut_point(m, target) > 0,
    ensures
        ({
            let cut = cut_point(m, target);
            let (from, to) = summarized(cut, previous);
            let c = provider_context(m, Some(s), cut);
            if i >= cut {
                c.len() == 1 + m.len() - cut && c[1 + i - cut] == m[i]
            } else {
                from <= i < to || (previous is Some && previous->0.messages_at_compaction is Some
                    && i < previous->0.messages_at_compaction->0)
            }
        }),
{
    let k = cut_keeps_the_target(m, target);
    let cut = cut_point(m, target);
    compactions_join(cut, previous, i);
    if i >= cut {
        if !(exists|j: int| 0 <= j < m.len() && #[trigger] size_from(m, j) >= target) {
            assert(size_from(m, 0) < target);
        }
        assert(m[cut].role == Role::Assistant);
        users_lie_between(m, cut);
        assert(past_users(m, cut) == cut);
    }
}

/// Sizes add up over parts: text and thinking count by their bytes, tool
/// arguments up to half a thousand, results up to two thousand, and an image
/// a thousand.
pub proof fn part_sizes_add_up(a: Seq<ContentView>, b: Seq<ContentView>, x: ContentView)
    ensures
        parts_size(a + b) == parts_size(a) + parts_size(b),
        parts_size(seq![x]) == (match x {
            ContentView::Text { text } => byte_len(text) as int,
            ContentView::Thinking { thinking, .. } => byte_len(thinking) as int,
            ContentView::Image { .. } => 1000,
            ContentView::ToolRequest { arguments, .. } => if byte_len(arguments) <= 500 {
                byte_len(arguments) as int
            } else {
                500
            },
            ContentView::ToolResult { output, .. } => if byte_len(output) <= 2000 {
                byte_len(output) as int
            } else {
                2000
            },
        }),
    decreases b.len(),
{
    assert(seq![x].drop_last() =~= Seq::empty());
    assert(parts_size(seq![x].drop_last()) == 0);
    if b.len() == 0 {
        assert(a + b =~= a);
    } else {
        part_sizes_add_up(a, b.drop_last(), x);
        assert((a + b).drop_last() =~= a + b.drop_last());
    }
}

proof fn size_of_rest(a: Seq<MessageView>, b: Seq<MessageView>, i: int)
    requires
        0 <= i <= b.len(),
    ensures
        size_from(a + b, (a.len() + i) as int) == size_from(b, i),
    decreases b.len() - i,
{
    if i < b.len() {
        size_of_rest(a, b, i + 1);
        assert((a + b)[a.len() + i] == b[i]);
    }
}

proof fn sizes_split(a: Seq<MessageView>, b: Seq<MessageView>, i: int)
    requires
        0 <= i <= a.len(),
    ensures
        size_from(a + b, i) == size_from(a, i) + size_from(b, 0),
    decreases a.len() - i,
{
    if i < a.len() {
        sizes_split(a, b, i + 1);
        assert((a + b)[i] == a[i]);
    } else {
        size_of_rest(a, b, 0);
    }
}

/// Sizes add up over messages: what two lists of messages come to together is
/// the sum of both, and a message comes to the sum of its parts.
pub proof fn message_sizes_add_up(a: Seq<MessageView>, b: Seq<MessageView>, x: MessageView)
    ensures
        size_from(a + b, 0) == size_from(a, 0) + size_from(b, 0),
        size_from(a + b, a.len() as int) == size_from(b, 0),
        size_from(seq![x], 0) == parts_size(x.content),
{
    sizes_split(a, b, 0);
    size_of_rest(a, b, 0);
    assert(size_from(seq![x], 1) == 0);
}

/// The files of messages are those of their tool calls, in order.
pub proof fn files_are_listed_in_order(
    a: Seq<MessageView>,
    b: Seq<MessageView>,
    role: Role,
    c: Seq<ContentView>,
    d: Seq<ContentView>,
    x: ContentView,
)
    ensures
        message_ops(a + b) == message_ops(a) + message_ops(b),
        message_ops(seq![MessageView { role, content: c + d }]) == message_ops(
            seq![MessageView { role, content: c }],
        ) + message_ops(seq![MessageView { role, content: d }]),
        message_ops(seq![MessageView { role, content: seq![x] }]) == (match x {
            ContentView::ToolRequest { name, arguments, .. } => request_ops(name, arguments),
            _ => Seq::empty(),
        }),
    decreases b.len(),
{
    content_ops_split(c, d);
    one_message_ops(MessageView { role, content: c + d });
    one_message_ops(MessageView { role, content: c });
    one_message_ops(MessageView { role, content: d });
    one_message_ops(MessageView { role, content: seq![x] });
    assert(seq![x].drop_last() =~= Seq::empty());
    assert(content_ops(seq![x].drop_last()) =~= Seq::empty());
    assert(content_ops(seq![x]) =~= part_ops(x));
    if b.len() == 0 {
        assert(a + b =~= a);
        assert(message_ops(a) + message_ops(b) =~= message_ops(a));
    } else {
        files_are_listed_in_order(a, b.drop_last(), role, c, d, x);
        assert((a + b).drop_last() =~= a + b.drop_last());
        assert(message_ops(a + b) =~= message_ops(a) + message_ops(b));
    }
}

proof fn one_message_ops(m: MessageView)
    ensures
        message_ops(seq![m]) == content_ops(m.content),
{
    assert(seq![m].drop_last() =~= Seq::empty());
    assert(message_ops(seq![m].drop_last()) =~= Seq::empty());
    assert(message_ops(seq![m]) =~= content_ops(m.content));
}

proof fn content_ops_split(a: Seq<ContentView>, b: Seq<ContentView>)
    ensures
        content_ops(a + b) == content_ops(a) + content_ops(b),
    decreases b.len(),
{
    if b.len() == 0 {
        assert(a + b =~= a);
        assert(content_ops(a) + content_ops(b) =~= content_ops(a));
    } else {
        content_ops_split(a, b.drop_last());
        assert((a + b).drop_last() =~= a + b.drop_last());
        assert(content_ops(a + b) =~= content_ops(a) + content_ops(b));
    }
}

/// Reading, writing and editing a file touch the file at the path that they
/// are given, and other tools but the shell touch none.
pub proof fn file_tools_touch_their_path(name: Seq<char>, arguments: Seq<char>, path: Seq<char>)
    ensures
        json_string(arguments, "path"@) == Some(path) ==> {
            &&& request_ops("read_file"@, arguments) == seq![
                FileView { path, action: FileAction::Read },
            ]
            &&& request_ops("write_file"@, arguments) == seq![
                FileView { path, action: FileAction::Created },
            ]
            &&& request_ops("edit_file"@, arguments) == seq![
                FileView { path, action: FileAction::Modified },
            ]
        },
        name != "bash"@ && json_string(arguments, "path"@) is None ==> request_ops(
            name,
            arguments,
        ).len() == 0,
        name != "bash"@ && name != "read_file"@ && name != "write_file"@ && name != "edit_file"@
            ==> request_ops(name, arguments).len() == 0,
{
    reveal_strlit("read_file");
    reveal_strlit("write_file");
    reveal_strlit("edit_file");
    reveal_strlit("bash");
    assert("read_file"@.len() == 9);
    assert("write_file"@.len() == 10);
    assert("edit_file"@.len() == 9);
    assert("edit_file"@[0] == 'e');
    assert("read_file"@[0] == 'r');
    assert("bash"@.len() == 4);
}

proof fn removed_paths_hold(tokens: Seq<Seq<char>>, n: int, i: int)
    requires
        1 <= i < n <= tokens.len(),
        tokens[i].len() == 0 || tokens[i][0] != '-',
    ensures
        removed_paths(tokens, n).contains(
            FileView { path: tokens[i], action: FileAction::Deleted },
        ),
    decreases n,
{
    let rest = removed_paths(tokens, n - 1);
    let all = removed_paths(tokens, n);
    let x = FileView { path: tokens[i], action: FileAction::Deleted };
    reveal_strlit("-");
    assert("-"@.len() == 1 && "-"@[0] == '-');
    if i == n - 1 {
        if "-"@.is_prefix_of(tokens[i]) {
            assert("-"@[0] == tokens[i][0]);
        }
        assert(all.last() == x);
    } else {
        removed_paths_hold(tokens, n - 1, i);
        let q = choose|q: int| 0 <= q < rest.len() && rest[q] == x;
        assert(all[q] == x);
    }
}

proof fn removed_paths_come_from(tokens: Seq<Seq<char>>, n: int, q: int) -> (i: int)
    requires
        n <= tokens.len(),
        0 <= q < removed_paths(tokens, n).len(),
    ensures
        1 <= i < n,
        tokens[i].len() == 0 || tokens[i][0] != '-',
        removed_paths(tokens, n)[q] == (FileView { path: tokens[i], action: FileAction::Deleted }),
    decreases n,
{
    reveal_strlit("-");
    let rest = removed_paths(tokens, n - 1);
    if q < rest.len() {
        removed_paths_come_from(tokens, n - 1, q)
    } else {
        if tokens[n - 1].len() > 0 && tokens[n - 1][0] == '-' {
            assert("-"@ =~= tokens[n - 1].take(1));
            assert("-"@.is_prefix_of(tokens[n - 1]));
        }
        n - 1
    }
}

/// Removing files deletes every word that is no option and nothing else,
/// moving modifies its last word, copying creates it, and other commands touch
/// no file.
pub proof fn shell_commands_touch_their_words(tokens: Seq<Seq<char>>, i: int)
    requires
        tokens.len() > 0,
    ensures
        tokens[0] == "rm"@ && 1 <= i < tokens.len() && (tokens[i].len() == 0 || tokens[i][0] != '-')
            ==> command_ops(tokens).contains(
            FileView { path: tokens[i], action: FileAction::Deleted },
        ),
        tokens[0] == "rm"@ && 0 <= i < command_ops(tokens).len() ==> exists|j: int|
            1 <= j < tokens.len() && (tokens[j].len() == 0 || tokens[j][0] != '-') && command_ops(
                tokens,
            )[i] == (FileView { path: #[trigger] tokens[j], action: FileAction::Deleted }),
        tokens[0] == "mv"@ && tokens.len() > 2 ==> command_ops(tokens) == seq![
            FileView { path: tokens[tokens.len() - 1], action: FileAction::Modified },
        ],
        tokens[0] == "cp"@ && tokens.len() > 2 ==> command_ops(tokens) == seq![
            FileView { path: tokens[tokens.len() - 1], action: FileAction::Created },
        ],
        tokens[0] != "rm"@ && tokens[0] != "mv"@ && tokens[0] != "cp"@ ==> command_ops(tokens).len()
            == 0,
        tokens[0] != "rm"@ && tokens.len() <= 2 ==> command_ops(tokens).len() == 0,
{
    reveal_strlit("rm");
    reveal_strlit("mv");
    reveal_strlit("cp");
    assert("rm"@[0] == 'r' && "mv"@[0] == 'm' && "cp"@[0] == 'c');
    if tokens[0] == "rm"@ {
        if 1 <= i < tokens.len() && (tokens[i].len() == 0 || tokens[i][0] != '-') {
            removed_paths_hold(tokens, tokens.len() as int, i);
        }
        if 0 <= i < command_ops(tokens).len() {
            let j = removed_paths_come_from(tokens, tokens.len() as int, i);
            assert(command_ops(tokens)[i].path == tokens[j]);
        }
    }
}

/// The commands of a line each count, in order.
pub proof fn commands_are_listed_in_order(a: Seq<Seq<char>>, b: Seq<Seq<char>>, x: Seq<char>)
    ensures
        commands_ops(a + b) == commands_ops(a) + commands_ops(b),
        commands_ops(seq![x]) == command_ops(words(trimmed(x))),
    decreases b.len(),
{
    assert(seq![x].drop_last() =~= Seq::empty());
    assert(commands_ops(seq![x].drop_last()) =~= Seq::empty());
    assert(commands_ops(seq![x]) =~= command_ops(words(trimmed(x))));
    if b.len() == 0 {
        assert(a + b =~= a);
        assert(commands_ops(a) + commands_ops(b) =~= commands_ops(a));
    } else {
        commands_are_listed_in_order(a, b.drop_last(), x);
        assert((a + b).drop_last() =~= a + b.drop_last());
        assert(commands_ops(a + b) =~= commands_ops(a) + commands_ops(b));
    }
}

/// A shell line touches what its commands touch, whether `&&` or `;` stands
/// between them.
pub proof fn shell_lines_touch_what_their_commands_do(line: Seq<char>, i: int)
    ensures
        ({
            let ops = request_ops("bash"@, line);
            let cmd = json_string(line, "command"@)->0;
            let both = crate::text::split_on(cmd, "&&"@);
            let each = crate::text::split_on(cmd, ";"@);
            &&& json_string(line, "command"@) is None ==> ops.len() == 0
            &&& json_string(line, "command"@) is Some ==> {
                &&& ops.len() == commands_ops(both).len() + commands_ops(each).len()
                &&& 0 <= i < commands_ops(both).len() ==> ops[i] == commands_ops(both)[i]
                &&& 0 <= i < commands_ops(each).len() ==> ops.contains(commands_ops(each)[i])
            }
        }),
{
    reveal_strlit("read_file");
    reveal_strlit("write_file");
    reveal_strlit("edit_file");
    reveal_strlit("bash");
    assert("read_file"@.len() == 9 && "write_file"@.len() == 10 && "edit_file"@.len() == 9
        && "bash"@.len() == 4);
    let ops = request_ops("bash"@, line);
    let cmd = json_string(line, "command"@)->0;
    let both = commands_ops(crate::text::split_on(cmd, "&&"@));
    let each = commands_ops(crate::text::split_on(cmd, ";"@));
    if json_string(line, "command"@) is Some && 0 <= i < each.len() {
        assert(ops[both.len() + i] == each[i]);
    }
}

/// A list of operations keeps each one once: it holds what it held and what is
/// added, nothing else, and no two that are the same.
pub proof fn operations_are_kept_once(f: Seq<FileView>, xs: Seq<FileView>)
    requires
        f.no_duplicates(),
    ensures
        add_all_new(f, xs).no_duplicates(),
        f.is_prefix_of(add_all_new(f, xs)),
        forall|x: FileView| #[trigger]
            add_all_new(f, xs).contains(x) <==> f.contains(x) || xs.contains(x),
    decreases xs.len(),
{
    let all = add_all_new(f, xs);
    if xs.len() > 0 {
        operations_are_kept_once(f, xs.drop_last());
        let rest = add_all_new(f, xs.drop_last());
        let last = xs.last();
        assert(xs[xs.len() - 1] == last);
        assert forall|x: FileView| #[trigger] all.contains(x) <==> f.contains(x) || xs.contains(
            x,
        ) by {
            if all.contains(x) {
                let q = choose|q: int| 0 <= q < all.len() && all[q] == x;
                if q < rest.len() {
                    assert(rest[q] == x);
                    assert(rest.contains(x));
                    if xs.drop_last().contains(x) {
                        let p = choose|p: int|
                            0 <= p < xs.drop_last().len() && xs.drop_last()[p] == x;
                        assert(xs[p] == x);
                    }
                }
            }
            if f.contains(x) || xs.contains(x) {
                if xs.contains(x) && x != last {
                    let p = choose|p: int| 0 <= p < xs.len() && xs[p] == x;
                    assert(xs.drop_last()[p] == x);
                    assert(xs.drop_last().contains(x));
                }
                if x == last && !rest.contains(last) {
                    assert(all.last() == x);
                } else {
                    assert(rest.contains(x));
                    let q = choose|q: int| 0 <= q < rest.len() && rest[q] == x;
                    assert(all[q] == x);
                }
            }
        }
        assert forall|j: int| 0 <= j < f.len() implies f[j] == #[trigger] all[j] by {
            assert(f[j] == rest[j]);
        }
        assert(f =~= all.take(f.len() as int));
    } else {
        assert(f =~= f.take(f.len() as int));
    }
}

/// The actions of files known by their last operations: every path that was
/// touched has one, and it is the one recorded last.
pub proof fn last_action_stands(f: Seq<FileView>, i: int)
    requires
        0 <= i < f.len(),
        forall|j: int| i < j < f.len() ==> (#[trigger] f[j]).path != f[i].path,
    ensures
        last_actions(f).contains_key(f[i].path),
        last_actions(f)[f[i].path] == f[i].action,
    decreases f.len(),
{
    if i < f.len() - 1 {
        assert(f[f.len() - 1] == f.last());
        assert forall|j: int| i < j < f.drop_last().len() implies (#[trigger] f.drop_last()[j]).path
            != f.drop_last()[i].path by {
            assert(f.drop_last()[j] == f[j]);
        }
        last_action_stands(f.drop_last(), i);
    }
}

/// No file appears that was not touched.
pub proof fn only_touched_files_are_known(f: Seq<FileView>, k: Seq<char>) -> (i: int)
    requires
        last_actions(f).contains_key(k),
    ensures
        0 <= i < f.len(),
        f[i].path == k,
    decreases f.len(),
{
    if f.last().path == k {
        f.len() - 1
    } else {
        only_touched_files_are_known(f.drop_last(), k)
    }
}

/// Merging knows the files that were known and those that are new, and no
/// others; a file that is only read keeps what is known of it, and is known as
/// read where nothing was.
pub proof fn merging_knows_old_and_new(
    m: Map<Seq<char>, FileAction>,
    f: Seq<FileView>,
    k: Seq<char>,
)
    ensures
        touch_all(m, f).contains_key(k) <==> m.contains_key(k) || exists|i: int|
            0 <= i < f.len() && (#[trigger] f[i]).path == k,
        (forall|i: int|
            0 <= i < f.len() && (#[trigger] f[i]).path == k ==> f[i].action == FileAction::Read)
            && touch_all(m, f).contains_key(k) ==> touch_all(m, f)[k] == (if m.contains_key(k) {
            m[k]
        } else {
            FileAction::Read
        }),
    decreases f.len(),
{
    if f.len() > 0 {
        let d = f.drop_last();
        merging_knows_old_and_new(m, d, k);
        assert(f[f.len() - 1] == f.last());
        assert(forall|i: int| 0 <= i < d.len() ==> d[i] == f[i]);
        if exists|i: int| 0 <= i < f.len() && (#[trigger] f[i]).path == k {
            let i = choose|i: int| 0 <= i < f.len() && (#[trigger] f[i]).path == k;
            if i < d.len() {
                assert(d[i].path == k);
            }
        }
        if exists|i: int| 0 <= i < d.len() && (#[trigger] d[i]).path == k {
            let i = choose|i: int| 0 <= i < d.len() && (#[trigger] d[i]).path == k;
            assert(f[i].path == k);
        }
    }
}

/// The list of files in a prompt has one line for each, in order: what
/// happened to the file, and its path.
pub proof fn files_have_lines(a: Seq<FileView>, b: Seq<FileView>, path: Seq<char>)
    ensures
        file_lines(a + b) == file_lines(a) + file_lines(b),
        file_lines(seq![FileView { path, action: FileAction::Read }]) == "- "@ + "READ"@ + ": "@
            + path + "\n"@,
        file_lines(seq![FileView { path, action: FileAction::Created }]) == "- "@ + "CREATED"@
            + ": "@ + path + "\n"@,
        file_lines(seq![FileView { path, action: FileAction::Modified }]) == "- "@ + "MODIFIED"@
            + ": "@ + path + "\n"@,
        file_lines(seq![FileView { path, action: FileAction::Deleted }]) == "- "@ + "DELETED"@
            + ": "@ + path + "\n"@,
    decreases b.len(),
{
    one_file_line(FileView { path, action: FileAction::Read });
    one_file_line(FileView { path, action: FileAction::Created });
    one_file_line(FileView { path, action: FileAction::Modified });
    one_file_line(FileView { path, action: FileAction::Deleted });
    if b.len() == 0 {
        assert(a + b =~= a);
        assert(file_lines(a) + file_lines(b) =~= file_lines(a));
    } else {
        files_have_lines(a, b.drop_last(), path);
        assert((a + b).drop_last() =~= a + b.drop_last());
        assert(file_lines(a + b) =~= file_lines(a) + file_lines(b));
    }
}

proof fn one_file_line(x: FileView)
    ensures
        file_lines(seq![x]) == "- "@ + x.action.name() + ": "@ + x.path + "\n"@,
{
    assert(seq![x].drop_last() =~= Seq::empty());
    assert(file_lines(seq![x].drop_last()) =~= Seq::empty());
    assert(file_lines(seq![x]) =~= "- "@ + x.action.name() + ": "@ + x.path + "\n"@);
}

/// Of the parts of a message only tool calls without a result are left out;
/// the rest stays, in order.
pub proof fn only_unanswered_calls_are_left_out(
    a: Seq<ContentView>,
    b: Seq<ContentView>,
    results: Seq<ContentView>,
    x: ContentView,
)
    ensures
        kept_parts(a + b, results) == kept_parts(a, results) + kept_parts(b, results),
        kept_parts(seq![x], results) == (if x is ToolRequest && !(exists|i: int|
            0 <= i < results.len() && #[trigger] results[i] is ToolResult
                && results[i]->ToolResult_id == x->ToolRequest_id) {
            Seq::empty()
        } else {
            seq![x]
        }),
    decreases b.len(),
{
    assert(seq![x].drop_last() =~= Seq::empty());
    assert(kept_parts(seq![x].drop_last(), results) =~= Seq::empty());
    if let ContentView::ToolRequest { id, .. } = x {
        if answers(results, id) {
            let i = choose|i: int| 0 <= i < results.len() && is_result_of(#[trigger] results[i], id);
            assert(results[i] is ToolResult && results[i]->ToolResult_id == id);
        }
        if exists|i: int|
            0 <= i < results.len() && #[trigger] results[i] is ToolResult
                && results[i]->ToolResult_id == x->ToolRequest_id {
            let i = choose|i: int|
                0 <= i < results.len() && #[trigger] results[i] is ToolResult
                    && results[i]->ToolResult_id == x->ToolRequest_id;
            assert(is_result_of(results[i], id));
        }
    }
    assert(kept_parts(seq![x], results) =~= (if x is ToolRequest && !answers(
        results,
        x->ToolRequest_id,
    ) {
        Seq::empty()
    } else {
        seq![x]
    }));
    if b.len() == 0 {
        assert(a + b =~= a);
        assert(kept_parts(a, results) + kept_parts(b, results) =~= kept_parts(a, results));
    } else {
        only_unanswered_calls_are_left_out(a, b.drop_last(), results, x);
        assert((a + b).drop_last() =~= a + b.drop_last());
        assert(kept_parts(a + b, results) =~= kept_parts(a, results) + kept_parts(b, results));
    }
}

proof fn answered_parts_stay(c: Seq<ContentView>, results: Seq<ContentView>)
    requires
        forall|k: int|
            0 <= k < c.len() && #[trigger] c[k] is ToolRequest ==> answers(
                results,
                c[k]->ToolRequest_id,
            ),
    ensures
        kept_parts(c, results) == c,
    decreases c.len(),
{
    if c.len() > 0 {
        let d = c.drop_last();
        assert(c[c.len() - 1] == c.last());
        assert forall|k: int| 0 <= k < d.len() && #[trigger] d[k] is ToolRequest implies answers(
            results,
            d[k]->ToolRequest_id,
        ) by {
            assert(c[k] == d[k]);
        }
        answered_parts_stay(d, results);
        assert(kept_parts(c, results) =~= c);
    } else {
        assert(kept_parts(c, results) =~= c);
    }
}

proof fn paired_messages_stay_from(m: Seq<MessageView>, i: int)
    requires
        paired(m),
        0 <= i <= m.len(),
    ensures
        stripped_from(m, i) == m.skip(i),
    decreases m.len() - i,
{
    if i < m.len() {
        paired_messages_stay_from(m, i + 1);
        assert(answered(m, i));
        if m[i].role == Role::Assistant && has_requests(m[i]) {
            answered_parts_stay(m[i].content, reply_parts(m, i));
            assert(m[i].content.len() > 0);
        }
        assert(stripped_one(m, i) =~= seq![m[i]]);
        assert(m.skip(i) =~= seq![m[i]] + m.skip(i + 1));
    } else {
        assert(stripped_from(m, i) =~= m.skip(i));
    }
}

/// Messages in which every tool call is answered are all sent for
/// summarization, as they are.
pub proof fn answered_messages_are_all_summarized(m: Seq<MessageView>)
    requires
        paired(m),
    ensures
        stripped_from(m, 0) == m,
{
    paired_messages_stay_from(m, 0);
    assert(m.skip(0) =~= m);
}

/// Messages without tool calls are summarized whatever stands around them;
/// a message with calls keeps its other parts and the calls that the message
/// right behind it answers, and goes where no part is left.
pub proof fn messages_are_stripped_one_by_one(m: Seq<MessageView>, i: int)
    requires
        0 <= i < m.len(),
    ensures
        ({
            let s = stripped_from(m, i);
            let rest = stripped_from(m, i + 1);
            let reply = if i + 1 < m.len() && m[i + 1].role == Role::User {
                m[i + 1].content
            } else {
                Seq::empty()
            };
            if m[i].role == Role::User || (forall|k: int|
                0 <= k < m[i].content.len() ==> !(#[trigger] m[i].content[k] is ToolRequest)) {
                s == seq![m[i]] + rest
            } else if kept_parts(m[i].content, reply).len() == 0 {
                s == rest
            } else {
                s == seq![
                    MessageView {
                        role: Role::Assistant,
                        content: kept_parts(m[i].content, reply),
                    },
                ] + rest
            }
        }),
        stripped_from(m, m.len() as int).len() == 0,
{
    let rest = stripped_from(m, i + 1);
    assert(Seq::<MessageView>::empty() + rest =~= rest);
}

/// The tokens of a summarization call are all that it read and wrote.
pub proof fn calls_cost_what_they_read_and_wrote(u: Usage)
    ensures
        u.input_tokens is Some && u.output_tokens is Some && u.cache_read_tokens is Some
            && u.cache_write_tokens is Some ==> call_tokens(u) == u.input_tokens->0
            + u.output_tokens->0 + u.cache_read_tokens->0 + u.cache_write_tokens->0,
        u.cache_read_tokens is None && u.cache_write_tokens is None && u.input_tokens is Some
            && u.output_tokens is Some ==> call_tokens(u) == u.input_tokens->0
            + u.output_tokens->0,
        u.input_tokens is None && u.output_tokens is None && u.cache_read_tokens is None
            && u.cache_write_tokens is None ==> call_tokens(u) == 0,
{
}

/// Four bytes make a token, rounded down, and the reply's room comes off the
/// context that a request may fill.
pub proof fn tokens_and_budgets(bytes: int, context_limit: usize, reserve: int)
    requires
        0 <= bytes,
        0 <= reserve,
    ensures
        tokens_of(bytes) < u32::MAX ==> 4 * tokens_of(bytes) <= bytes < 4 * tokens_of(bytes) + 4,
        bytes < 4 * u32::MAX ==> tokens_of(bytes) < u32::MAX,
        reserve <= context_limit && context_limit - reserve <= u32::MAX ==> budget_of(
            context_limit as int,
            reserve,
        ) + reserve == context_limit,
        context_limit <= reserve ==> budget_of(context_limit as int, reserve) == 0,
        context_limit - reserve > u32::MAX ==> budget_of(context_limit as int, reserve) == u32::MAX,
        16_000 <= context_limit && context_limit - 16_000 <= u32::MAX ==> request_budget(
            context_limit,
        ) + 16_000 == context_limit,
        context_limit < 16_000 ==> request_budget(context_limit) == 0,
{
}

/// A session is compacted above what a request may have, and above the usual
/// threshold in any case.
pub proof fn thresholds_follow_the_budget(budget: u32)
    ensures
        budget <= 175_000 ==> threshold_of(budget) == budget,
        budget >= 175_000 ==> threshold_of(budget) == 175_000,
{
}

/// A target that shrinks comes as close to its share of the budget as whole
/// tokens allow, at least one lower than before, and not below the least
/// context that is kept; a request within its budget leaves it.
pub proof fn targets_shrink_by_their_share(current: u32, estimated: u32, budget: u32)
    ensures
        estimated <= budget ==> shrunk(current, estimated, budget) == current,
        estimated > budget && current > 2_000 && current * budget <= u32::MAX ==> {
            let next = shrunk(current, estimated, budget);
            &&& 2_000 <= next < current
            &&& next > 2_000 ==> next * estimated <= current * budget
            &&& next < current - 1 ==> current * budget < (next + 1) * estimated
        },
{
    if estimated > budget && current > 2_000 && current * budget <= u32::MAX {
        let product = current * budget;
        let scaled = product / estimated as int;
        let e = estimated as int;
        assert(product >= 0) by (nonlinear_arith)
            requires
                product == current * budget,
        ;
        assert(scaled * e <= product < (scaled + 1) * e) by (nonlinear_arith)
            requires
                scaled == product / e,
                e > 0,
                product >= 0,
        ;
        let next = shrunk(current, estimated, budget);
        assert(next > 2_000 ==> next <= scaled);
        assert(next <= scaled ==> next * e <= scaled * e) by (nonlinear_arith)
            requires
                e > 0,
        ;
        assert(next < current - 1 ==> next >= scaled);
        assert(next >= scaled ==> (next + 1) * e >= (scaled + 1) * e) by (nonlinear_arith)
            requires
                e > 0,
        ;
    }
}

/// A session is compacted when it is told to be, or when what the provider last
/// reported or a fresh estimate is over the threshold; but not when a
/// compaction covers all its messages.
pub proof fn large_sessions_are_compacted(
    g: GatewayView,
    k: KeyView,
    estimated: u32,
    threshold: u32,
)
    ensures
        g.compaction(k) is None ==> {
            &&& due(g, k, estimated, threshold, true)
            &&& due(g, k, estimated, threshold, false) <==> (estimated > threshold || g.usage_of(
                k,
            ).last_input_tokens > threshold)
        },
        g.compaction(k) matches Some(c) ==> {
            &&& c.1 >= g.history(k).len() ==> !due(g, k, estimated, threshold, true) && !due(
                g,
                k,
                estimated,
                threshold,
                false,
            )
            &&& c.1 < g.history(k).len() ==> {
                &&& due(g, k, estimated, threshold, true)
                &&& due(g, k, estimated, threshold, false) <==> (estimated > threshold
                    || g.usage_of(k).last_input_tokens > threshold)
            }
        },
        effective_tokens(g, k, estimated) >= estimated,
{
}

/// A session without a compaction is sent whole; one with a compaction begins
/// with its summary.
pub proof fn compacted_sessions_begin_with_their_summary(g: GatewayView, k: KeyView)
    ensures
        g.compaction(k) is None ==> session_context(g, k) == g.history(k),
        g.compaction(k) matches Some(c) ==> {
            &&& session_context(g, k).len() > 0
            &&& session_context(g, k)[0] == (MessageView {
                role: Role::User,
                content: seq![ContentView::Text { text: c.0.summary }],
            })
            &&& c.1 < g.history(k).len() && g.history(k)[c.1 as int].role == Role::Assistant
                ==> session_context(g, k).skip(1) == g.history(k).skip(c.1 as int)
        },
{
    if let Some(c) = g.compaction(k) {
        let h = g.history(k);
        if c.1 < h.len() && h[c.1 as int].role == Role::Assistant {
            assert(past_users(h, c.1 as int) == c.1);
            assert(session_context(g, k).skip(1) =~= h.skip(c.1 as int));
        }
    }
}

/// The tokens of messages are a quarter of their size.
pub proof fn messages_come_to_a_quarter(m: Seq<MessageView>)
    requires
        0 <= size_from(m, 0) < u32::MAX,
    ensures
        4 * message_tokens(m) <= size_from(m, 0) < 4 * message_tokens(m) + 4,
{
    assert(capped_size(size_from(m, 0)) == size_from(m, 0));
}

} // verus!
