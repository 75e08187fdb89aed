//! Context compaction: summarizes old conversation history when it grows too
//! large, keeping the context window bounded.
//!
//! Compaction is iterative: where a summary exists, only newer messages are
//! summarized and merged into it. A cut point keeps recent messages verbatim,
//! and the files that the conversation touched are tracked across compactions.
use vstd::prelude::*;

use crate::json::{json_string, string_member};
use crate::message::{
    answered, answered_shift, answers, content_views, content_views_push, copy_messages,
    has_requests, has_result_for, message_views, message_views_push, paired, paired_push_user,
    texts_in, user_text, Content, ContentView, Message, MessageView, Role,
};
use crate::text::{
    byte_len, byte_length, chars_of, has_text, join_texts, joined, occurs_at, opt_str_view, same_text,
    split_chars, split_on, split_words, starts_with, string_of, trim_text, trimmed, views, words,
};
use crate::usage::{count, count_of, Usage};

verus! {

/// Compact when total tokens exceed this.
pub const COMPACTION_THRESHOLD: u32 = 175_000;

/// Approximate tokens of recent context to keep verbatim after compaction.
pub const RECENT_CONTEXT_TARGET: u32 = 20_000;

/// Rough characters-per-token estimate for cut-point detection.
pub const CHARS_PER_TOKEN: u32 = 4;

/// Returns true if the given input token count exceeds the threshold.
pub fn should_compact(input_tokens: u32) -> (r: bool)
    ensures
        r == (input_tokens > COMPACTION_THRESHOLD),
{
    input_tokens > COMPACTION_THRESHOLD
}

/// The estimated size of one part of a message: text and thinking by their
/// bytes, tool arguments and results up to a cap, images at a flat rate.
pub open spec fn part_size(c: ContentView) -> int {
    match c {
        ContentView::Text { text } => byte_len(text) as int,
        ContentView::ToolRequest { arguments, .. } => if byte_len(arguments) < 500 {
            byte_len(arguments) as int
        } else {
            500
        },
        ContentView::ToolResult { output, .. } => if byte_len(output) < 2000 {
            byte_len(output) as int
        } else {
            2000
        },
        ContentView::Image { .. } => 1000,
        ContentView::Thinking { thinking, .. } => byte_len(thinking) as int,
    }
}

/// The estimated size of a list of parts.
pub open spec fn parts_size(c: Seq<ContentView>) -> int
    decreases c.len(),
{
    if c.len() == 0 {
        0
    } else {
        parts_size(c.drop_last()) + part_size(c.last())
    }
}

/// A size that stays at the largest `usize` where it would not fit.
pub open spec fn capped_size(n: int) -> int {
    if n > usize::MAX {
        usize::MAX as int
    } else {
        n
    }
}

/// The estimated size of a message in characters.
pub fn estimate_message_chars(msg: &Message) -> (r: usize)
    ensures
        r == capped_size(parts_size(msg@.content)),
{
    let mut total: usize = 0;
    for i in 0..msg.content.len()
        invariant
            total == capped_size(parts_size(msg@.content.take(i as int))),
            0 <= parts_size(msg@.content.take(i as int)),
    {
        assert(msg@.content.take(i + 1).drop_last() =~= msg@.content.take(i as int));
        assert(msg@.content.take(i + 1).last() == msg.content@[i as int]@);
        let n: usize = match &msg.content[i] {
            Content::Text { text } => byte_length(text.as_str()),
            Content::ToolRequest { arguments, .. } => {
                let n: usize = byte_length(arguments.as_str());
                if n < 500 {
                    n
                } else {
                    500
                }
            },
            Content::ToolResult { output, .. } => {
                let n: usize = byte_length(output.as_str());
                if n < 2000 {
                    n
                } else {
                    2000
                }
            },
            Content::Image { .. } => 1000,
            Content::Thinking { thinking, .. } => byte_length(thinking.as_str()),
        };
        total = total.saturating_add(n);
    }
    assert(msg@.content.take(msg.content.len() as int) =~= msg@.content);
    total
}

/// The estimated size of the messages from position `i` on.
pub open spec fn size_from(m: Seq<MessageView>, i: int) -> int
    decreases m.len() - i,
{
    if i >= m.len() || i < 0 {
        0
    } else {
        parts_size(m[i].content) + size_from(m, i + 1)
    }
}

/// The position of the first message from `i` on that is not a user's.
pub open spec fn past_users(m: Seq<MessageView>, i: int) -> int
    decreases m.len() - i,
{
    if 0 <= i < m.len() && m[i].role == Role::User {
        past_users(m, i + 1)
    } else {
        i
    }
}

/// The last position at or before `i` from which on the messages reach the
/// target size.
pub open spec fn reach_from(m: Seq<MessageView>, i: int, target: int) -> Option<int>
    decreases i + 1,
{
    if i < 0 {
        None
    } else if size_from(m, i) >= target {
        Some(i)
    } else {
        reach_from(m, i - 1, target)
    }
}

/// The cut point: behind the last position from which on the messages reach
/// the target size, the first message that is not a user's; zero where all
/// messages together stay below the target.
pub open spec fn cut_point(m: Seq<MessageView>, target: int) -> int {
    match reach_from(m, m.len() - 1, target) {
        Some(i) => past_users(m, i),
        None => 0,
    }
}

/// Advances past user messages at a compaction boundary.
pub fn safe_cut_start(messages: &[Message], idx: usize) -> (r: usize)
    ensures
        r == past_users(message_views(messages@), idx as int),
        idx <= r,
        r <= messages.len() || r == idx,
        r < messages.len() ==> messages@[r as int].role == Role::Assistant,
{
    let mut i: usize = idx;
    while i < messages.len() && messages[i].role == Role::User
        invariant
            idx <= i,
            i <= messages.len() || i == idx,
            past_users(message_views(messages@), idx as int) == past_users(
                message_views(messages@),
                i as int,
            ),
        decreases messages.len() - i,
    {
        i += 1;
    }
    i
}

/// Finds the cut point for a target in tokens: everything before it gets
/// summarized, everything from it on is kept verbatim. The result points to
/// an assistant message, past the end, or to zero.
pub fn find_cut_point_for(messages: &[Message], target_tokens: u32) -> (r: usize)
    requires
        target_tokens * 4 <= u32::MAX,
    ensures
        r == cut_point(message_views(messages@), target_tokens * 4),
        r <= messages.len(),
        0 < r < messages.len() ==> messages@[r as int].role == Role::Assistant,
{
    if messages.len() == 0 {
        return 0;
    }
    let ghost m = message_views(messages@);
    let target: usize = (target_tokens * CHARS_PER_TOKEN) as usize;
    let mut chars: usize = 0;
    let mut i: usize = messages.len();
    if target == 0 {
        proof {
            parts_size_nonnegative(m[m.len() - 1].content);
            assert(size_from(m, m.len() - 1 + 1) == 0);
            assert(size_from(m, m.len() - 1) >= 0);
        }
        return safe_cut_start(messages, messages.len() - 1);
    }
    while i > 0
        invariant
            m == message_views(messages@),
            target == target_tokens * 4,
            i <= messages.len(),
            0 <= size_from(m, i as int) < target,
            chars == capped_size(size_from(m, i as int)),
            reach_from(m, m.len() - 1, target as int) == reach_from(m, i - 1, target as int),
        decreases i,
    {
        let n = estimate_message_chars(&messages[i - 1]);
        proof {
            assert(m[i - 1] == messages@[i - 1]@);
            parts_size_nonnegative(m[i - 1].content);
        }
        chars = chars.saturating_add(n);
        i -= 1;
        if chars >= target {
            assert(size_from(m, i as int) >= target);
            return safe_cut_start(messages, i);
        }
    }
    0
}

pub proof fn parts_size_nonnegative(c: Seq<ContentView>)
    ensures
        parts_size(c) >= 0,
    decreases c.len(),
{
    if c.len() > 0 {
        parts_size_nonnegative(c.drop_last());
    }
}

/// Finds the cut point for the usual amount of recent context.
pub fn find_cut_point(messages: &[Message]) -> (r: usize)
    ensures
        r == cut_point(message_views(messages@), RECENT_CONTEXT_TARGET * CHARS_PER_TOKEN),
        r <= messages.len(),
        0 < r < messages.len() ==> messages@[r as int].role == Role::Assistant,
{
    find_cut_point_for(messages, RECENT_CONTEXT_TARGET)
}

/// Asks for a first summary.
pub const FIRST_SUMMARY_PROMPT: &'static str = "You have been working on the task described above but have not yet completed it. Write a continuation summary that will allow you (or another instance of yourself) to resume work efficiently in a future context window where the conversation history will be replaced with this summary. Your summary should be structured, concise, and actionable. Include:\n\
1. Task Overview — The user's core request and success criteria, any clarifications or constraints\n\
2. Current State — What has been completed, files created/modified/analyzed (with paths), key outputs\n\
3. Important Discoveries — Technical constraints, decisions made and rationale, errors and resolutions, approaches that didn't work\n\
4. Next Steps — Specific actions needed, blockers or open questions, priority order\n\
5. Context to Preserve — User preferences, domain-specific details, promises made\n\
6. Files Touched — List all files that were read, created, modified, or deleted, with their paths and the action taken\n\
Be concise but complete—err on the side of including information that would prevent duplicate work or repeated mistakes. Write in a way that enables immediate resumption of the task.\n\
Wrap your summary in <summary></summary> tags.";

/// Stands before the previous summary.
pub const UPDATE_SUMMARY_PROMPT_PREFIX: &'static str =
    "Here is your previous continuation summary:\n<previous_summary>\n";
/// Asks for an update of the previous summary.
pub const UPDATE_SUMMARY_PROMPT_SUFFIX: &'static str = "\n</previous_summary>\n\n\
The following new conversation has occurred since that summary was written.\n\
Update the summary to incorporate the new information. Preserve important\n\
details from the previous summary. Do NOT regenerate from scratch — merge\n\
the new information into the existing summary structure.\n\
Your updated summary should include:\n\
1. Task Overview — Updated with any new goals or constraints\n\
2. Current State — Updated with new completions, files created/modified/analyzed\n\
3. Important Discoveries — Merge new findings with previous ones\n\
4. Next Steps — Updated priority list\n\
5. Context to Preserve — Updated preferences, promises\n\
6. Files Touched — Complete list of all files read, created, modified, or deleted across both the previous summary and the new work\n\
Wrap your summary in <summary></summary> tags.";

/// Stands before the list of files in a summary prompt.
pub const FILES_TOUCHED_PREFIX: &'static str = "\n\nAdditionally, here are the files that were read or modified during this work:\n<files_touched>\n";

/// Stands behind the list of files in a summary prompt.
pub const FILES_TOUCHED_SUFFIX: &'static str = "</files_touched>\nInclude this file list in your summary under a \"Files Touched\" section.";

/// What happened to a file during the conversation.
#[derive(Clone, Copy, Debug, PartialEq, Eq, Structural)]
pub enum FileAction {
    Read,
    Created,
    Modified,
    Deleted,
}

impl FileAction {
    /// The action's name.
    pub open spec fn name(self) -> Seq<char> {
        match self {
            FileAction::Read => "READ"@,
            FileAction::Created => "CREATED"@,
            FileAction::Modified => "MODIFIED"@,
            FileAction::Deleted => "DELETED"@,
        }
    }

    /// The action's name.
    pub fn text(self) -> (r: &'static str)
        ensures
            r@ == self.name(),
    {
        match self {
            FileAction::Read => "READ",
            FileAction::Created => "CREATED",
            FileAction::Modified => "MODIFIED",
            FileAction::Deleted => "DELETED",
        }
    }
}

/// A file that was touched during the conversation.
#[derive(Debug, PartialEq, Eq)]
pub struct FileTouched {
    pub path: String,
    pub action: FileAction,
}

/// What a [`FileTouched`] stands for.
pub struct FileView {
    pub path: Seq<char>,
    pub action: FileAction,
}

impl View for FileTouched {
    type V = FileView;

    open spec fn view(&self) -> FileView {
        FileView { path: self.path@, action: self.action }
    }
}

impl Clone for FileTouched {
    fn clone(&self) -> (r: Self)
        ensures
            r == *self,
    {
        FileTouched { path: self.path.clone(), action: self.action }
    }
}

/// The views of a list of files.
pub open spec fn file_views(f: Seq<FileTouched>) -> Seq<FileView> {
    Seq::new(f.len(), |i: int| f[i]@)
}

/// A copy of a list of files.
pub fn copy_files(f: &Vec<FileTouched>) -> (r: Vec<FileTouched>)
    ensures
        r@ == f@,
{
    let mut out: Vec<FileTouched> = Vec::new();
    for i in 0..f.len()
        invariant
            out@ == f@.take(i as int),
    {
        out.push(f[i].clone());
    }
    assert(f@.take(f.len() as int) =~= f@);
    out
}

/// The paths among the arguments of `rm`: every word that is no option.
pub open spec fn removed_paths(tokens: Seq<Seq<char>>, n: int) -> Seq<FileView>
    decreases n,
{
    if n <= 1 {
        Seq::empty()
    } else {
        let rest = removed_paths(tokens, n - 1);
        if "-"@.is_prefix_of(tokens[n - 1]) {
            rest
        } else {
            rest.push(FileView { path: tokens[n - 1], action: FileAction::Deleted })
        }
    }
}

/// The file operations of one shell command, given as its words.
pub open spec fn command_ops(tokens: Seq<Seq<char>>) -> Seq<FileView> {
    if tokens.len() == 0 {
        Seq::empty()
    } else if tokens[0] == "rm"@ {
        removed_paths(tokens, tokens.len() as int)
    } else if tokens[0] == "mv"@ && tokens.len() >= 3 {
        seq![FileView { path: tokens.last(), action: FileAction::Modified }]
    } else if tokens[0] == "cp"@ && tokens.len() >= 3 {
        seq![FileView { path: tokens.last(), action: FileAction::Created }]
    } else {
        Seq::empty()
    }
}

/// The file operations of a list of shell commands.
pub open spec fn commands_ops(parts: Seq<Seq<char>>) -> Seq<FileView>
    decreases parts.len(),
{
    if parts.len() == 0 {
        Seq::empty()
    } else {
        commands_ops(parts.drop_last()) + command_ops(words(trimmed(parts.last())))
    }
}

/// The file operations of a shell line: those of its pieces between `&&`, then
/// those of its pieces between `;`.
pub open spec fn bash_ops(cmd: Seq<char>) -> Seq<FileView> {
    commands_ops(split_on(cmd, "&&"@)) + commands_ops(split_on(cmd, ";"@))
}

/// The file operations of one tool call.
pub open spec fn request_ops(name: Seq<char>, arguments: Seq<char>) -> Seq<FileView> {
    if name == "read_file"@ {
        path_op(json_string(arguments, "path"@), FileAction::Read)
    } else if name == "write_file"@ {
        path_op(json_string(arguments, "path"@), FileAction::Created)
    } else if name == "edit_file"@ {
        path_op(json_string(arguments, "path"@), FileAction::Modified)
    } else if name == "bash"@ {
        match json_string(arguments, "command"@) {
            Some(cmd) => bash_ops(cmd),
            None => Seq::empty(),
        }
    } else {
        Seq::empty()
    }
}

/// The operation on a path, where there is one.
pub open spec fn path_op(path: Option<Seq<char>>, action: FileAction) -> Seq<FileView> {
    match path {
        Some(path) => seq![FileView { path, action }],
        None => Seq::empty(),
    }
}

/// The file operations of the parts of a message.
pub open spec fn content_ops(c: Seq<ContentView>) -> Seq<FileView>
    decreases c.len(),
{
    if c.len() == 0 {
        Seq::empty()
    } else {
        content_ops(c.drop_last()) + part_ops(c.last())
    }
}

/// The file operations of one part of a message.
pub open spec fn part_ops(c: ContentView) -> Seq<FileView> {
    match c {
        ContentView::ToolRequest { name, arguments, .. } => request_ops(name, arguments),
        _ => Seq::empty(),
    }
}

/// The file operations of a list of messages.
pub open spec fn message_ops(m: Seq<MessageView>) -> Seq<FileView>
    decreases m.len(),
{
    if m.len() == 0 {
        Seq::empty()
    } else {
        message_ops(m.drop_last()) + content_ops(m.last().content)
    }
}

/// Adds a file operation that the list does not hold yet.
pub open spec fn add_new(f: Seq<FileView>, x: FileView) -> Seq<FileView> {
    if f.contains(x) {
        f
    } else {
        f.push(x)
    }
}

/// Adds file operations one after the other, each once.
pub open spec fn add_all_new(f: Seq<FileView>, xs: Seq<FileView>) -> Seq<FileView>
    decreases xs.len(),
{
    if xs.len() == 0 {
        f
    } else {
        add_new(add_all_new(f, xs.drop_last()), xs.last())
    }
}

proof fn add_all_new_concat(f: Seq<FileView>, a: Seq<FileView>, b: Seq<FileView>)
    ensures
        add_all_new(f, a + b) == add_all_new(add_all_new(f, a), b),
    decreases b.len(),
{
    if b.len() == 0 {
        assert(a + b =~= a);
    } else {
        assert((a + b).drop_last() =~= a + b.drop_last());
        add_all_new_concat(f, a, b.drop_last());
    }
}

fn same_file(a: &FileTouched, b: &FileTouched) -> (r: bool)
    ensures
        r == (a@ == b@),
{
    same_text(a.path.as_str(), b.path.as_str()) && a.action == b.action
}

fn file_views_push(f: &mut Vec<FileTouched>, x: FileTouched)
    ensures
        file_views(final(f)@) == file_views(old(f)@).push(x@),
{
    f.push(x);
    assert(file_views(f@) =~= file_views(old(f)@).push(x@));
}

fn add_new_files(f: &mut Vec<FileTouched>, xs: Vec<FileTouched>)
    ensures
        file_views(final(f)@) == add_all_new(file_views(old(f)@), file_views(xs@)),
{
    let ghost start = file_views(f@);
    for i in 0..xs.len()
        invariant
            file_views(f@) == add_all_new(start, file_views(xs@).take(i as int)),
    {
        let mut known = false;
        for j in 0..f.len()
            invariant
                i < xs.len(),
                known == (exists|k: int| 0 <= k < j && file_views(f@)[k] == xs@[i as int]@),
        {
            if same_file(&f[j], &xs[i]) {
                known = true;
                assert(file_views(f@)[j as int] == xs@[i as int]@);
            }
        }
        proof {
            let t = file_views(xs@).take(i + 1);
            assert(t.drop_last() =~= file_views(xs@).take(i as int));
            assert(t.last() == xs@[i as int]@);
            assert(known == file_views(f@).contains(xs@[i as int]@));
        }
        if !known {
            file_views_push(f, xs[i].clone());
        }
    }
    assert(file_views(xs@).take(xs.len() as int) =~= file_views(xs@));
}

fn append_files(f: &mut Vec<FileTouched>, xs: Vec<FileTouched>)
    ensures
        file_views(final(f)@) == file_views(old(f)@) + file_views(xs@),
{
    let ghost start = file_views(f@);
    for i in 0..xs.len()
        invariant
            file_views(f@) == start + file_views(xs@).take(i as int),
    {
        file_views_push(f, xs[i].clone());
        assert(file_views(f@) =~= start + file_views(xs@).take(i + 1));
    }
    assert(file_views(xs@).take(xs.len() as int) =~= file_views(xs@));
}

/// The file operations of one shell command.
fn extract_command_ops(part: &str) -> (r: Vec<FileTouched>)
    ensures
        file_views(r@) == command_ops(words(trimmed(part@))),
{
    let t = trim_text(part);
    let tokens = split_words(t.as_str());
    let ghost w = words(trimmed(part@));
    let mut out: Vec<FileTouched> = Vec::new();
    assert(file_views(out@) =~= Seq::empty());
    if tokens.len() == 0 {
        return out;
    }
    let n: usize = tokens.len();
    assert(w[0] == tokens@[0]@);
    assert(w.last() == tokens@[n - 1]@);
    if same_text(tokens[0].as_str(), "rm") {
        let mut i: usize = 1;
        while i < n
            invariant
                1 <= i <= n,
                n == tokens.len(),
                w == views(tokens@),
                file_views(out@) == removed_paths(w, i as int),
            decreases n - i,
        {
            assert(w[i as int] == tokens@[i as int]@);
            if !starts_with(tokens[i].as_str(), "-") {
                file_views_push(
                    &mut out,
                    FileTouched { path: tokens[i].clone(), action: FileAction::Deleted },
                );
            }
            i += 1;
        }
    } else if same_text(tokens[0].as_str(), "mv") && n >= 3 {
        file_views_push(
            &mut out,
            FileTouched { path: tokens[n - 1].clone(), action: FileAction::Modified },
        );
    } else if same_text(tokens[0].as_str(), "cp") && n >= 3 {
        file_views_push(
            &mut out,
            FileTouched { path: tokens[n - 1].clone(), action: FileAction::Created },
        );
    }
    out
}

fn extract_commands_ops(parts: &Vec<Vec<char>>, Ghost(all): Ghost<Seq<Seq<char>>>) -> (r: Vec<
    FileTouched,
>)
    requires
        parts@.len() == all.len(),
        forall|i: int| 0 <= i < parts@.len() ==> (#[trigger] parts@[i])@ == all[i],
    ensures
        file_views(r@) == commands_ops(all),
{
    let mut out: Vec<FileTouched> = Vec::new();
    assert(file_views(out@) =~= Seq::empty());
    for i in 0..parts.len()
        invariant
            parts@.len() == all.len(),
            forall|i: int| 0 <= i < parts@.len() ==> (#[trigger] parts@[i])@ == all[i],
            file_views(out@) == commands_ops(all.take(i as int)),
    {
        let t = string_of(parts[i].as_slice());
        let ops = extract_command_ops(t.as_str());
        assert(all.take(i + 1).drop_last() =~= all.take(i as int));
        append_files(&mut out, ops);
    }
    assert(all.take(parts.len() as int) =~= all);
    out
}

/// Best-effort extraction of file operations from a shell line.
pub fn extract_bash_command_ops(cmd: &str) -> (r: Vec<FileTouched>)
    ensures
        file_views(r@) == bash_ops(cmd@),
{
    let chars = chars_of(cmd);
    proof {
        reveal_strlit("&&");
        reveal_strlit(";");
    }
    let and_sep = chars_of("&&");
    let semi_sep = chars_of(";");
    let by_and = split_chars(chars.as_slice(), and_sep.as_slice());
    let by_semi = split_chars(chars.as_slice(), semi_sep.as_slice());
    let mut out = extract_commands_ops(&by_and, Ghost(split_on(cmd@, "&&"@)));
    let more = extract_commands_ops(&by_semi, Ghost(split_on(cmd@, ";"@)));
    append_files(&mut out, more);
    out
}

/// Best-effort extraction of file operations from the arguments of a `bash`
/// call.
pub fn extract_bash_file_ops(arguments: &str) -> (r: Vec<FileTouched>)
    ensures
        file_views(r@) == (match json_string(arguments@, "command"@) {
            Some(cmd) => bash_ops(cmd),
            None => Seq::empty(),
        }),
{
    match string_member(arguments, "command") {
        Some(cmd) => extract_bash_command_ops(cmd.as_str()),
        None => {
            let out: Vec<FileTouched> = Vec::new();
            assert(file_views(out@) =~= Seq::empty());
            out
        },
    }
}

fn extract_path_op(arguments: &str, action: FileAction) -> (r: Vec<FileTouched>)
    ensures
        file_views(r@) == path_op(json_string(arguments@, "path"@), action),
{
    let mut out: Vec<FileTouched> = Vec::new();
    assert(file_views(out@) =~= Seq::empty());
    if let Some(path) = string_member(arguments, "path") {
        file_views_push(&mut out, FileTouched { path, action });
    }
    out
}

/// The file operations of one tool call.
fn extract_request_ops(name: &str, arguments: &str) -> (r: Vec<FileTouched>)
    ensures
        file_views(r@) == request_ops(name@, arguments@),
{
    if same_text(name, "read_file") {
        extract_path_op(arguments, FileAction::Read)
    } else if same_text(name, "write_file") {
        extract_path_op(arguments, FileAction::Created)
    } else if same_text(name, "edit_file") {
        extract_path_op(arguments, FileAction::Modified)
    } else if same_text(name, "bash") {
        extract_bash_file_ops(arguments)
    } else {
        let out: Vec<FileTouched> = Vec::new();
        assert(file_views(out@) =~= Seq::empty());
        out
    }
}

/// Extracts the file operations of the tool calls in messages, in order, each
/// once.
pub fn extract_files_touched(messages: &[Message]) -> (r: Vec<FileTouched>)
    ensures
        file_views(r@) == add_all_new(Seq::empty(), message_ops(message_views(messages@))),
{
    let mut out: Vec<FileTouched> = Vec::new();
    assert(file_views(out@) =~= Seq::empty());
    let ghost m = message_views(messages@);
    for i in 0..messages.len()
        invariant
            m == message_views(messages@),
            file_views(out@) == add_all_new(Seq::empty(), message_ops(m.take(i as int))),
    {
        let ghost done = message_ops(m.take(i as int));
        let ghost c = m[i as int].content;
        assert(done + content_ops(c.take(0)) =~= done);
        let count: usize = messages[i].content.len();
        for j in 0..count
            invariant
                i < messages.len(),
                count == messages@[i as int].content@.len(),
                m == message_views(messages@),
                c == m[i as int].content,
                file_views(out@) == add_all_new(
                    Seq::empty(),
                    done + content_ops(c.take(j as int)),
                ),
        {
            assert(c.take(j + 1).drop_last() =~= c.take(j as int));
            assert(c.take(j + 1).last() == messages@[i as int].content@[j as int]@);
            let ghost ops = part_ops(c[j as int]);
            proof {
                add_all_new_concat(Seq::empty(), done + content_ops(c.take(j as int)), ops);
                assert(done + content_ops(c.take(j + 1)) =~= (done + content_ops(c.take(j as int)))
                    + ops);
            }
            if let Content::ToolRequest { name, arguments, .. } = &messages[i].content[j] {
                let found = extract_request_ops(name.as_str(), arguments.as_str());
                add_new_files(&mut out, found);
            }
        }
        assert(c.take(messages@[i as int].content@.len() as int) =~= c);
        assert(m.take(i + 1).drop_last() =~= m.take(i as int));
    }
    assert(m.take(messages.len() as int) =~= m);
    out
}

/// Whether a list of files holds exactly the entries of a map, each path once.
pub open spec fn lists(f: Seq<FileView>, m: Map<Seq<char>, FileAction>) -> bool {
    &&& forall|i: int, j: int|
        0 <= i < j < f.len() ==> (#[trigger] f[i]).path != (#[trigger] f[j]).path
    &&& forall|i: int|
        0 <= i < f.len() ==> m.contains_key((#[trigger] f[i]).path) && m[f[i].path] == f[i].action
    &&& forall|k: Seq<char>| #[trigger]
        m.contains_key(k) ==> exists|i: int| 0 <= i < f.len() && (#[trigger] f[i]).path == k
}

/// The last action recorded for each path.
pub open spec fn last_actions(f: Seq<FileView>) -> Map<Seq<char>, FileAction>
    decreases f.len(),
{
    if f.len() == 0 {
        Map::empty()
    } else {
        last_actions(f.drop_last()).insert(f.last().path, f.last().action)
    }
}

/// The action that stands when another one comes: the later one, but a read
/// does not hide that a file was changed.
pub open spec fn upgraded(known: FileAction, new: FileAction) -> FileAction {
    if new == FileAction::Read {
        known
    } else {
        new
    }
}

/// A map of files with one more file operation.
pub open spec fn touch(m: Map<Seq<char>, FileAction>, x: FileView) -> Map<Seq<char>, FileAction> {
    m.insert(
        x.path,
        if m.contains_key(x.path) {
            upgraded(m[x.path], x.action)
        } else {
            x.action
        },
    )
}

/// A map of files with more file operations, one after the other.
pub open spec fn touch_all(m: Map<Seq<char>, FileAction>, f: Seq<FileView>) -> Map<
    Seq<char>,
    FileAction,
>
    decreases f.len(),
{
    if f.len() == 0 {
        m
    } else {
        touch(touch_all(m, f.drop_last()), f.last())
    }
}

/// Sets the action of a path in a list without repeated paths.
fn put_file(f: &mut Vec<FileTouched>, x: FileTouched, Ghost(m): Ghost<Map<Seq<char>, FileAction>>)
    requires
        lists(file_views(old(f)@), m),
    ensures
        lists(file_views(final(f)@), m.insert(x@.path, x@.action)),
{
    let ghost start = file_views(f@);
    let ghost goal = m.insert(x@.path, x@.action);
    let count: usize = f.len();
    for i in 0..count
        invariant
            count == f@.len(),
            start == file_views(f@),
            lists(start, m),
            goal == m.insert(x@.path, x@.action),
            forall|j: int| 0 <= j < i ==> (#[trigger] start[j]).path != x@.path,
    {
        if same_text(f[i].path.as_str(), x.path.as_str()) {
            assert(start[i as int].path == x@.path);
            f.set(i, x);
            let ghost now = file_views(f@);
            proof {
                assert(now =~= start.update(i as int, x@));
                assert forall|k: Seq<char>| #[trigger] goal.contains_key(k) implies exists|j: int|
                    0 <= j < now.len() && (#[trigger] now[j]).path == k by {
                    if k == x@.path {
                        assert(now[i as int].path == k);
                    } else {
                        assert(m.contains_key(k));
                        let j = choose|j: int| 0 <= j < start.len() && (#[trigger] start[j]).path == k;
                        assert(now[j].path == k);
                    }
                }
            }
            return;
        }
    }
    f.push(x);
    let ghost now = file_views(f@);
    proof {
        assert(now =~= start.push(x@));
        assert(!m.contains_key(x@.path));
        assert forall|k: Seq<char>| #[trigger] goal.contains_key(k) implies exists|j: int|
            0 <= j < now.len() && (#[trigger] now[j]).path == k by {
            if k == x@.path {
                assert(now[start.len() as int].path == k);
            } else {
                assert(m.contains_key(k));
                let j = choose|j: int| 0 <= j < start.len() && (#[trigger] start[j]).path == k;
                assert(now[j].path == k);
            }
        }
    }
}

/// The action recorded for a path.
fn action_of(f: &Vec<FileTouched>, path: &str, Ghost(m): Ghost<Map<Seq<char>, FileAction>>) -> (r:
    Option<FileAction>)
    requires
        lists(file_views(f@), m),
    ensures
        match r {
            Some(a) => m.contains_key(path@) && m[path@] == a,
            None => !m.contains_key(path@),
        },
{
    for i in 0..f.len()
        invariant
            lists(file_views(f@), m),
            forall|j: int| 0 <= j < i ==> (#[trigger] file_views(f@)[j]).path != path@,
    {
        if same_text(f[i].path.as_str(), path) {
            assert(file_views(f@)[i as int].path == path@);
            return Some(f[i].action);
        }
    }
    None
}

/// Merges new file operations into the known ones. Each path occurs once, and
/// later actions take precedence, except that a read is no change of a file
/// and leaves what is known of it.
pub fn merge_files_touched(existing: &[FileTouched], new: &[FileTouched]) -> (r: Vec<FileTouched>)
    ensures
        lists(
            file_views(r@),
            touch_all(last_actions(file_views(existing@)), file_views(new@)),
        ),
{
    let mut out: Vec<FileTouched> = Vec::new();
    let ghost e = file_views(existing@);
    let ghost n = file_views(new@);
    assert(lists(file_views(out@), last_actions(e.take(0))));
    for i in 0..existing.len()
        invariant
            e == file_views(existing@),
            lists(file_views(out@), last_actions(e.take(i as int))),
    {
        assert(e.take(i + 1).drop_last() =~= e.take(i as int));
        assert(e.take(i + 1).last() == existing@[i as int]@);
        put_file(&mut out, existing[i].clone(), Ghost(last_actions(e.take(i as int))));
    }
    assert(e.take(existing.len() as int) =~= e);
    let ghost base = last_actions(e);
    assert(touch_all(base, n.take(0)) == base);
    for i in 0..new.len()
        invariant
            n == file_views(new@),
            lists(file_views(out@), touch_all(base, n.take(i as int))),
    {
        let ghost m = touch_all(base, n.take(i as int));
        assert(n.take(i + 1).drop_last() =~= n.take(i as int));
        assert(n.take(i + 1).last() == new@[i as int]@);
        let action = match action_of(&out, new[i].path.as_str(), Ghost(m)) {
            Some(known) => if new[i].action == FileAction::Read {
                known
            } else {
                new[i].action
            },
            None => new[i].action,
        };
        put_file(&mut out, FileTouched { path: new[i].path.clone(), action }, Ghost(m));
    }
    assert(n.take(new.len() as int) =~= n);
    out
}

/// The lines of a list of files.
pub open spec fn file_lines(f: Seq<FileView>) -> Seq<char>
    decreases f.len(),
{
    if f.len() == 0 {
        Seq::empty()
    } else {
        file_lines(f.drop_last()) + "- "@ + f.last().action.name() + ": "@ + f.last().path + "\n"@
    }
}

/// The prompt that asks for a summary.
pub open spec fn summary_prompt(previous: Option<Seq<char>>, f: Seq<FileView>) -> Seq<char> {
    let head = match previous {
        Some(prev) => UPDATE_SUMMARY_PROMPT_PREFIX@ + prev + UPDATE_SUMMARY_PROMPT_SUFFIX@,
        None => FIRST_SUMMARY_PROMPT@,
    };
    if f.len() == 0 {
        head
    } else {
        head + FILES_TOUCHED_PREFIX@ + file_lines(f) + FILES_TOUCHED_SUFFIX@
    }
}

/// Builds the prompt that asks for a summary, with the list of files.
pub fn build_summary_prompt(previous_summary: Option<&str>, files_touched: &[FileTouched]) -> (r:
    String)
    ensures
        r@ == summary_prompt(opt_str_view(previous_summary), file_views(files_touched@)),
{
    let mut prompt = match previous_summary {
        Some(prev) => crate::text::cat3(
            UPDATE_SUMMARY_PROMPT_PREFIX,
            prev,
            UPDATE_SUMMARY_PROMPT_SUFFIX,
        ),
        None => FIRST_SUMMARY_PROMPT.to_owned(),
    };
    if files_touched.len() > 0 {
        let ghost f = file_views(files_touched@);
        let mut list = String::new();
        for i in 0..files_touched.len()
            invariant
                f == file_views(files_touched@),
                list@ == file_lines(f.take(i as int)),
        {
            assert(f.take(i + 1).drop_last() =~= f.take(i as int));
            assert(f.take(i + 1).last() == files_touched@[i as int]@);
            list.append("- ");
            list.append(files_touched[i].action.text());
            list.append(": ");
            list.append(files_touched[i].path.as_str());
            list.append("\n");
        }
        assert(f.take(files_touched.len() as int) =~= f);
        prompt.append(FILES_TOUCHED_PREFIX);
        prompt.append(list.as_str());
        prompt.append(FILES_TOUCHED_SUFFIX);
    }
    prompt
}

/// The parts of a message without the tool calls that have no result among
/// `results`.
pub open spec fn kept_parts(c: Seq<ContentView>, results: Seq<ContentView>) -> Seq<ContentView>
    decreases c.len(),
{
    if c.len() == 0 {
        Seq::empty()
    } else {
        let rest = kept_parts(c.drop_last(), results);
        match c.last() {
            ContentView::ToolRequest { id, .. } => if answers(results, id) {
                rest.push(c.last())
            } else {
                rest
            },
            x => rest.push(x),
        }
    }
}

/// The tool results that can answer message `i`: the parts of the user message
/// right behind it.
pub open spec fn reply_parts(m: Seq<MessageView>, i: int) -> Seq<ContentView> {
    if i + 1 < m.len() && m[i + 1].role == Role::User {
        m[i + 1].content
    } else {
        Seq::empty()
    }
}

/// What is left of message `i`: itself, or for an assistant message with tool
/// calls the parts that are answered, or nothing where no part is left.
pub open spec fn stripped_one(m: Seq<MessageView>, i: int) -> Seq<MessageView> {
    if m[i].role == Role::Assistant && has_requests(m[i]) {
        let kept = kept_parts(m[i].content, reply_parts(m, i));
        if kept.len() == 0 {
            Seq::empty()
        } else {
            seq![MessageView { role: Role::Assistant, content: kept }]
        }
    } else {
        seq![m[i]]
    }
}

/// What is left of the messages from position `i` on.
pub open spec fn stripped_from(m: Seq<MessageView>, i: int) -> Seq<MessageView>
    decreases m.len() - i,
{
    if i < 0 || i >= m.len() {
        Seq::empty()
    } else {
        stripped_one(m, i) + stripped_from(m, i + 1)
    }
}

fn keep_answered(c: &Vec<Content>, results: &Vec<Content>) -> (r: Vec<Content>)
    ensures
        content_views(r@) == kept_parts(content_views(c@), content_views(results@)),
{
    let mut out: Vec<Content> = Vec::new();
    assert(content_views(out@) =~= Seq::empty());
    let ghost v = content_views(c@);
    for i in 0..c.len()
        invariant
            v == content_views(c@),
            content_views(out@) == kept_parts(v.take(i as int), content_views(results@)),
    {
        assert(v.take(i + 1).drop_last() =~= v.take(i as int));
        assert(v.take(i + 1).last() == c@[i as int]@);
        let keep = match &c[i] {
            Content::ToolRequest { id, .. } => has_result_for(results, id.as_str()),
            _ => true,
        };
        if keep {
            let ghost before = out@;
            let x = c[i].clone();
            out.push(x);
            proof {
                content_views_push(before, x);
            }
        }
    }
    assert(v.take(c.len() as int) =~= v);
    out
}

/// Builds the messages of a summarization call.
///
/// Every tool call of an assistant message is kept only with its result in
/// the user message right behind it; calls without one, such as those of
/// cancelled turns, are stripped, and so are messages that this leaves empty.
/// The last message is the summary prompt.
pub fn prepare_compaction_messages(
    messages: &[Message],
    previous_summary: Option<&str>,
    files_touched: &[FileTouched],
) -> (r: Vec<Message>)
    ensures
        message_views(r@) == stripped_from(message_views(messages@), 0).push(
            user_text(summary_prompt(opt_str_view(previous_summary), file_views(files_touched@))),
        ),
{
    let ghost m = message_views(messages@);
    let mut out: Vec<Message> = Vec::new();
    assert(message_views(out@) + stripped_from(m, 0) =~= stripped_from(m, 0));
    for i in 0..messages.len()
        invariant
            m == message_views(messages@),
            message_views(out@) + stripped_from(m, i as int) == stripped_from(m, 0),
    {
        let ghost before = out@;
        let ghost rest = stripped_from(m, i + 1);
        assert(m[i as int] == messages@[i as int]@);
        if messages[i].role == Role::Assistant && messages[i].has_tool_requests() {
            let empty: Vec<Content> = Vec::new();
            assert(content_views(empty@) =~= Seq::empty());
            let kept = if i + 1 < messages.len() && messages[i + 1].role == Role::User {
                assert(m[i + 1] == messages@[i + 1]@);
                keep_answered(&messages[i].content, &messages[i + 1].content)
            } else {
                keep_answered(&messages[i].content, &empty)
            };
            if kept.len() > 0 {
                let x = Message { role: Role::Assistant, content: kept };
                out.push(x);
                proof {
                    message_views_push(before, x);
                    assert(stripped_one(m, i as int) =~= seq![x@]);
                }
            } else {
                assert(stripped_one(m, i as int) =~= Seq::empty());
            }
        } else {
            let x = messages[i].clone();
            out.push(x);
            proof {
                message_views_push(before, x);
                assert(stripped_one(m, i as int) =~= seq![x@]);
            }
        }
        assert(message_views(out@) =~= message_views(before) + stripped_one(m, i as int));
        assert(message_views(out@) + rest =~= message_views(before) + (stripped_one(m, i as int)
            + rest));
    }
    assert(stripped_from(m, messages.len() as int) =~= Seq::empty());
    assert(message_views(out@) =~= stripped_from(m, 0));
    let prompt = build_summary_prompt(previous_summary, files_touched);
    let last = Message::user_saying(prompt.as_str());
    let ghost before = out@;
    out.push(last);
    proof {
        message_views_push(before, last);
    }
    out
}

proof fn kept_parts_are_answered(c: Seq<ContentView>, results: Seq<ContentView>)
    ensures
        forall|k: int|
            0 <= k < kept_parts(c, results).len() && (#[trigger] kept_parts(c, results)[k]) is ToolRequest
                ==> answers(results, kept_parts(c, results)[k]->ToolRequest_id),
    decreases c.len(),
{
    if c.len() > 0 {
        kept_parts_are_answered(c.drop_last(), results);
        let rest = kept_parts(c.drop_last(), results);
        let all = kept_parts(c, results);
        assert forall|k: int| 0 <= k < all.len() && (#[trigger] all[k]) is ToolRequest implies answers(
            results,
            all[k]->ToolRequest_id,
        ) by {
            if k < rest.len() {
                assert(all[k] == rest[k]);
            }
        }
    }
}

proof fn stripped_from_paired(m: Seq<MessageView>, i: int)
    requires
        0 <= i <= m.len(),
    ensures
        paired(stripped_from(m, i)),
    decreases m.len() - i,
{
    if i < m.len() {
        stripped_from_paired(m, i + 1);
        let rest = stripped_from(m, i + 1);
        let one = stripped_one(m, i);
        let all = stripped_from(m, i);
        assert forall|k: int| 0 <= k < all.len() implies #[trigger] answered(all, k) by {
            if k >= one.len() {
                answered_shift(one, rest, k - one.len());
            } else {
                assert(all[k] == one[k]);
                if all[k].role == Role::Assistant && has_requests(all[k]) {
                    let results = reply_parts(m, i);
                    kept_parts_are_answered(m[i].content, results);
                    let q = choose|q: int|
                        0 <= q < all[k].content.len() && #[trigger] all[k].content[q] is ToolRequest;
                    assert(answers(results, all[k].content[q]->ToolRequest_id));
                    assert(stripped_one(m, i + 1) =~= seq![m[i + 1]]);
                    assert(rest[0] == m[i + 1]);
                    assert(all[k + 1] == rest[0]);
                }
            }
        }
    }
}

/// Every tool call that is sent for summarization is answered in the message
/// right behind it, whatever the history looked like.
pub proof fn prepared_messages_are_paired(m: Seq<MessageView>, prompt: Seq<char>)
    ensures
        paired(stripped_from(m, 0).push(user_text(prompt))),
{
    stripped_from_paired(m, 0);
    paired_push_user(stripped_from(m, 0), user_text(prompt));
}

/// Persisted compaction state for a session.
#[derive(Debug, PartialEq, Eq)]
pub struct CompactionState {
    pub summary: String,
    pub files_touched: Vec<FileTouched>,
    pub compaction_count: u32,
    pub tokens_at_compaction: u32,
    /// Seconds since the Unix epoch.
    pub created_at: i64,
    pub messages_at_compaction: Option<usize>,
}

impl Clone for CompactionState {
    fn clone(&self) -> (r: Self)
        ensures
            r@ == self@,
    {
        CompactionState {
            summary: self.summary.clone(),
            files_touched: copy_files(&self.files_touched),
            compaction_count: self.compaction_count,
            tokens_at_compaction: self.tokens_at_compaction,
            created_at: self.created_at,
            messages_at_compaction: self.messages_at_compaction,
        }
    }
}

/// What a [`CompactionState`] stands for.
#[verifier::ext_equal]
pub struct StateView {
    pub summary: Seq<char>,
    pub files_touched: Seq<FileView>,
    pub compaction_count: u32,
    pub tokens_at_compaction: u32,
    pub created_at: i64,
    pub messages_at_compaction: Option<usize>,
}

impl View for CompactionState {
    type V = StateView;

    open spec fn view(&self) -> StateView {
        StateView {
            summary: self.summary@,
            files_touched: file_views(self.files_touched@),
            compaction_count: self.compaction_count,
            tokens_at_compaction: self.tokens_at_compaction,
            created_at: self.created_at,
            messages_at_compaction: self.messages_at_compaction,
        }
    }
}

/// The view of an optional state.
pub open spec fn opt_state_view(s: Option<CompactionState>) -> Option<StateView> {
    match s {
        Some(s) => Some(s@),
        None => None,
    }
}

/// The view of an optional borrowed state.
pub open spec fn opt_state_ref_view(s: Option<&CompactionState>) -> Option<StateView> {
    match s {
        Some(s) => Some(s@),
        None => None,
    }
}

/// The messages that a compaction summarizes: without a previous state those
/// before the cut; with one those between the previous cut and the new one,
/// or the five before the cut where the cut did not move forward.
pub open spec fn summarized(cut: int, previous: Option<StateView>) -> (int, int) {
    match previous {
        None => (0, cut),
        Some(prev) => {
            let old_cut = match prev.messages_at_compaction {
                Some(n) => n as int,
                None => 0,
            };
            if old_cut < cut {
                (old_cut, cut)
            } else {
                (if cut > 5 { cut - 5 } else { 0 }, cut)
            }
        },
    }
}

/// What a compaction has to do.
#[derive(Debug, PartialEq, Eq)]
pub enum CompactionPlan {
    /// There is nothing to summarize: the previous state stands.
    Reuse { state: CompactionState },
    /// Ask the provider to summarize.
    Summarize {
        cut_point: usize,
        messages: Vec<Message>,
        files: Vec<FileTouched>,
    },
}

/// Decides what a compaction has to do: which messages it summarizes and what
/// it sends to the provider.
pub fn plan_compaction(
    messages: &[Message],
    previous: Option<&CompactionState>,
    target_tokens: u32,
    now: i64,
) -> (r: CompactionPlan)
    requires
        target_tokens * 4 <= u32::MAX,
    ensures
        ({
            let m = message_views(messages@);
            let prev = opt_state_ref_view(previous);
            let cut = cut_point(m, target_tokens * 4);
            let (from, to) = summarized(cut, prev);
            match r {
                CompactionPlan::Reuse { state } => prev is Some && from == to && state@ == (StateView {
                    created_at: now,
                    messages_at_compaction: Some(cut as usize),
                    ..prev->0
                }),
                CompactionPlan::Summarize { cut_point: c, messages: sent, files } => {
                    &&& prev is None || from < to
                    &&& c == cut
                    &&& lists(
                        file_views(files@),
                        touch_all(
                            match prev {
                                Some(p) => last_actions(p.files_touched),
                                None => Map::empty(),
                            },
                            add_all_new(Seq::empty(), message_ops(m.subrange(from, to))),
                        ),
                    )
                    &&& message_views(sent@) == stripped_from(m.subrange(from, to), 0).push(
                        user_text(
                            summary_prompt(
                                match prev {
                                    Some(p) => Some(p.summary),
                                    None => None,
                                },
                                file_views(files@),
                            ),
                        ),
                    )
                },
            }
        }),
{
    let cut = find_cut_point_for(messages, target_tokens);
    let from: usize = match previous {
        None => 0,
        Some(prev) => {
            let old_cut: usize = match prev.messages_at_compaction {
                Some(n) => n,
                None => 0,
            };
            if old_cut < cut {
                old_cut
            } else if cut > 5 {
                cut - 5
            } else {
                0
            }
        },
    };
    if from == cut {
        if let Some(prev) = previous {
            let state = prev.clone();
            return CompactionPlan::Reuse {
                state: CompactionState {
                    summary: state.summary,
                    files_touched: state.files_touched,
                    compaction_count: state.compaction_count,
                    tokens_at_compaction: state.tokens_at_compaction,
                    created_at: now,
                    messages_at_compaction: Some(cut),
                },
            };
        }
    }
    let part = copy_messages(messages, from, cut);
    let new_files = extract_files_touched(part.as_slice());
    let no_files: Vec<FileTouched> = Vec::new();
    let files = match previous {
        Some(prev) => merge_files_touched(prev.files_touched.as_slice(), new_files.as_slice()),
        None => {
            assert(file_views(no_files@) =~= Seq::empty());
            merge_files_touched(no_files.as_slice(), new_files.as_slice())
        },
    };
    let summary: Option<&str> = match previous {
        Some(prev) => Some(prev.summary.as_str()),
        None => None,
    };
    let sent = prepare_compaction_messages(part.as_slice(), summary, files.as_slice());
    CompactionPlan::Summarize { cut_point: cut, messages: sent, files }
}

/// The tokens of a summarization call: everything read and written.
pub open spec fn call_tokens(u: Usage) -> int {
    count(u.input_tokens) + count(u.cache_read_tokens) + count(u.cache_write_tokens) + count(
        u.output_tokens,
    )
}

/// The state after a summarization call: the summary is the text of the
/// response, its text parts on lines of their own.
pub fn finish_compaction(
    previous: Option<&CompactionState>,
    cut_point: usize,
    files: Vec<FileTouched>,
    response: &Message,
    usage: &Usage,
    now: i64,
) -> (r: CompactionState)
    requires
        call_tokens(*usage) <= u32::MAX,
        previous matches Some(prev) ==> prev.compaction_count < u32::MAX,
    ensures
        r@ == (StateView {
            summary: joined(texts_in(response@.content), "\n"@),
            files_touched: file_views(files@),
            compaction_count: match previous {
                Some(prev) => (prev.compaction_count + 1) as u32,
                None => 1,
            },
            tokens_at_compaction: call_tokens(*usage) as u32,
            created_at: now,
            messages_at_compaction: Some(cut_point),
        }),
{
    let mut texts: Vec<String> = Vec::new();
    assert(views(texts@) =~= Seq::empty());
    for i in 0..response.content.len()
        invariant
            views(texts@) == texts_in(response@.content.take(i as int)),
    {
        assert(response@.content.take(i + 1).drop_last() =~= response@.content.take(i as int));
        assert(response@.content.take(i + 1).last() == response.content@[i as int]@);
        if let Content::Text { text } = &response.content[i] {
            let ghost before = views(texts@);
            texts.push(text.clone());
            assert(views(texts@) =~= before.push(text@));
        }
    }
    assert(response@.content.take(response.content.len() as int) =~= response@.content);
    let total: u32 = count_of(usage.input_tokens) + count_of(usage.cache_read_tokens) + count_of(
        usage.cache_write_tokens,
    ) + count_of(usage.output_tokens);
    CompactionState {
        summary: join_texts(&texts, "\n"),
        files_touched: files,
        compaction_count: match previous {
            Some(prev) => prev.compaction_count + 1,
            None => 1,
        },
        tokens_at_compaction: total,
        created_at: now,
        messages_at_compaction: Some(cut_point),
    }
}

/// The messages a provider is sent: all of them, or where there is a
/// compaction state the summary and the messages behind the cut, from the
/// first that is not a user's.
pub open spec fn provider_context(
    m: Seq<MessageView>,
    state: Option<StateView>,
    cut: int,
) -> Seq<MessageView> {
    match state {
        None => m,
        Some(s) => if cut >= m.len() {
            seq![user_text(s.summary)]
        } else {
            seq![user_text(s.summary)] + m.skip(past_users(m, cut))
        },
    }
}

/// Builds the messages for a provider call.
pub fn build_provider_context(
    all_messages: &[Message],
    compaction: Option<&CompactionState>,
    messages_before_compaction: usize,
) -> (r: Vec<Message>)
    ensures
        message_views(r@) == provider_context(
            message_views(all_messages@),
            opt_state_ref_view(compaction),
            messages_before_compaction as int,
        ),
{
    let ghost m = message_views(all_messages@);
    match compaction {
        None => {
            let r = copy_messages(all_messages, 0, all_messages.len());
            assert(m.subrange(0, m.len() as int) =~= m);
            r
        },
        Some(state) => {
            let mut out: Vec<Message> = Vec::new();
            let first = Message::user_saying(state.summary.as_str());
            out.push(first);
            assert(message_views(out@) =~= seq![user_text(state.summary@)]);
            if messages_before_compaction < all_messages.len() {
                let start = safe_cut_start(all_messages, messages_before_compaction);
                let mut rest = copy_messages(all_messages, start, all_messages.len());
                assert(message_views(rest@) =~= m.skip(start as int));
                let ghost a = out@;
                let ghost b = rest@;
                out.append(&mut rest);
                assert(out@ =~= a + b);
                assert(message_views(out@) =~= message_views(a) + message_views(b));
            }
            out
        },
    }
}

proof fn past_users_bounds(m: Seq<MessageView>, i: int)
    requires
        0 <= i <= m.len(),
    ensures
        i <= past_users(m, i) <= m.len(),
        past_users(m, i) < m.len() ==> m[past_users(m, i)].role == Role::Assistant,
    decreases m.len() - i,
{
    if i < m.len() && m[i].role == Role::User {
        past_users_bounds(m, i + 1);
    }
}

/// Behind the summary the context starts with an assistant message: roles
/// alternate, and no tool result comes without its call.
pub proof fn context_starts_with_assistant(m: Seq<MessageView>, state: StateView, cut: int)
    requires
        0 <= cut,
    ensures
        ({
            let c = provider_context(m, Some(state), cut);
            &&& c.len() >= 1
            &&& c[0] == user_text(state.summary)
            &&& c.len() > 1 ==> c[1].role == Role::Assistant
        }),
{
    if cut < m.len() {
        past_users_bounds(m, cut);
    }
}

/// A history in which every tool call is answered stays so when it is
/// compacted.
pub proof fn context_stays_paired(m: Seq<MessageView>, state: Option<StateView>, cut: int)
    requires
        paired(m),
        0 <= cut,
    ensures
        paired(provider_context(m, state, cut)),
{
    if let Some(s) = state {
        let head = seq![user_text(s.summary)];
        assert(!has_requests(head[0])) by {
            assert(head[0].content[0] is Text);
        }
        if cut < m.len() {
            past_users_bounds(m, cut);
            let start = past_users(m, cut);
            let rest = m.skip(start);
            assert(m =~= m.take(start) + rest);
            let t = head + rest;
            assert forall|k: int| 0 <= k < t.len() implies #[trigger] answered(t, k) by {
                if k >= 1 {
                    assert(answered(m, start + k - 1));
                    assert(t[k] == m[start + k - 1]);
                    if k + 1 < t.len() {
                        assert(t[k + 1] == m[start + k]);
                    }
                }
            }
        }
    }
}

/// The cut point keeps whole exchanges together: it lies at an assistant
/// message, past the end, or at zero.
pub proof fn cut_point_is_aligned(m: Seq<MessageView>, target: int)
    ensures
        ({
            let c = cut_point(m, target);
            0 <= c <= m.len() && (c == 0 || c == m.len() || m[c].role == Role::Assistant)
        }),
{
    reach_from_bounds(m, m.len() - 1, target);
    if let Some(i) = reach_from(m, m.len() - 1, target) {
        past_users_bounds(m, i);
    }
}

proof fn reach_from_bounds(m: Seq<MessageView>, i: int, target: int)
    ensures
        reach_from(m, i, target) matches Some(k) ==> 0 <= k <= i && size_from(m, k) >= target,
    decreases i + 1,
{
    if i >= 0 && size_from(m, i) < target {
        reach_from_bounds(m, i - 1, target);
    }
}

/// Merging never forgets a file, and never takes a change back to a read.
pub proof fn merging_never_downgrades(m: Map<Seq<char>, FileAction>, f: Seq<FileView>, k: Seq<char>)
    requires
        m.contains_key(k),
    ensures
        touch_all(m, f).contains_key(k),
        m[k] != FileAction::Read ==> touch_all(m, f)[k] != FileAction::Read,
    decreases f.len(),
{
    if f.len() > 0 {
        merging_never_downgrades(m, f.drop_last(), k);
    }
}

/// Later actions take precedence: after a merge the action of a path is the
/// last one among the new operations on it that is not a read.
pub proof fn later_actions_take_precedence(
    m: Map<Seq<char>, FileAction>,
    f: Seq<FileView>,
    i: int,
)
    requires
        0 <= i < f.len(),
        f[i].action != FileAction::Read,
        forall|j: int|
            i < j < f.len() && (#[trigger] f[j]).path == f[i].path ==> f[j].action
                == FileAction::Read,
    ensures
        touch_all(m, f).contains_key(f[i].path),
        touch_all(m, f)[f[i].path] == f[i].action,
    decreases f.len(),
{
    if i < f.len() - 1 {
        assert(f[f.len() - 1] == f.last());
        assert forall|j: int|
            i < j < f.drop_last().len() && (#[trigger] f.drop_last()[j]).path
                == f.drop_last()[i].path implies f.drop_last()[j].action == FileAction::Read by {
            assert(f.drop_last()[j] == f[j]);
        }
        later_actions_take_precedence(m, f.drop_last(), i);
    }
}

/// The text that speaks of the files in a prompt: nothing where there are none.
pub open spec fn file_block(f: Seq<FileView>) -> Seq<char> {
    if f.len() == 0 {
        Seq::empty()
    } else {
        FILES_TOUCHED_PREFIX@ + file_lines(f) + FILES_TOUCHED_SUFFIX@
    }
}

/// The list of files in a prompt, between its tags.
pub open spec fn tagged_files(f: Seq<FileView>) -> Seq<char> {
    "<files_touched>\n"@ + file_lines(f) + "</files_touched>"@
}

/// A previous summary in a prompt, between its tags.
pub open spec fn tagged_summary(previous: Seq<char>) -> Seq<char> {
    "<previous_summary>\n"@ + previous + "\n</previous_summary>"@
}

/// The prompt with files is the prompt without them, followed by the list of
/// the files, one line for each in their order.
pub proof fn prompt_ends_with_files(previous: Option<Seq<char>>, f: Seq<FileView>)
    ensures
        summary_prompt(previous, f) == summary_prompt(previous, Seq::empty()) + file_block(f),
        f.len() > 0 ==> has_text(file_block(f), tagged_files(f)),
{
    assert(summary_prompt(previous, f) =~= summary_prompt(previous, Seq::empty()) + file_block(f));
    if f.len() > 0 {
        reveal_strlit("\n\nAdditionally, here are the files that were read or modified during this work:\n<files_touched>\n");
        reveal_strlit(
            "</files_touched>\nInclude this file list in your summary under a \"Files Touched\" section.",
        );
        reveal_strlit("<files_touched>\n");
        reveal_strlit("</files_touched>");
        let t = tagged_files(f);
        assert(file_block(f).subrange(80, 80int + t.len()) =~= t);
        assert(occurs_at(file_block(f), t, 80));
    }
}

/// A prompt that updates a summary shows the summary between its tags and asks
/// for the update.
pub proof fn update_prompt_shows_previous(previous: Seq<char>)
    ensures
        has_text(summary_prompt(Some(previous), Seq::empty()), tagged_summary(previous)),
        has_text(summary_prompt(Some(previous), Seq::empty()), "Update the summary"@),
{
    reveal_strlit("Here is your previous continuation summary:\n<previous_summary>\n");
    reveal_strlit("\n</previous_summary>\n\n\
The following new conversation has occurred since that summary was written.\n\
Update the summary to incorporate the new information. Preserve important\n\
details from the previous summary. Do NOT regenerate from scratch — merge\n\
the new information into the existing summary structure.\n\
Your updated summary should include:\n\
1. Task Overview — Updated with any new goals or constraints\n\
2. Current State — Updated with new completions, files created/modified/analyzed\n\
3. Important Discoveries — Merge new findings with previous ones\n\
4. Next Steps — Updated priority list\n\
5. Context to Preserve — Updated preferences, promises\n\
6. Files Touched — Complete list of all files read, created, modified, or deleted across both the previous summary and the new work\n\
Wrap your summary in <summary></summary> tags.");
    reveal_strlit("<previous_summary>\n");
    reveal_strlit("\n</previous_summary>");
    reveal_strlit("Update the summary");
    let p = summary_prompt(Some(previous), Seq::empty());
    let t = tagged_summary(previous);
    assert(p.subrange(44, 44int + t.len()) =~= t);
    assert(occurs_at(p, t, 44));
    let u = "Update the summary"@;
    let i: int = UPDATE_SUMMARY_PROMPT_PREFIX@.len() + previous.len() + 98int;
    assert(p.subrange(i, i + u.len()) =~= u);
    assert(occurs_at(p, u, i));
}

/// Whether no `a` from one position up to another has a `b` right behind it.
spec fn lacks_pair(s: Seq<char>, a: char, b: char, from: int, to: int) -> bool
    decreases to - from,
{
    if to <= from {
        true
    } else if to == from + 1 {
        s[from] == a ==> s[from + 1] != b
    } else {
        lacks_pair(s, a, b, from, (from + to) / 2) && lacks_pair(s, a, b, (from + to) / 2, to)
    }
}

proof fn lacks_pair_at(s: Seq<char>, a: char, b: char, from: int, to: int, i: int)
    requires
        lacks_pair(s, a, b, from, to),
        from <= i < to,
        s[i] == a,
    ensures
        s[i + 1] != b,
    decreases to - from,
{
    if to > from + 1 {
        if i < (from + to) / 2 {
            lacks_pair_at(s, a, b, from, (from + to) / 2, i);
        } else {
            lacks_pair_at(s, a, b, (from + to) / 2, to, i);
        }
    }
}

#[verifier::rlimit(100)]
proof fn first_prompt_text()
    ensures
        occurs_at(FIRST_SUMMARY_PROMPT@, "continuation summary"@, 89),
        lacks_pair(FIRST_SUMMARY_PROMPT@, '<', 'p', 0, FIRST_SUMMARY_PROMPT@.len() - 1),
{
    let p = FIRST_SUMMARY_PROMPT@;
    let c = "continuation summary"@;
    reveal_strlit("continuation summary");
    reveal_strlit("You have been working on the task described above but have not yet completed it. Write a continuation summary that will allow you (or another instance of yourself) to resume work efficiently in a future context window where the conversation history will be replaced with this summary. Your summary should be structured, concise, and actionable. Include:\n\
1. Task Overview — The user's core request and success criteria, any clarifications or constraints\n\
2. Current State — What has been completed, files created/modified/analyzed (with paths), key outputs\n\
3. Important Discoveries — Technical constraints, decisions made and rationale, errors and resolutions, approaches that didn't work\n\
4. Next Steps — Specific actions needed, blockers or open questions, priority order\n\
5. Context to Preserve — User preferences, domain-specific details, promises made\n\
6. Files Touched — List all files that were read, created, modified, or deleted, with their paths and the action taken\n\
Be concise but complete—err on the side of including information that would prevent duplicate work or repeated mistakes. Write in a way that enables immediate resumption of the task.\n\
Wrap your summary in <summary></summary> tags.");
    assert(p.subrange(89, 89int + c.len()) =~= c);
    reveal_with_fuel(lacks_pair, 12);
}

/// The prompt for a first summary asks for a continuation summary and shows no
/// previous one.
pub proof fn first_prompt_shows_no_previous()
    ensures
        has_text(summary_prompt(None, Seq::empty()), "continuation summary"@),
        !has_text(summary_prompt(None, Seq::empty()), "<previous_summary>"@),
{
    let p = FIRST_SUMMARY_PROMPT@;
    let t = "<previous_summary>"@;
    first_prompt_text();
    reveal_strlit("<previous_summary>");
    assert forall|i: int| !#[trigger] occurs_at(p, t, i) by {
        if occurs_at(p, t, i) {
            assert(p[i] == p.subrange(i, i + t.len())[0]);
            assert(p[i + 1] == p.subrange(i, i + t.len())[1]);
            lacks_pair_at(p, '<', 'p', 0, p.len() - 1, i);
        }
    }
}

} // verus!
