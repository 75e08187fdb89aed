//! Suppression of scheduled replies that say there is nothing to do.
//!
//! When an `as_needed` cron responds with only `NO_ACTION_NEEDED` (or the
//! legacy `HEARTBEAT_OK`), possibly wrapped in markdown or white space, the
//! response is suppressed and not delivered.
use vstd::prelude::*;

use crate::text::{
    after_prefix, before_suffix, cat3, contains_text, drop_leading, drop_trailing, has_text,
    has_text_in_part, lines, occurs_at, same_text, split_lines, starts_with, strip_prefix_text,
    strip_suffix_text, trim_end_text, trim_start_text, trim_text, trimmed, trimmed_fixed,
    trimmed_shape, views, CharClass,
};

verus! {

/// The token that says nothing needs to be delivered.
pub const NO_ACTION_NEEDED_TOKEN: &'static str = "NO_ACTION_NEEDED";

/// The token that said the same in earlier prompts.
pub const LEGACY_HEARTBEAT_OK_TOKEN: &'static str = "HEARTBEAT_OK";

/// What becomes of a scheduled response.
#[derive(Debug, PartialEq, Eq)]
pub enum SuppressionTokenResult {
    /// The response was only a suppression token. Suppress delivery.
    Suppress,
    /// There is real content to deliver.
    Deliver(String),
}

/// The content that a decision delivers.
pub open spec fn delivered(r: SuppressionTokenResult) -> Option<Seq<char>> {
    match r {
        SuppressionTokenResult::Suppress => None,
        SuppressionTokenResult::Deliver(s) => Some(s@),
    }
}

/// A token between two copies of a markdown mark.
pub open spec fn wrapped(token: Seq<char>, mark: Seq<char>) -> Seq<char> {
    mark + token + mark
}

/// What stands between two copies of a mark that open and close a text.
pub open spec fn inside(s: Seq<char>, mark: Seq<char>) -> Option<Seq<char>> {
    match after_prefix(s, mark) {
        Some(rest) => before_suffix(rest, mark),
        None => None,
    }
}

/// A text without the markdown mark (`**`, `*` or a backtick) around it.
pub open spec fn without_markdown(s: Seq<char>) -> Seq<char> {
    if inside(s, "**"@) is Some {
        trimmed(inside(s, "**"@)->0)
    } else if inside(s, "*"@) is Some {
        trimmed(inside(s, "*"@)->0)
    } else if inside(s, "`"@) is Some {
        trimmed(inside(s, "`"@)->0)
    } else {
        s
    }
}

/// What follows a token, bare or in markdown, at the beginning of a text.
pub open spec fn after_token(t: Seq<char>, token: Seq<char>) -> Option<Seq<char>> {
    if after_prefix(t, token) is Some {
        after_prefix(t, token)
    } else if after_prefix(t, wrapped(token, "**"@)) is Some {
        after_prefix(t, wrapped(token, "**"@))
    } else if after_prefix(t, wrapped(token, "*"@)) is Some {
        after_prefix(t, wrapped(token, "*"@))
    } else {
        after_prefix(t, wrapped(token, "`"@))
    }
}

/// What precedes a token, bare or in markdown, at the end of a text.
pub open spec fn before_token(t: Seq<char>, token: Seq<char>) -> Option<Seq<char>> {
    if before_suffix(t, token) is Some {
        before_suffix(t, token)
    } else if before_suffix(t, wrapped(token, "**"@)) is Some {
        before_suffix(t, wrapped(token, "**"@))
    } else if before_suffix(t, wrapped(token, "*"@)) is Some {
        before_suffix(t, wrapped(token, "*"@))
    } else {
        before_suffix(t, wrapped(token, "`"@))
    }
}

/// A text without its leading separators and the white space after them.
pub open spec fn without_leading_punctuation(s: Seq<char>) -> Seq<char> {
    drop_leading(drop_leading(s, CharClass::Separator), CharClass::WhiteSpace)
}

/// A text without a token at its beginning.
pub open spec fn without_token_at_start(text: Seq<char>, token: Seq<char>) -> Seq<char> {
    match after_token(drop_leading(text, CharClass::WhiteSpace), token) {
        Some(rest) => without_leading_punctuation(rest),
        None => text,
    }
}

/// A text without a token at its end.
pub open spec fn without_token_at_end(text: Seq<char>, token: Seq<char>) -> Seq<char> {
    match before_token(drop_trailing(text, CharClass::WhiteSpace), token) {
        Some(rest) => drop_trailing(rest, CharClass::WhiteSpace),
        None => text,
    }
}

/// Whether a text is one of the suppression tokens.
pub open spec fn is_token(s: Seq<char>) -> bool {
    s == NO_ACTION_NEEDED_TOKEN@ || s == LEGACY_HEARTBEAT_OK_TOKEN@
}

/// A text without suppression tokens at its edges, trimmed.
pub open spec fn without_edge_tokens(text: Seq<char>) -> Seq<char> {
    let a = without_token_at_start(trimmed(text), NO_ACTION_NEEDED_TOKEN@);
    let b = without_token_at_start(a, LEGACY_HEARTBEAT_OK_TOKEN@);
    let c = without_token_at_end(b, NO_ACTION_NEEDED_TOKEN@);
    trimmed(without_token_at_end(c, LEGACY_HEARTBEAT_OK_TOKEN@))
}

/// What is delivered of a response, if anything is.
pub open spec fn deliverable(text: Seq<char>) -> Option<Seq<char>> {
    if trimmed(text).len() == 0 || is_token(without_markdown(trimmed(text)))
        || without_edge_tokens(text).len() == 0 {
        None
    } else {
        Some(without_edge_tokens(text))
    }
}

/// Strips the markdown (`**`, `*`, backtick) around a text.
pub fn unwrap_markdown(s: &str) -> (r: String)
    ensures
        r@ == without_markdown(s@),
{
    if let Some(rest) = strip_prefix_text(s, "**") {
        if let Some(inner) = strip_suffix_text(rest.as_str(), "**") {
            return trim_text(inner.as_str());
        }
    }
    if let Some(rest) = strip_prefix_text(s, "*") {
        if let Some(inner) = strip_suffix_text(rest.as_str(), "*") {
            return trim_text(inner.as_str());
        }
    }
    if let Some(rest) = strip_prefix_text(s, "`") {
        if let Some(inner) = strip_suffix_text(rest.as_str(), "`") {
            return trim_text(inner.as_str());
        }
    }
    s.to_owned()
}

/// Drops separators (`.`, `,`, `;`, `:`) and then white space from the front.
pub fn strip_leading_punctuation(s: &str) -> (r: String)
    ensures
        r@ == without_leading_punctuation(s@),
{
    let t = trim_start_text(s, CharClass::Separator);
    trim_start_text(t.as_str(), CharClass::WhiteSpace)
}

/// Removes a token, bare or in markdown, from the beginning of a text.
pub fn strip_token_from_start(text: &str, token: &str) -> (r: String)
    ensures
        r@ == without_token_at_start(text@, token@),
{
    let t = trim_start_text(text, CharClass::WhiteSpace);
    if let Some(rest) = strip_prefix_text(t.as_str(), token) {
        return strip_leading_punctuation(rest.as_str());
    }
    let bold = cat3("**", token, "**");
    if let Some(rest) = strip_prefix_text(t.as_str(), bold.as_str()) {
        return strip_leading_punctuation(rest.as_str());
    }
    let italic = cat3("*", token, "*");
    if let Some(rest) = strip_prefix_text(t.as_str(), italic.as_str()) {
        return strip_leading_punctuation(rest.as_str());
    }
    let code = cat3("`", token, "`");
    if let Some(rest) = strip_prefix_text(t.as_str(), code.as_str()) {
        return strip_leading_punctuation(rest.as_str());
    }
    text.to_owned()
}

/// Removes a token, bare or in markdown, from the end of a text.
pub fn strip_token_from_end(text: &str, token: &str) -> (r: String)
    ensures
        r@ == without_token_at_end(text@, token@),
{
    let t = trim_end_text(text, CharClass::WhiteSpace);
    if let Some(rest) = strip_suffix_text(t.as_str(), token) {
        return trim_end_text(rest.as_str(), CharClass::WhiteSpace);
    }
    let bold = cat3("**", token, "**");
    if let Some(rest) = strip_suffix_text(t.as_str(), bold.as_str()) {
        return trim_end_text(rest.as_str(), CharClass::WhiteSpace);
    }
    let italic = cat3("*", token, "*");
    if let Some(rest) = strip_suffix_text(t.as_str(), italic.as_str()) {
        return trim_end_text(rest.as_str(), CharClass::WhiteSpace);
    }
    let code = cat3("`", token, "`");
    if let Some(rest) = strip_suffix_text(t.as_str(), code.as_str()) {
        return trim_end_text(rest.as_str(), CharClass::WhiteSpace);
    }
    text.to_owned()
}

/// Strips the suppression token from the edges of a response and decides
/// whether to suppress or deliver.
///
/// - Empty or white space only: suppress.
/// - The token alone, bare or in markdown: suppress.
/// - The token at the start or end of real content: deliver without it.
/// - The token in the middle: left where it is.
/// - No token: deliver the trimmed text.
pub fn strip_suppression_token(text: &str) -> (r: SuppressionTokenResult)
    ensures
        delivered(r) == deliverable(text@),
{
    let t = trim_text(text);
    if t.as_str().is_empty() {
        return SuppressionTokenResult::Suppress;
    }
    let unwrapped = unwrap_markdown(t.as_str());
    if same_text(unwrapped.as_str(), NO_ACTION_NEEDED_TOKEN) || same_text(
        unwrapped.as_str(),
        LEGACY_HEARTBEAT_OK_TOKEN,
    ) {
        return SuppressionTokenResult::Suppress;
    }
    let a = strip_token_from_start(t.as_str(), NO_ACTION_NEEDED_TOKEN);
    let b = strip_token_from_start(a.as_str(), LEGACY_HEARTBEAT_OK_TOKEN);
    let c = strip_token_from_end(b.as_str(), NO_ACTION_NEEDED_TOKEN);
    let d = strip_token_from_end(c.as_str(), LEGACY_HEARTBEAT_OK_TOKEN);
    let cleaned = trim_text(d.as_str());
    if cleaned.as_str().is_empty() {
        SuppressionTokenResult::Suppress
    } else {
        SuppressionTokenResult::Deliver(cleaned)
    }
}

/// Whether a text holds the legacy token.
pub fn contains_legacy_heartbeat_token(text: &str) -> (r: bool)
    ensures
        r == has_text(text@, LEGACY_HEARTBEAT_OK_TOKEN@),
{
    contains_text(text, LEGACY_HEARTBEAT_OK_TOKEN)
}

/// Whether a line of a heartbeat file asks for nothing: it is blank, a
/// heading, or a list item without text.
pub open spec fn idle_line(line: Seq<char>) -> bool {
    let t = trimmed(line);
    t.len() == 0 || "#"@.is_prefix_of(t) || t == "-"@ || t == "- [ ]"@ || t == "- [x]"@ || t == "- [X]"@
}

/// Whether a heartbeat file asks for nothing.
pub open spec fn idle(content: Seq<char>) -> bool {
    forall|i: int| 0 <= i < lines(content).len() ==> idle_line(#[trigger] lines(content)[i])
}

/// Whether a heartbeat file holds only white space, headings and empty list
/// items.
pub fn is_heartbeat_content_empty(content: &str) -> (r: bool)
    ensures
        r == idle(content@),
{
    let all = split_lines(content);
    for i in 0..all.len()
        invariant
            views(all@) == lines(content@),
            forall|j: int| 0 <= j < i ==> idle_line(#[trigger] lines(content@)[j]),
    {
        let t = trim_text(all[i].as_str());
        assert(lines(content@)[i as int] == all@[i as int]@);
        if !(t.as_str().is_empty() || starts_with(t.as_str(), "#") || same_text(t.as_str(), "-")
            || same_text(t.as_str(), "- [ ]") || same_text(t.as_str(), "- [x]") || same_text(
            t.as_str(),
            "- [X]",
        )) {
            return false;
        }
    }
    true
}

/// What is delivered is never blank and carries no white space at its edges.
pub proof fn delivered_text_is_trimmed(text: Seq<char>)
    ensures
        deliverable(text) matches Some(d) ==> d.len() > 0 && trimmed(d) == d,
{
    let a = without_token_at_start(trimmed(text), NO_ACTION_NEEDED_TOKEN@);
    let b = without_token_at_start(a, LEGACY_HEARTBEAT_OK_TOKEN@);
    let c = without_token_at_end(b, NO_ACTION_NEEDED_TOKEN@);
    let r = trimmed_shape(without_token_at_end(c, LEGACY_HEARTBEAT_OK_TOKEN@));
}

/// A response that is blank is suppressed.
pub proof fn blank_is_suppressed(text: Seq<char>)
    requires
        trimmed(text).len() == 0,
    ensures
        deliverable(text) is None,
{
}

/// A response that is a suppression token is suppressed, whether it stands
/// bare or in bold, italic or code marks, and whatever white space surrounds
/// it.
pub proof fn token_alone_is_suppressed(text: Seq<char>, token: Seq<char>)
    requires
        is_token(token),
        trimmed(text) == token || trimmed(text) == wrapped(token, "**"@) || trimmed(text)
            == wrapped(token, "*"@) || trimmed(text) == wrapped(token, "`"@),
    ensures
        deliverable(text) is None,
{
    reveal_strlit("NO_ACTION_NEEDED");
    reveal_strlit("HEARTBEAT_OK");
    reveal_strlit("**");
    reveal_strlit("*");
    reveal_strlit("`");
    let t = trimmed(text);
    trimmed_fixed(token);
    if t == token {
        assert(!"**"@.is_prefix_of(t)) by {
            assert(t.take(2)[0] != '*');
        }
        assert(!"*"@.is_prefix_of(t)) by {
            assert(t.take(1)[0] != '*');
        }
        assert(!"`"@.is_prefix_of(t)) by {
            assert(t.take(1)[0] != '`');
        }
    } else if t == wrapped(token, "**"@) {
        wrapped_inside(token, "**"@);
    } else if t == wrapped(token, "*"@) {
        wrapped_inside(token, "*"@);
        assert(!"**"@.is_prefix_of(t)) by {
            assert(t.take(2)[1] == token[0]);
        }
    } else {
        wrapped_inside(token, "`"@);
        assert(!"**"@.is_prefix_of(t)) by {
            assert(t.take(2)[0] == '`');
        }
        assert(!"*"@.is_prefix_of(t)) by {
            assert(t.take(1)[0] == '`');
        }
    }
}

/// Between the marks of a wrapped token stands the token.
proof fn wrapped_inside(token: Seq<char>, mark: Seq<char>)
    ensures
        inside(wrapped(token, mark), mark) == Some(token),
{
    let w = wrapped(token, mark);
    assert(w.take(mark.len() as int) =~= mark);
    let rest = w.skip(mark.len() as int);
    assert(rest =~= token + mark);
    assert(rest.skip(rest.len() - mark.len()) =~= mark);
    assert(rest.take(rest.len() - mark.len()) =~= token);
}

/// A response in which neither token occurs is delivered as it is, trimmed.
pub proof fn text_without_token_is_delivered(text: Seq<char>)
    requires
        !has_text(text, NO_ACTION_NEEDED_TOKEN@),
        !has_text(text, LEGACY_HEARTBEAT_OK_TOKEN@),
        trimmed(text).len() > 0,
    ensures
        deliverable(text) == Some(trimmed(text)),
{
    let (from, to) = trimmed_shape(text);
    let t = trimmed(text);
    assert forall|token: Seq<char>| is_token(token) implies !#[trigger] has_text(t, token) by {
        if has_text(t, token) {
            has_text_in_part(text, from, to, token);
        }
    }
    trimmed_fixed(t);
    assert(is_token(NO_ACTION_NEEDED_TOKEN@));
    assert(is_token(LEGACY_HEARTBEAT_OK_TOKEN@));
    no_token_at_edges(t, NO_ACTION_NEEDED_TOKEN@);
    no_token_at_edges(t, LEGACY_HEARTBEAT_OK_TOKEN@);
    assert(t.subrange(0, t.len() as int) =~= t);
    if is_token(without_markdown(t)) {
        let token = without_markdown(t);
        assert(!has_text(t, token));
        without_markdown_is_part(t);
    }
}

/// A text that does not hold a token has none at its edges.
proof fn no_token_at_edges(t: Seq<char>, token: Seq<char>)
    requires
        !has_text(t, token),
        drop_leading(t, CharClass::WhiteSpace) == t,
        drop_trailing(t, CharClass::WhiteSpace) == t,
    ensures
        without_token_at_start(t, token) == t,
        without_token_at_end(t, token) == t,
{
    no_wrapped_at_edges(t, token, Seq::empty());
    no_wrapped_at_edges(t, token, "**"@);
    no_wrapped_at_edges(t, token, "*"@);
    no_wrapped_at_edges(t, token, "`"@);
    assert(wrapped(token, Seq::empty()) =~= token);
}

proof fn no_wrapped_at_edges(t: Seq<char>, token: Seq<char>, mark: Seq<char>)
    requires
        !has_text(t, token),
    ensures
        !wrapped(token, mark).is_prefix_of(t),
        !wrapped(token, mark).is_suffix_of(t),
{
    let w = wrapped(token, mark);
    if w.is_prefix_of(t) {
        assert(t.subrange(mark.len() as int, (mark.len() + token.len()) as int) =~= token) by {
            assert(t.take(w.len() as int) == w);
            assert(w.subrange(mark.len() as int, (mark.len() + token.len()) as int) =~= token);
            assert(t.take(w.len() as int).subrange(
                mark.len() as int,
                (mark.len() + token.len()) as int,
            ) =~= t.subrange(mark.len() as int, (mark.len() + token.len()) as int));
        }
        assert(occurs_at(t, token, mark.len() as int));
    }
    if w.is_suffix_of(t) {
        let at = t.len() - w.len() + mark.len();
        assert(t.subrange(at, at + token.len()) =~= token) by {
            assert(t.skip(t.len() - w.len()) == w);
            assert(w.subrange(mark.len() as int, (mark.len() + token.len()) as int) =~= token);
            assert(t.skip(t.len() - w.len()).subrange(
                mark.len() as int,
                (mark.len() + token.len()) as int,
            ) =~= t.subrange(at, at + token.len()));
        }
        assert(occurs_at(t, token, at));
    }
}

/// What stands inside the markdown of a text stands in the text.
proof fn without_markdown_is_part(t: Seq<char>)
    ensures
        has_text(t, without_markdown(t)),
{
    let u = without_markdown(t);
    if inside(t, "**"@) is Some {
        inside_is_part(t, "**"@);
    } else if inside(t, "*"@) is Some {
        inside_is_part(t, "*"@);
    } else if inside(t, "`"@) is Some {
        inside_is_part(t, "`"@);
    } else {
        assert(t.subrange(0, t.len() as int) =~= t);
        assert(occurs_at(t, u, 0));
    }
}

proof fn inside_is_part(t: Seq<char>, mark: Seq<char>)
    requires
        inside(t, mark) is Some,
    ensures
        has_text(t, trimmed(inside(t, mark)->0)),
{
    let rest = t.skip(mark.len() as int);
    let x = inside(t, mark)->0;
    assert(x == rest.take(rest.len() - mark.len()));
    let (from, to) = trimmed_shape(x);
    let at = mark.len() + from;
    assert(t.subrange(at, at + (to - from)) =~= x.subrange(from, to));
    assert(occurs_at(t, trimmed(x), at));
}

/// Whether a text begins with a token, bare or in markdown.
spec fn opens_with(t: Seq<char>, token: Seq<char>) -> bool {
    token.is_prefix_of(t) || wrapped(token, "**"@).is_prefix_of(t) || wrapped(
        token,
        "*"@,
    ).is_prefix_of(t) || wrapped(token, "`"@).is_prefix_of(t)
}

/// Whether a text ends with a token, bare or in markdown.
spec fn closes_with(t: Seq<char>, token: Seq<char>) -> bool {
    token.is_suffix_of(t) || wrapped(token, "**"@).is_suffix_of(t) || wrapped(
        token,
        "*"@,
    ).is_suffix_of(t) || wrapped(token, "`"@).is_suffix_of(t)
}

proof fn not_opened(t: Seq<char>, token: Seq<char>)
    requires
        t.len() > 0,
        token.len() > 0,
        t[0] != token[0],
        t[0] != '*',
        t[0] != '`',
    ensures
        !opens_with(t, token),
{
    reveal_strlit("**");
    reveal_strlit("*");
    reveal_strlit("`");
    if token.is_prefix_of(t) {
        assert(t.subrange(0, token.len() as int)[0] == t[0]);
    }
    let a = wrapped(token, "**"@);
    let b = wrapped(token, "*"@);
    let c = wrapped(token, "`"@);
    assert(a[0] == '*' && b[0] == '*' && c[0] == '`');
    if a.is_prefix_of(t) {
        assert(t.subrange(0, a.len() as int)[0] == t[0]);
    }
    if b.is_prefix_of(t) {
        assert(t.subrange(0, b.len() as int)[0] == t[0]);
    }
    if c.is_prefix_of(t) {
        assert(t.subrange(0, c.len() as int)[0] == t[0]);
    }
}

proof fn not_closed(t: Seq<char>, token: Seq<char>)
    requires
        t.len() > 0,
        token.len() > 0,
        t.last() != token.last(),
        t.last() != '*',
        t.last() != '`',
    ensures
        !closes_with(t, token),
{
    reveal_strlit("**");
    reveal_strlit("*");
    reveal_strlit("`");
    let a = wrapped(token, "**"@);
    let b = wrapped(token, "*"@);
    let c = wrapped(token, "`"@);
    assert(a.last() == '*' && b.last() == '*' && c.last() == '`');
    let n = t.len() as int;
    if token.is_suffix_of(t) {
        assert(t.subrange(n - token.len(), n).last() == t.last());
    }
    if a.is_suffix_of(t) {
        assert(t.subrange(n - a.len(), n).last() == t.last());
    }
    if b.is_suffix_of(t) {
        assert(t.subrange(n - b.len(), n).last() == t.last());
    }
    if c.is_suffix_of(t) {
        assert(t.subrange(n - c.len(), n).last() == t.last());
    }
}

proof fn opened_before_blank(s: Seq<char>, x: Seq<char>, w: Seq<char>)
    requires
        !w.is_prefix_of(s),
        forall|i: int| 0 <= i < w.len() ==> #[trigger] w[i] != ' ',
    ensures
        !w.is_prefix_of(s + seq![' '] + x),
{
    let t = s + seq![' '] + x;
    if w.is_prefix_of(t) {
        if w.len() <= s.len() {
            assert(s.subrange(0, w.len() as int) =~= t.subrange(0, w.len() as int));
        } else {
            assert(w[s.len() as int] == t.subrange(0, w.len() as int)[s.len() as int]);
        }
    }
}

/// What stands behind a token and a blank, or before a blank and a token, is
/// what is delivered, where it holds no token itself and no white space at its
/// edges.
pub proof fn edge_tokens_come_off(rest: Seq<char>, token: Seq<char>)
    requires
        token == "NO_ACTION_NEEDED"@ || token == "HEARTBEAT_OK"@,
        rest.len() > 0,
        trimmed(rest) == rest,
        !has_text(rest, "NO_ACTION_NEEDED"@),
        !has_text(rest, "HEARTBEAT_OK"@),
    ensures
        deliverable(token + seq![' '] + rest) == Some(rest),
        deliverable(rest + seq![' '] + token) == Some(rest),
{
    let (x, y) = trimmed_shape(rest);
    assert(!crate::text::white_space(rest[0]) && !crate::text::white_space(rest.last()));
    leading_token_goes(rest, token);
    trailing_token_goes(rest, token);
}

proof fn leading_token_goes(rest: Seq<char>, token: Seq<char>)
    requires
        token == "NO_ACTION_NEEDED"@ || token == "HEARTBEAT_OK"@,
        rest.len() > 0,
        !crate::text::white_space(rest[0]),
        !crate::text::white_space(rest.last()),
        !has_text(rest, "NO_ACTION_NEEDED"@),
        !has_text(rest, "HEARTBEAT_OK"@),
    ensures
        deliverable(token + seq![' '] + rest) == Some(rest),
{
    reveal_strlit("NO_ACTION_NEEDED");
    reveal_strlit("HEARTBEAT_OK");
    reveal_strlit("**");
    reveal_strlit("*");
    reveal_strlit("`");
    let none = "NO_ACTION_NEEDED"@;
    let legacy = "HEARTBEAT_OK"@;
    assert(none.len() == 16 && none[0] == 'N' && legacy.len() == 12 && legacy[0] == 'H');
    let t = token + seq![' '] + rest;
    assert(t[0] == token[0] && t.last() == rest.last());
    trimmed_fixed(t);
    trimmed_fixed(rest);
    assert(!"**"@.is_prefix_of(t)) by {
        assert(t.subrange(0, 2)[0] == t[0]);
    }
    assert(!"*"@.is_prefix_of(t)) by {
        assert(t.subrange(0, 1)[0] == t[0]);
    }
    assert(!"`"@.is_prefix_of(t)) by {
        assert(t.subrange(0, 1)[0] == t[0]);
    }
    assert(without_markdown(t) == t);
    assert(t.len() >= token.len() + 2);
    assert(!is_token(t)) by {
        if t == legacy {
            assert(t[12] == ' ' || t[16] == ' ');
        }
        if t == none {
            assert(t[token.len() as int] == ' ');
        }
    }
    no_token_at_edges(rest, none);
    no_token_at_edges(rest, legacy);
    let behind = seq![' '] + rest;
    assert(t.subrange(0, token.len() as int) =~= token);
    assert(t.skip(token.len() as int) =~= behind);
    assert(after_prefix(t, token) == Some(behind));
    assert(without_leading_punctuation(behind) == rest) by {
        assert(behind[0] == ' ');
        assert(drop_leading(behind, CharClass::Separator) == behind);
        assert(behind.skip(1) =~= rest);
        reveal_with_fuel(drop_leading, 3);
    }
    assert(without_token_at_start(t, token) == rest);
    if token == legacy {
        not_opened(t, none);
        assert(without_token_at_start(t, none) == t);
    }
}

proof fn trailing_token_goes(rest: Seq<char>, token: Seq<char>)
    requires
        token == "NO_ACTION_NEEDED"@ || token == "HEARTBEAT_OK"@,
        rest.len() > 0,
        !crate::text::white_space(rest[0]),
        !crate::text::white_space(rest.last()),
        !has_text(rest, "NO_ACTION_NEEDED"@),
        !has_text(rest, "HEARTBEAT_OK"@),
    ensures
        deliverable(rest + seq![' '] + token) == Some(rest),
{
    reveal_strlit("NO_ACTION_NEEDED");
    reveal_strlit("HEARTBEAT_OK");
    reveal_strlit("**");
    reveal_strlit("*");
    reveal_strlit("`");
    let none = "NO_ACTION_NEEDED"@;
    let legacy = "HEARTBEAT_OK"@;
    assert(none.len() == 16 && none.last() == 'D' && legacy.len() == 12 && legacy.last() == 'K');
    let t = rest + seq![' '] + token;
    assert(t[0] == rest[0] && t.last() == token.last());
    trimmed_fixed(t);
    trimmed_fixed(rest);
    no_token_at_edges(rest, none);
    no_token_at_edges(rest, legacy);
    assert(inside(t, "**"@) is None) by {
        ends_without_mark(t, "**"@, '*');
    }
    assert(inside(t, "*"@) is None) by {
        ends_without_mark(t, "*"@, '*');
    }
    assert(inside(t, "`"@) is None) by {
        ends_without_mark(t, "`"@, '`');
    }
    assert(without_markdown(t) == t);
    assert(!is_token(t)) by {
        if t == none || t == legacy {
            assert(t[rest.len() as int] == ' ');
        }
    }
    not_opened_behind(rest, token, none);
    not_opened_behind(rest, token, legacy);
    assert(without_token_at_start(t, none) == t);
    assert(without_token_at_start(t, legacy) == t);
    let before = rest + seq![' '];
    assert(t.subrange(t.len() - token.len(), t.len() as int) =~= token);
    assert(t.take(t.len() - token.len()) =~= before);
    assert(before_suffix(t, token) == Some(before));
    assert(drop_trailing(before, CharClass::WhiteSpace) == rest) by {
        assert(before.last() == ' ');
        assert(before.drop_last() =~= rest);
        reveal_with_fuel(drop_trailing, 3);
    }
    assert(without_token_at_end(t, token) == rest);
    if token == legacy {
        not_closed(t, none);
        assert(without_token_at_end(t, none) == t);
    }
}

proof fn ends_without_mark(t: Seq<char>, mark: Seq<char>, c: char)
    requires
        mark.len() > 0,
        mark.last() == c,
        t.len() > 0,
        t.last() != c,
    ensures
        inside(t, mark) is None,
{
    if let Some(rest) = after_prefix(t, mark) {
        if mark.is_suffix_of(rest) {
            let n = rest.len() as int;
            assert(rest.subrange(n - mark.len(), n).last() == rest.last());
            assert(rest.last() == t.last());
        }
    }
}

proof fn not_opened_behind(rest: Seq<char>, x: Seq<char>, token: Seq<char>)
    requires
        token == "NO_ACTION_NEEDED"@ || token == "HEARTBEAT_OK"@,
        !has_text(rest, token),
    ensures
        !opens_with(rest + seq![' '] + x, token),
{
    reveal_strlit("NO_ACTION_NEEDED");
    reveal_strlit("HEARTBEAT_OK");
    reveal_strlit("**");
    reveal_strlit("*");
    reveal_strlit("`");
    no_wrapped_at_edges(rest, token, Seq::empty());
    no_wrapped_at_edges(rest, token, "**"@);
    no_wrapped_at_edges(rest, token, "*"@);
    no_wrapped_at_edges(rest, token, "`"@);
    assert(wrapped(token, Seq::empty()) =~= token);
    opened_before_blank(rest, x, token);
    opened_before_blank(rest, x, wrapped(token, "**"@));
    opened_before_blank(rest, x, wrapped(token, "*"@));
    opened_before_blank(rest, x, wrapped(token, "`"@));
}

proof fn marks_open(mark: Seq<char>, token: Seq<char>, rest: Seq<char>)
    requires
        token == "NO_ACTION_NEEDED"@ || token == "HEARTBEAT_OK"@,
        mark == "**"@ || mark == "*"@ || mark == "`"@,
    ensures
        after_token(mark + token + mark + rest, token) == Some(rest),
{
    reveal_strlit("NO_ACTION_NEEDED");
    reveal_strlit("HEARTBEAT_OK");
    reveal_strlit("**");
    reveal_strlit("*");
    reveal_strlit("`");
    let t = mark + token + mark + rest;
    let w = wrapped(token, mark);
    assert(t[0] == mark[0] && token[0] != '*' && token[0] != '`');
    assert(t[mark.len() as int] == token[0]);
    assert(!token.is_prefix_of(t)) by {
        assert(t.subrange(0, token.len() as int)[0] == t[0]);
    }
    assert(w.is_prefix_of(t) && t.subrange(w.len() as int, t.len() as int) == rest) by {
        assert(t.subrange(0, w.len() as int) =~= w);
        assert(t.subrange(w.len() as int, t.len() as int) =~= rest);
    }
    assert(t.skip(w.len() as int) =~= rest);
    let two = wrapped(token, "**"@);
    let one = wrapped(token, "*"@);
    assert(two[0] == '*' && two[1] == '*' && one[0] == '*' && one[1] == token[0]);
    if mark == "*"@ {
        if two.is_prefix_of(t) {
            assert(t.subrange(0, two.len() as int)[1] == t[1]);
        }
    }
    if mark == "`"@ {
        if two.is_prefix_of(t) {
            assert(t.subrange(0, two.len() as int)[0] == t[0]);
        }
        if one.is_prefix_of(t) {
            assert(t.subrange(0, one.len() as int)[0] == t[0]);
        }
    }
}

proof fn marks_close(mark: Seq<char>, token: Seq<char>, rest: Seq<char>)
    requires
        token == "NO_ACTION_NEEDED"@ || token == "HEARTBEAT_OK"@,
        mark == "**"@ || mark == "*"@ || mark == "`"@,
    ensures
        before_token(rest + (mark + token + mark), token) == Some(rest),
{
    reveal_strlit("NO_ACTION_NEEDED");
    reveal_strlit("HEARTBEAT_OK");
    reveal_strlit("**");
    reveal_strlit("*");
    reveal_strlit("`");
    let w = wrapped(token, mark);
    let t = rest + w;
    let n = t.len() as int;
    assert(w.last() == mark.last() && token.last() != '*' && token.last() != '`');
    assert(t.last() == mark.last());
    assert(t[n - 1 - mark.len()] == token.last()) by {
        assert(w[w.len() - 1 - mark.len()] == token.last());
    }
    assert(!token.is_suffix_of(t)) by {
        if token.is_suffix_of(t) {
            assert(t.subrange(n - token.len(), n).last() == t.last());
        }
    }
    assert(t.subrange(n - w.len(), n) =~= w);
    assert(t.subrange(0, n - w.len()) =~= rest);
    assert(t.take(n - w.len()) =~= rest);
    let two = wrapped(token, "**"@);
    let one = wrapped(token, "*"@);
    assert(two.last() == '*' && two[two.len() - 2] == '*' && one.last() == '*');
    if mark == "*"@ {
        if two.is_suffix_of(t) {
            assert(t.subrange(n - two.len(), n)[two.len() - 2] == t[n - 2]);
        }
    }
    if mark == "`"@ {
        if two.is_suffix_of(t) {
            assert(t.subrange(n - two.len(), n).last() == t.last());
        }
        if one.is_suffix_of(t) {
            assert(t.subrange(n - one.len(), n).last() == t.last());
        }
    }
}

/// A token at an edge is found bare, in bold, in italics and as code, and what
/// stands beside it is all the rest.
pub proof fn tokens_are_found_in_marks(token: Seq<char>, rest: Seq<char>)
    requires
        token == "NO_ACTION_NEEDED"@ || token == "HEARTBEAT_OK"@,
    ensures
        after_token(token + rest, token) == Some(rest),
        after_token("**"@ + token + "**"@ + rest, token) == Some(rest),
        after_token("*"@ + token + "*"@ + rest, token) == Some(rest),
        after_token("`"@ + token + "`"@ + rest, token) == Some(rest),
        before_token(rest + token, token) == Some(rest),
        before_token(rest + ("**"@ + token + "**"@), token) == Some(rest),
        before_token(rest + ("*"@ + token + "*"@), token) == Some(rest),
        before_token(rest + ("`"@ + token + "`"@), token) == Some(rest),
{
    let t = token + rest;
    assert(t.subrange(0, token.len() as int) =~= token);
    assert(t.subrange(token.len() as int, t.len() as int) =~= rest);
    assert(t.skip(token.len() as int) =~= rest);
    let u = rest + token;
    assert(u.subrange(u.len() - token.len(), u.len() as int) =~= token);
    assert(u.subrange(0, u.len() - token.len()) =~= rest);
    assert(u.take(u.len() - token.len()) =~= rest);
    marks_open("**"@, token, rest);
    marks_open("*"@, token, rest);
    marks_open("`"@, token, rest);
    marks_close("**"@, token, rest);
    marks_close("*"@, token, rest);
    marks_close("`"@, token, rest);
}

} // verus!
