//! What holds of texts that are trimmed, split, joined and compared.
use vstd::prelude::*;

use crate::text::{
    after_prefix, before_suffix, decimal, drop_leading, drop_trailing, find_from_is_least, first_of,
    has_text, joined, line_end, lines, lines_from, lower_ascii, occurs_at, precedes, run_end,
    split_on, trimmed, upper_ascii, white_space, words, words_from, CharClass,
};

verus! {

/// Of the characters of ASCII the blank and the five controls from the tab to
/// the carriage return are white space.
pub proof fn ascii_white_space(c: char)
    requires
        (c as int) < 128,
    ensures
        white_space(c) <==> c == ' ' || 9 <= c as int <= 13,
{
}

proof fn leading_goes(a: Seq<char>, s: Seq<char>, k: CharClass)
    requires
        forall|i: int| 0 <= i < a.len() ==> k.has(#[trigger] a[i]),
        s.len() > 0 ==> !k.has(s[0]),
    ensures
        drop_leading(a + s, k) == s,
    decreases a.len(),
{
    if a.len() > 0 {
        assert((a + s)[0] == a[0]);
        assert((a + s).skip(1) =~= a.skip(1) + s);
        assert forall|i: int| 0 <= i < a.skip(1).len() implies k.has(#[trigger] a.skip(1)[i]) by {
            assert(a.skip(1)[i] == a[i + 1]);
        }
        leading_goes(a.skip(1), s, k);
    } else {
        assert(a + s =~= s);
    }
}

proof fn trailing_goes(s: Seq<char>, b: Seq<char>, k: CharClass)
    requires
        forall|i: int| 0 <= i < b.len() ==> k.has(#[trigger] b[i]),
        s.len() > 0 ==> !k.has(s.last()),
    ensures
        drop_trailing(s + b, k) == s,
    decreases b.len(),
{
    if b.len() > 0 {
        assert((s + b).last() == b[b.len() - 1]);
        assert((s + b).drop_last() =~= s + b.drop_last());
        trailing_goes(s, b.drop_last(), k);
    } else {
        assert(s + b =~= s);
    }
}

proof fn all_goes(b: Seq<char>, k: CharClass)
    requires
        forall|i: int| 0 <= i < b.len() ==> k.has(#[trigger] b[i]),
    ensures
        drop_leading(b, k).len() == 0,
{
    leading_goes(b, Seq::empty(), k);
    assert(b + Seq::<char>::empty() =~= b);
}

/// Trimming takes off the white space around a text, all of it and nothing
/// else.
pub proof fn trimming_takes_white_space_off(a: Seq<char>, s: Seq<char>, b: Seq<char>)
    requires
        forall|i: int| 0 <= i < a.len() ==> white_space(#[trigger] a[i]),
        forall|i: int| 0 <= i < b.len() ==> white_space(#[trigger] b[i]),
        s.len() > 0 ==> !white_space(s[0]) && !white_space(s.last()),
    ensures
        trimmed(a + s + b) == s,
{
    let k = CharClass::WhiteSpace;
    if s.len() > 0 {
        assert(a + s + b =~= a + (s + b));
        assert((s + b)[0] == s[0]);
        leading_goes(a, s + b, k);
        trailing_goes(s, b, k);
    } else {
        let t = a + s + b;
        assert forall|i: int| 0 <= i < t.len() implies k.has(#[trigger] t[i]) by {
            if i < a.len() {
                assert(t[i] == a[i]);
            } else {
                assert(t[i] == b[i - a.len()]);
            }
        }
        all_goes(t, k);
        assert(drop_leading(t, k) =~= Seq::empty());
        assert(trimmed(t) =~= s);
    }
}

/// Characters of a class come off one end of a text, all of them and nothing
/// else.
pub proof fn one_end_is_trimmed(a: Seq<char>, s: Seq<char>, b: Seq<char>, k: CharClass)
    requires
        forall|i: int| 0 <= i < a.len() ==> k.has(#[trigger] a[i]),
        forall|i: int| 0 <= i < b.len() ==> k.has(#[trigger] b[i]),
        s.len() > 0,
        !k.has(s[0]),
        !k.has(s.last()),
    ensures
        drop_leading(a + s + b, k) == s + b,
        drop_trailing(a + s + b, k) == a + s,
        CharClass::Separator.has('.') && CharClass::Separator.has(',') && CharClass::Separator.has(
            ';',
        ) && CharClass::Separator.has(':'),
        !CharClass::Separator.has(' ') && !CharClass::Separator.has('a'),
{
    assert(a + s + b =~= a + (s + b));
    leading_goes(a, s + b, k);
    trailing_goes(a + s, b, k);
}

/// A prefix or a suffix comes off exactly where it stands.
pub proof fn ends_come_off(s: Seq<char>, p: Seq<char>)
    ensures
        after_prefix(p + s, p) == Some(s),
        before_suffix(s + p, p) == Some(s),
        after_prefix(s, p) matches Some(rest) ==> p + rest == s,
        before_suffix(s, p) matches Some(rest) ==> rest + p == s,
{
    assert((p + s).subrange(0, p.len() as int) =~= p);
    assert((p + s).skip(p.len() as int) =~= s);
    assert((s + p).subrange(s.len() as int, (s.len() + p.len()) as int) =~= p);
    assert((s + p).take(s.len() as int) =~= s);
    if p.is_prefix_of(s) {
        assert(p + s.skip(p.len() as int) =~= s);
    }
    if p.is_suffix_of(s) {
        assert(s.take(s.len() - p.len()) + p =~= s);
    }
}

/// Joined lists join: with the separator between them, and nowhere else.
pub proof fn lists_join(a: Seq<Seq<char>>, b: Seq<Seq<char>>, sep: Seq<char>, x: Seq<char>)
    requires
        a.len() > 0,
        b.len() > 0,
    ensures
        joined(a + b, sep) == joined(a, sep) + sep + joined(b, sep),
        joined(seq![x], sep) == x,
        joined(Seq::empty(), sep).len() == 0,
    decreases b.len(),
{
    let all = a + b;
    assert(all.drop_last() =~= a + b.drop_last());
    assert(all.last() == b.last());
    if b.len() == 1 {
        assert(a + b.drop_last() =~= a);
        assert(b[0] == b.last());
    } else {
        lists_join(a, b.drop_last(), sep, x);
        assert(joined(all, sep) =~= joined(a, sep) + sep + joined(b, sep));
    }
}

/// The pieces of a text, joined by their separator, are the text, and no piece
/// holds the separator.
pub proof fn pieces_join_back(s: Seq<char>, sep: Seq<char>)
    requires
        sep.len() > 0,
    ensures
        split_on(s, sep).len() > 0,
        joined(split_on(s, sep), sep) == s,
        forall|i: int| 0 <= i < split_on(s, sep).len() ==> !has_text(#[trigger] split_on(s, sep)[i], sep),
    decreases s.len(),
{
    find_from_is_least(s, sep, 0);
    match first_of(s, sep) {
        None => {
            lists_join(seq![s], seq![s], sep, s);
            assert forall|i: int| !#[trigger] occurs_at(s, sep, i) by {}
        },
        Some(i) => {
            let head = s.take(i);
            let tail = s.skip(i + sep.len());
            pieces_join_back(tail, sep);
            lists_join(seq![head], split_on(tail, sep), sep, head);
            assert(s.subrange(i, i + sep.len()) == sep);
            assert(head + sep + tail =~= s) by {
                assert(s =~= s.take(i) + s.subrange(i, i + sep.len()) + s.skip(i + sep.len()));
            }
            assert forall|j: int| !#[trigger] occurs_at(head, sep, j) by {
                if occurs_at(head, sep, j) {
                    assert(s.subrange(j, j + sep.len()) =~= head.subrange(j, j + sep.len()));
                    assert(occurs_at(s, sep, j));
                }
            }
            let all = split_on(s, sep);
            let rest = split_on(tail, sep);
            assert(all =~= seq![head] + rest);
            assert forall|j: int| 0 <= j < all.len() implies !has_text(#[trigger] all[j], sep) by {
                if j > 0 {
                    assert(all[j] == rest[j - 1]);
                }
            }
        },
    }
}

/// A number in decimal: its last digit last, and before it the number without
/// that digit.
pub proof fn digits_stand_in_order(n: nat)
    ensures
        decimal(n).len() > 0,
        decimal(n).last() as int == 48 + n % 10,
        n < 10 ==> decimal(n).len() == 1,
        n >= 10 ==> decimal(n).drop_last() == decimal(n / 10),
{
    if n >= 10 {
        assert(decimal(n).drop_last() =~= decimal(n / 10));
    }
}

/// Letters of ASCII change their case by thirty-two places; nothing else
/// changes.
pub proof fn case_changes_by_place(s: Seq<char>, i: int)
    requires
        0 <= i < s.len(),
    ensures
        lower_ascii(s).len() == s.len(),
        upper_ascii(s).len() == s.len(),
        65 <= s[i] as int <= 90 ==> lower_ascii(s)[i] as int == s[i] as int + 32,
        !(65 <= s[i] as int <= 90) ==> lower_ascii(s)[i] == s[i],
        97 <= s[i] as int <= 122 ==> upper_ascii(s)[i] as int == s[i] as int - 32,
        !(97 <= s[i] as int <= 122) ==> upper_ascii(s)[i] == s[i],
{
}

/// Two texts are ordered by the first character in which they differ, and a
/// text comes before its continuations.
pub proof fn first_difference_orders(
    p: Seq<char>,
    x: char,
    a: Seq<char>,
    y: char,
    b: Seq<char>,
)
    requires
        x != y,
    ensures
        precedes(p + seq![x] + a, p + seq![y] + b) <==> x < y,
        precedes(p, p + seq![x] + a),
        !precedes(p + seq![x] + a, p),
    decreases p.len(),
{
    let s = p + seq![x] + a;
    let t = p + seq![y] + b;
    if p.len() > 0 {
        first_difference_orders(p.skip(1), x, a, y, b);
        assert(s.skip(1) =~= p.skip(1) + seq![x] + a);
        assert(t.skip(1) =~= p.skip(1) + seq![y] + b);
        assert(s[0] == p[0] && t[0] == p[0]);
    } else {
        assert(s[0] == x && t[0] == y);
    }
}

proof fn runs_are_local(s: Seq<char>, t: Seq<char>, off: int, i: int, white: bool)
    requires
        0 <= off,
        0 <= i <= t.len(),
        s.len() == off + t.len(),
        forall|j: int| 0 <= j < t.len() ==> #[trigger] t[j] == s[off + j],
    ensures
        run_end(s, off + i, white) == off + run_end(t, i, white),
    decreases t.len() - i,
{
    if i < t.len() {
        assert(t[i] == s[off + i]);
        if white_space(t[i]) != white {
            runs_are_local(s, t, off, i + 1, white);
        }
    }
}

proof fn run_bounds(s: Seq<char>, i: int, white: bool)
    requires
        0 <= i <= s.len(),
    ensures
        i <= run_end(s, i, white) <= s.len(),
        forall|j: int| i <= j < run_end(s, i, white) ==> white_space(#[trigger] s[j]) != white,
        run_end(s, i, white) < s.len() ==> white_space(s[run_end(s, i, white)]) == white,
    decreases s.len() - i,
{
    if i < s.len() && white_space(s[i]) != white {
        run_bounds(s, i + 1, white);
    }
}

proof fn words_are_local(s: Seq<char>, t: Seq<char>, off: int, i: int)
    requires
        0 <= off,
        0 <= i <= t.len(),
        s.len() == off + t.len(),
        forall|j: int| 0 <= j < t.len() ==> #[trigger] t[j] == s[off + j],
    ensures
        words_from(s, off + i) == words_from(t, i),
    decreases t.len() - i,
{
    runs_are_local(s, t, off, i, false);
    run_bounds(t, i, false);
    let a = run_end(t, i, false);
    runs_are_local(s, t, off, a, true);
    run_bounds(t, a, true);
    let b = run_end(t, a, true);
    if a < t.len() && b > a {
        words_are_local(s, t, off, b);
        assert(s.subrange(off + a, off + b) =~= t.subrange(a, b));
    }
}

proof fn run_within(a: Seq<char>, c: char, b: Seq<char>, i: int, white: bool)
    requires
        0 <= i <= a.len(),
        run_end(a, i, white) < a.len(),
    ensures
        run_end(a + seq![c] + b, i, white) == run_end(a, i, white),
    decreases a.len() - i,
{
    let s = a + seq![c] + b;
    if i < a.len() {
        assert(s[i] == a[i]);
        if white_space(a[i]) != white {
            run_within(a, c, b, i + 1, white);
        }
    }
}

proof fn run_to_gap(a: Seq<char>, c: char, b: Seq<char>, i: int)
    requires
        0 <= i <= a.len(),
        white_space(c),
        run_end(a, i, true) == a.len(),
    ensures
        run_end(a + seq![c] + b, i, true) == a.len(),
    decreases a.len() - i,
{
    let s = a + seq![c] + b;
    if i < a.len() {
        assert(s[i] == a[i]);
        if !white_space(a[i]) {
            run_to_gap(a, c, b, i + 1);
        }
    } else {
        assert(s[i] == c);
    }
}

proof fn run_over_gap(a: Seq<char>, c: char, b: Seq<char>, i: int)
    requires
        0 <= i <= a.len(),
        white_space(c),
        run_end(a, i, false) == a.len(),
    ensures
        run_end(a + seq![c] + b, i, false) == run_end(a + seq![c] + b, (a.len() + 1) as int, false),
    decreases a.len() - i,
{
    let s = a + seq![c] + b;
    if i < a.len() {
        assert(s[i] == a[i]);
        if white_space(a[i]) {
            run_over_gap(a, c, b, i + 1);
        }
    } else {
        assert(s[i] == c);
    }
}

proof fn words_split_from(a: Seq<char>, c: char, b: Seq<char>, i: int)
    requires
        0 <= i <= a.len(),
        white_space(c),
    ensures
        words_from(a + seq![c] + b, i) == words_from(a, i) + words(b),
    decreases a.len() - i,
{
    let s = a + seq![c] + b;
    let n = (a.len() + 1) as int;
    run_bounds(a, i, false);
    run_bounds(s, i, false);
    let x = run_end(a, i, false);
    if x == a.len() {
        run_over_gap(a, c, b, i);
        words_are_local(s, b, n, 0);
        run_bounds(s, n, false);
        assert(words_from(a, i) =~= Seq::empty());
        assert(words_from(s, i) =~= words_from(s, n)) by {
            let e = run_end(s, n, false);
            run_bounds(s, e, true);
        }
        assert(words_from(a, i) + words(b) =~= words(b));
    } else {
        run_within(a, c, b, i, false);
        run_bounds(a, x, true);
        let y = run_end(a, x, true);
        if y < a.len() {
            run_within(a, c, b, x, true);
        } else {
            run_to_gap(a, c, b, x);
        }
        assert(run_end(s, x, true) == y);
        assert(y > x);
        words_split_from(a, c, b, y);
        assert(s.subrange(x, y) =~= a.subrange(x, y));
        assert(words_from(s, i) =~= seq![a.subrange(x, y)] + words_from(s, y));
        assert(words_from(s, i) =~= words_from(a, i) + words(b));
    }
}

/// White space parts words, and nothing else does: the words on both sides of
/// it are the words of the whole, and a text without it is one word.
pub proof fn white_space_parts_words(a: Seq<char>, c: char, b: Seq<char>)
    requires
        white_space(c),
    ensures
        words(a + seq![c] + b) == words(a) + words(b),
        a.len() > 0 && (forall|i: int| 0 <= i < a.len() ==> !white_space(#[trigger] a[i]))
            ==> words(a) == seq![a],
        words(Seq::empty()).len() == 0,
{
    words_split_from(a, c, b, 0);
    if a.len() > 0 && (forall|i: int| 0 <= i < a.len() ==> !white_space(#[trigger] a[i])) {
        run_bounds(a, 0, false);
        run_bounds(a, 0, true);
        assert(run_end(a, 0, false) == 0) by {
            assert(!white_space(a[0]));
        }
        let e = run_end(a, 0, true);
        assert(e == a.len()) by {
            if e < a.len() {
                assert(white_space(a[e]));
            }
        }
        assert(words_from(a, e) =~= Seq::empty());
        assert(a.subrange(0, e) =~= a);
        assert(words(a) =~= seq![a]);
    }
}

proof fn line_end_at(x: Seq<char>, b: Seq<char>, i: int)
    requires
        0 <= i <= x.len(),
        forall|j: int| 0 <= j < x.len() ==> #[trigger] x[j] != '\n',
    ensures
        line_end(x + seq!['\n'] + b, i) == x.len(),
        line_end(x, i) == x.len(),
    decreases x.len() - i,
{
    let s = x + seq!['\n'] + b;
    if i < x.len() {
        assert(s[i] == x[i]);
        line_end_at(x, b, i + 1);
    } else {
        assert(s[i] == '\n');
    }
}

proof fn line_end_is_local(s: Seq<char>, t: Seq<char>, off: int, i: int)
    requires
        0 <= off,
        0 <= i <= t.len(),
        s.len() == off + t.len(),
        forall|j: int| 0 <= j < t.len() ==> #[trigger] t[j] == s[off + j],
    ensures
        line_end(s, off + i) == off + line_end(t, i),
        i <= line_end(t, i) <= t.len(),
    decreases t.len() - i,
{
    if i < t.len() {
        assert(t[i] == s[off + i]);
        if t[i] != '\n' {
            line_end_is_local(s, t, off, i + 1);
        }
    }
}

proof fn lines_are_local(s: Seq<char>, t: Seq<char>, off: int, i: int)
    requires
        0 <= off,
        0 <= i <= t.len(),
        s.len() == off + t.len(),
        forall|j: int| 0 <= j < t.len() ==> #[trigger] t[j] == s[off + j],
    ensures
        lines_from(s, off + i) == lines_from(t, i),
    decreases t.len() - i,
{
    line_end_is_local(s, t, off, i);
    let e = line_end(t, i);
    if i < t.len() {
        if e < t.len() {
            lines_are_local(s, t, off, e + 1);
            assert(s.subrange(off + i, off + e) =~= t.subrange(i, e));
        } else {
            assert(s.skip(off + i) =~= t.skip(i));
        }
    }
}

/// Line feeds part lines: what stands before the first is a line, without the
/// carriage return at its end, and the lines behind it follow. A text without
/// one is one line, or none where it is empty.
pub proof fn line_feeds_part_lines(x: Seq<char>, b: Seq<char>)
    requires
        forall|j: int| 0 <= j < x.len() ==> #[trigger] x[j] != '\n',
    ensures
        x.len() == 0 || x.last() != '\r' ==> lines(x + seq!['\n'] + b) == seq![x] + lines(b),
        x.len() > 0 && x.last() == '\r' ==> lines(x + seq!['\n'] + b) == seq![x.drop_last()]
            + lines(b),
        x.len() > 0 ==> lines(x) == seq![x],
        lines(Seq::empty()).len() == 0,
{
    let s = x + seq!['\n'] + b;
    line_end_at(x, b, 0);
    lines_are_local(s, b, (x.len() + 1) as int, 0);
    assert(s.subrange(0, x.len() as int) =~= x);
    assert(x.skip(0) =~= x);
}

} // verus!
