//! Text as sequences of characters: the operations the rest of the library
//! reads and writes text with, each stated over `Seq<char>`.
use vstd::prelude::*;
use vstd::utf8::encode_utf8;

verus! {

/// Appending one character to a `String`, as `std::string::String::push`
/// documents it: the character becomes the last one and nothing else changes.
pub assume_specification[ String::push ](s: &mut String, c: char)
    ensures
        final(s)@ == old(s)@.push(c),
;

/// The Unicode `White_Space` property.
pub open spec fn white_space(c: char) -> bool {
    let u = c as u32;
    ||| 0x09 <= u <= 0x0d
    ||| u == 0x20
    ||| u == 0x85
    ||| u == 0xa0
    ||| u == 0x1680
    ||| 0x2000 <= u <= 0x200a
    ||| u == 0x2028
    ||| u == 0x2029
    ||| u == 0x202f
    ||| u == 0x205f
    ||| u == 0x3000
}

/// Whether a character is white space.
pub fn is_white_space(c: char) -> (r: bool)
    ensures
        r == white_space(c),
{
    let u: u32 = c as u32;
    (0x09 <= u && u <= 0x0d) || u == 0x20 || u == 0x85 || u == 0xa0 || u == 0x1680 || (0x2000 <= u
        && u <= 0x200a) || u == 0x2028 || u == 0x2029 || u == 0x202f || u == 0x205f || u == 0x3000
}

/// The characters of a text, in order.
pub fn chars_of(s: &str) -> (r: Vec<char>)
    ensures
        r@ == s@,
{
    let mut out: Vec<char> = Vec::new();
    for c in it: s.chars()
        invariant
            it.seq() == s@,
            out@ == it.seq().take(it.index() as int),
    {
        out.push(c);
    }
    out
}

/// The text made of the given characters.
pub fn string_of(chars: &[char]) -> (r: String)
    ensures
        r@ == chars@,
{
    let mut out = String::new();
    for i in 0..chars.len()
        invariant
            out@ == chars@.take(i as int),
    {
        out.push(chars[i]);
    }
    assert(chars@.take(chars.len() as int) =~= chars@);
    out
}

/// Whether two texts hold the same characters.
pub fn same_text(a: &str, b: &str) -> (r: bool)
    ensures
        r == (a@ == b@),
{
    a.to_owned() == b.to_owned()
}

/// The views of a list of texts.
pub open spec fn views(v: Seq<String>) -> Seq<Seq<char>> {
    Seq::new(v.len(), |i: int| v[i]@)
}

/// The view of an optional text.
pub open spec fn opt_view(o: Option<String>) -> Option<Seq<char>> {
    match o {
        Some(s) => Some(s@),
        None => None,
    }
}

/// The view of an optional borrowed text.
pub open spec fn opt_str_view(o: Option<&str>) -> Option<Seq<char>> {
    match o {
        Some(s) => Some(s@),
        None => None,
    }
}

/// A copy of an optional text.
pub fn copy_opt(o: &Option<String>) -> (r: Option<String>)
    ensures
        r == *o,
{
    match o {
        Some(s) => Some(s.clone()),
        None => None,
    }
}

/// Whether a list of texts holds a given one.
pub fn holds_text(v: &Vec<String>, t: &str) -> (r: bool)
    ensures
        r == views(v@).contains(t@),
{
    for i in 0..v.len()
        invariant
            forall|j: int| 0 <= j < i ==> v@[j]@ != t@,
    {
        if same_text(v[i].as_str(), t) {
            assert(views(v@)[i as int] == t@);
            return true;
        }
    }
    assert forall|j: int| 0 <= j < views(v@).len() implies views(v@)[j] != t@ by {
        assert(views(v@)[j] == v@[j]@);
    }
    false
}

/// Two texts, one after the other.
pub fn cat2(a: &str, b: &str) -> (r: String)
    ensures
        r@ == a@ + b@,
{
    let mut out = a.to_owned();
    out.append(b);
    out
}

/// Three texts, one after the other.
pub fn cat3(a: &str, b: &str, c: &str) -> (r: String)
    ensures
        r@ == a@ + b@ + c@,
{
    let mut out = a.to_owned();
    out.append(b);
    out.append(c);
    out
}

/// Four texts, one after the other.
pub fn cat4(a: &str, b: &str, c: &str, d: &str) -> (r: String)
    ensures
        r@ == a@ + b@ + c@ + d@,
{
    let mut out = cat3(a, b, c);
    out.append(d);
    out
}

/// Five texts, one after the other.
pub fn cat5(a: &str, b: &str, c: &str, d: &str, e: &str) -> (r: String)
    ensures
        r@ == a@ + b@ + c@ + d@ + e@,
{
    let mut out = cat4(a, b, c, d);
    out.append(e);
    out
}

/// A set of characters that a trim can remove.
#[derive(Clone, Copy, PartialEq, Eq, Structural)]
pub enum CharClass {
    /// Unicode white space.
    WhiteSpace,
    /// Full stop, comma, semicolon, colon.
    Separator,
    /// One character.
    Only(char),
}

impl CharClass {
    /// Whether a character belongs to the class.
    pub open spec fn has(self, c: char) -> bool {
        match self {
            CharClass::WhiteSpace => white_space(c),
            CharClass::Separator => c == '.' || c == ',' || c == ';' || c == ':',
            CharClass::Only(x) => c == x,
        }
    }

    /// Whether a character belongs to the class.
    pub fn contains(self, c: char) -> (r: bool)
        ensures
            r == self.has(c),
    {
        match self {
            CharClass::WhiteSpace => is_white_space(c),
            CharClass::Separator => c == '.' || c == ',' || c == ';' || c == ':',
            CharClass::Only(x) => c == x,
        }
    }
}

/// The text without its leading characters of the class.
pub open spec fn drop_leading(s: Seq<char>, k: CharClass) -> Seq<char>
    decreases s.len(),
{
    if s.len() > 0 && k.has(s[0]) {
        drop_leading(s.skip(1), k)
    } else {
        s
    }
}

/// The text without its trailing characters of the class.
pub open spec fn drop_trailing(s: Seq<char>, k: CharClass) -> Seq<char>
    decreases s.len(),
{
    if s.len() > 0 && k.has(s.last()) {
        drop_trailing(s.drop_last(), k)
    } else {
        s
    }
}

/// The text without leading and trailing white space.
pub open spec fn trimmed(s: Seq<char>) -> Seq<char> {
    drop_trailing(drop_leading(s, CharClass::WhiteSpace), CharClass::WhiteSpace)
}

/// A part of a list of characters.
pub fn part(s: &[char], from: usize, to: usize) -> (r: Vec<char>)
    requires
        from <= to <= s.len(),
    ensures
        r@ == s@.subrange(from as int, to as int),
{
    let mut out: Vec<char> = Vec::new();
    let mut i: usize = from;
    while i < to
        invariant
            from <= i <= to <= s.len(),
            out@ == s@.subrange(from as int, i as int),
        decreases to - i,
    {
        out.push(s[i]);
        i += 1;
        assert(s@.subrange(from as int, i as int) =~= s@.subrange(from as int, i - 1).push(s@[i - 1]));
    }
    out
}

/// Removes leading characters of a class.
pub fn trim_start_class(s: &[char], k: CharClass) -> (r: Vec<char>)
    ensures
        r@ == drop_leading(s@, k),
{
    let mut i: usize = 0;
    assert(s@.skip(0) =~= s@);
    while i < s.len() && k.contains(s[i])
        invariant
            i <= s.len(),
            drop_leading(s@, k) == drop_leading(s@.skip(i as int), k),
        decreases s.len() + 1 - i,
    {
        assert(s@.skip(i as int).skip(1) =~= s@.skip(i + 1));
        i += 1;
    }
    let r = part(s, i, s.len());
    assert(r@ =~= s@.skip(i as int));
    r
}

/// Removes trailing characters of a class.
pub fn trim_end_class(s: &[char], k: CharClass) -> (r: Vec<char>)
    ensures
        r@ == drop_trailing(s@, k),
{
    let mut n: usize = s.len();
    assert(s@.take(n as int) =~= s@);
    while n > 0 && k.contains(s[n - 1])
        invariant
            n <= s.len(),
            drop_trailing(s@, k) == drop_trailing(s@.take(n as int), k),
        decreases n,
    {
        assert(s@.take(n as int).drop_last() =~= s@.take(n - 1));
        n -= 1;
    }
    let r = part(s, 0, n);
    assert(r@ =~= s@.take(n as int));
    r
}

/// Removes leading and trailing white space.
pub fn trim_chars(s: &[char]) -> (r: Vec<char>)
    ensures
        r@ == trimmed(s@),
{
    let start = trim_start_class(s, CharClass::WhiteSpace);
    trim_end_class(start.as_slice(), CharClass::WhiteSpace)
}

/// Removes leading and trailing white space.
pub fn trim_text(s: &str) -> (r: String)
    ensures
        r@ == trimmed(s@),
{
    let chars = chars_of(s);
    let t = trim_chars(chars.as_slice());
    string_of(t.as_slice())
}

/// Whether trimming a text leaves nothing.
pub fn is_blank(s: &str) -> (r: bool)
    ensures
        r == (trimmed(s@).len() == 0),
{
    let chars = chars_of(s);
    trim_chars(chars.as_slice()).len() == 0
}

/// Whether `p` stands in `s` at position `i`.
pub open spec fn occurs_at(s: Seq<char>, p: Seq<char>, i: int) -> bool {
    0 <= i && i + p.len() <= s.len() && s.subrange(i, i + p.len()) == p
}

/// Whether `p` stands anywhere in `s`.
pub open spec fn has_text(s: Seq<char>, p: Seq<char>) -> bool {
    exists|i: int| #[trigger] occurs_at(s, p, i)
}

/// The first position from `i` on at which `p` stands in `s`.
pub open spec fn find_from(s: Seq<char>, p: Seq<char>, i: int) -> Option<int>
    decreases s.len() + 1 - i,
{
    if i + p.len() > s.len() {
        None
    } else if occurs_at(s, p, i) {
        Some(i)
    } else {
        find_from(s, p, i + 1)
    }
}

/// The first position at which `p` stands in `s`.
pub open spec fn first_of(s: Seq<char>, p: Seq<char>) -> Option<int> {
    find_from(s, p, 0)
}

/// What [`find_from`] returns: the least position from `i` on, if there is one.
pub proof fn find_from_is_least(s: Seq<char>, p: Seq<char>, i: int)
    requires
        0 <= i,
    ensures
        match find_from(s, p, i) {
            Some(k) => i <= k && occurs_at(s, p, k) && forall|j: int|
                i <= j < k ==> !#[trigger] occurs_at(s, p, j),
            None => forall|j: int| i <= j ==> !#[trigger] occurs_at(s, p, j),
        },
    decreases s.len() + 1 - i,
{
    if i + p.len() <= s.len() && !occurs_at(s, p, i) {
        find_from_is_least(s, p, i + 1);
    }
}

/// Whether `p` stands in `s` at position `i`.
pub fn stands_at(s: &[char], p: &[char], i: usize) -> (r: bool)
    ensures
        r == occurs_at(s@, p@, i as int),
{
    if i > s.len() || p.len() > s.len() - i {
        return false;
    }
    for j in 0..p.len()
        invariant
            i + p.len() <= s.len(),
            forall|k: int| 0 <= k < j ==> s@[i + k] == p@[k],
    {
        if s[i + j] != p[j] {
            assert(s@.subrange(i as int, i + p.len())[j as int] != p@[j as int]);
            return false;
        }
    }
    assert(s@.subrange(i as int, i + p.len()) =~= p@);
    true
}

/// The first position at which `p` stands in `s`.
pub fn find_chars(s: &[char], p: &[char]) -> (r: Option<usize>)
    ensures
        match r {
            Some(i) => first_of(s@, p@) == Some(i as int) && occurs_at(s@, p@, i as int),
            None => first_of(s@, p@) is None,
        },
{
    if p.len() > s.len() {
        return None;
    }
    let mut i: usize = 0;
    while i <= s.len() - p.len()
        invariant
            p.len() <= s.len(),
            i <= s.len() - p.len() + 1,
            first_of(s@, p@) == find_from(s@, p@, i as int),
        decreases s.len() + 1 - i,
    {
        if stands_at(s, p, i) {
            return Some(i);
        }
        if i == s.len() - p.len() {
            assert(find_from(s@, p@, i + 1) is None);
            return None;
        }
        i += 1;
    }
    None
}

/// Whether a text stands anywhere in another.
pub fn contains_text(s: &str, p: &str) -> (r: bool)
    ensures
        r == has_text(s@, p@),
{
    let sc = chars_of(s);
    let pc = chars_of(p);
    let found = find_chars(sc.as_slice(), pc.as_slice());
    proof {
        find_from_is_least(s@, p@, 0);
        if has_text(s@, p@) {
            let i = choose|i: int| #[trigger] occurs_at(s@, p@, i);
            assert(occurs_at(s@, p@, i));
        }
    }
    found.is_some()
}

/// What is left of `s` behind the prefix `p`, where it has that prefix.
pub open spec fn after_prefix(s: Seq<char>, p: Seq<char>) -> Option<Seq<char>> {
    if p.is_prefix_of(s) {
        Some(s.skip(p.len() as int))
    } else {
        None
    }
}

/// Whether a list of characters begins with another.
pub fn begins_with(s: &[char], p: &[char]) -> (r: bool)
    ensures
        r == p@.is_prefix_of(s@),
{
    let r = stands_at(s, p, 0);
    assert(p.len() <= s.len() ==> s@.subrange(0, p.len() as int) =~= s@.take(p.len() as int));
    r
}

/// Whether a text begins with another.
pub fn starts_with(s: &str, p: &str) -> (r: bool)
    ensures
        r == p@.is_prefix_of(s@),
{
    let sc = chars_of(s);
    let pc = chars_of(p);
    begins_with(sc.as_slice(), pc.as_slice())
}

/// Whether a list of characters ends with another.
pub fn ends_with_chars(s: &[char], p: &[char]) -> (r: bool)
    ensures
        r == p@.is_suffix_of(s@),
{
    if p.len() > s.len() {
        return false;
    }
    let r = stands_at(s, p, s.len() - p.len());
    assert(s@.subrange(s.len() - p.len(), s.len() as int) =~= s@.skip(s.len() - p.len()));
    r
}

/// What follows a prefix.
pub fn strip_prefix_text(s: &str, p: &str) -> (r: Option<String>)
    ensures
        opt_view(r) == after_prefix(s@, p@),
{
    let sc = chars_of(s);
    let pc = chars_of(p);
    if begins_with(sc.as_slice(), pc.as_slice()) {
        let rest = part(sc.as_slice(), pc.len(), sc.len());
        assert(rest@ =~= s@.skip(p@.len() as int));
        Some(string_of(rest.as_slice()))
    } else {
        None
    }
}

/// The pieces of `s` between the occurrences of `sep`, taken from the left.
pub open spec fn split_on(s: Seq<char>, sep: Seq<char>) -> Seq<Seq<char>>
    decreases s.len(),
{
    if sep.len() == 0 {
        seq![s]
    } else {
        match first_of(s, sep) {
            None => seq![s],
            Some(i) => if 0 <= i && i + sep.len() <= s.len() {
                seq![s.take(i)] + split_on(s.skip(i + sep.len()), sep)
            } else {
                seq![s]
            },
        }
    }
}

/// The pieces of a text between the occurrences of a separator.
pub fn split_chars(s: &[char], sep: &[char]) -> (r: Vec<Vec<char>>)
    requires
        sep.len() > 0,
    ensures
        r@.len() == split_on(s@, sep@).len(),
        forall|i: int| 0 <= i < r@.len() ==> (#[trigger] r@[i])@ == split_on(s@, sep@)[i],
{
    let mut out: Vec<Vec<char>> = Vec::new();
    let mut from: usize = 0;
    assert(s@.skip(0) =~= s@);
    loop
        invariant
            sep.len() > 0,
            from <= s.len(),
            out@.len() + split_on(s@.skip(from as int), sep@).len() == split_on(s@, sep@).len(),
            forall|i: int| 0 <= i < out@.len() ==> (#[trigger] out@[i])@ == split_on(s@, sep@)[i],
            forall|i: int|
                0 <= i < split_on(s@.skip(from as int), sep@).len() ==> #[trigger] split_on(
                    s@.skip(from as int),
                    sep@,
                )[i] == split_on(s@, sep@)[out@.len() + i],
        decreases s.len() - from,
    {
        let rest = part(s, from, s.len());
        assert(rest@ =~= s@.skip(from as int));
        match find_chars(rest.as_slice(), sep) {
            None => {
                assert(split_on(rest@, sep@) =~= seq![rest@]);
                assert(split_on(rest@, sep@)[0] == split_on(s@, sep@)[out@.len() + 0int]);
                out.push(rest);
                return out;
            },
            Some(i) => {
                let piece = part(rest.as_slice(), 0, i);
                assert(piece@ =~= rest@.take(i as int));
                let ghost tail = split_on(rest@.skip(i + sep@.len()), sep@);
                assert(split_on(rest@, sep@) == seq![rest@.take(i as int)] + tail);
                assert(split_on(rest@, sep@)[0] == rest@.take(i as int));
                assert(split_on(rest@, sep@)[0] == split_on(s@, sep@)[out@.len() + 0int]);
                assert(rest@.skip(i + sep@.len()) =~= s@.skip(from + i + sep@.len()));
                assert forall|j: int| 0 <= j < tail.len() implies #[trigger] tail[j] == split_on(
                    s@,
                    sep@,
                )[out@.len() + 1 + j] by {
                    assert(split_on(rest@, sep@)[j + 1] == tail[j]);
                    assert(split_on(s@.skip(from as int), sep@)[j + 1] == split_on(s@, sep@)[
                    out@.len() + (j + 1)]);
                }
                out.push(piece);
                from = from + i + sep.len();
            },
        }
    }
}

/// The texts joined with a separator between them.
pub open spec fn joined(parts: Seq<Seq<char>>, sep: Seq<char>) -> Seq<char>
    decreases parts.len(),
{
    if parts.len() == 0 {
        Seq::empty()
    } else if parts.len() == 1 {
        parts[0]
    } else {
        joined(parts.drop_last(), sep) + sep + parts.last()
    }
}

/// Joins texts with a separator between them.
pub fn join_texts(parts: &Vec<String>, sep: &str) -> (r: String)
    ensures
        r@ == joined(views(parts@), sep@),
{
    let mut out = String::new();
    for i in 0..parts.len()
        invariant
            out@ == joined(views(parts@).take(i as int), sep@),
    {
        if i > 0 {
            out.append(sep);
        }
        out.append(parts[i].as_str());
        proof {
            let now = views(parts@).take(i + 1);
            assert(now.drop_last() =~= views(parts@).take(i as int));
            assert(now.last() == parts@[i as int]@);
            if i == 0 {
                assert(joined(views(parts@).take(0), sep@) =~= Seq::<char>::empty());
                assert(out@ =~= now[0]);
            }
        }
    }
    assert(views(parts@).take(parts.len() as int) =~= views(parts@));
    out
}

/// The decimal digit of a number below ten.
pub open spec fn digit(n: nat) -> char {
    if n == 0 { '0' } else if n == 1 { '1' } else if n == 2 { '2' } else if n == 3 { '3' }
    else if n == 4 { '4' } else if n == 5 { '5' } else if n == 6 { '6' } else if n == 7 { '7' }
    else if n == 8 { '8' } else { '9' }
}

/// A number written in decimal, without leading zeros.
pub open spec fn decimal(n: nat) -> Seq<char>
    decreases n,
{
    if n < 10 {
        seq![digit(n)]
    } else {
        decimal(n / 10).push(digit(n % 10))
    }
}

fn digit_char(n: u64) -> (r: char)
    requires
        n < 10,
    ensures
        r == digit(n as nat),
{
    match n {
        0 => '0',
        1 => '1',
        2 => '2',
        3 => '3',
        4 => '4',
        5 => '5',
        6 => '6',
        7 => '7',
        8 => '8',
        _ => '9',
    }
}

/// Appends a number in decimal.
pub fn push_decimal(out: &mut String, n: u64)
    ensures
        final(out)@ == old(out)@ + decimal(n as nat),
    decreases n,
{
    if n >= 10 {
        push_decimal(out, n / 10);
    }
    out.push(digit_char(n % 10));
    assert(out@ =~= old(out)@ + decimal(n as nat));
}

/// A number in decimal.
pub fn decimal_text(n: u64) -> (r: String)
    ensures
        r@ == decimal(n as nat),
{
    let mut out = String::new();
    push_decimal(&mut out, n);
    assert(out@ =~= decimal(n as nat));
    out
}

/// An ASCII capital letter as its small letter; any other character unchanged.
pub open spec fn ascii_lower(c: char) -> char {
    if 'A' <= c <= 'Z' {
        (c as u8 + 32) as char
    } else {
        c
    }
}

/// An ASCII small letter as its capital letter; any other character unchanged.
pub open spec fn ascii_upper(c: char) -> char {
    if 'a' <= c <= 'z' {
        (c as u8 - 32) as char
    } else {
        c
    }
}

/// A text with ASCII capitals made small.
pub open spec fn lower_ascii(s: Seq<char>) -> Seq<char> {
    Seq::new(s.len(), |i: int| ascii_lower(s[i]))
}

/// A text with ASCII small letters made capital.
pub open spec fn upper_ascii(s: Seq<char>) -> Seq<char> {
    Seq::new(s.len(), |i: int| ascii_upper(s[i]))
}

/// Makes ASCII capitals small.
pub fn to_lower_ascii(s: &str) -> (r: String)
    ensures
        r@ == lower_ascii(s@),
{
    let chars = chars_of(s);
    let mut out = String::new();
    for i in 0..chars.len()
        invariant
            chars@ == s@,
            out@ == lower_ascii(s@).take(i as int),
    {
        let c = chars[i];
        out.push(if 'A' <= c && c <= 'Z' { (c as u8 + 32) as char } else { c });
    }
    assert(lower_ascii(s@).take(chars.len() as int) =~= lower_ascii(s@));
    out
}

/// Makes ASCII small letters capital.
pub fn to_upper_ascii(s: &str) -> (r: String)
    ensures
        r@ == upper_ascii(s@),
{
    let chars = chars_of(s);
    let mut out = String::new();
    for i in 0..chars.len()
        invariant
            chars@ == s@,
            out@ == upper_ascii(s@).take(i as int),
    {
        let c = chars[i];
        out.push(if 'a' <= c && c <= 'z' { (c as u8 - 32) as char } else { c });
    }
    assert(upper_ascii(s@).take(chars.len() as int) =~= upper_ascii(s@));
    out
}

/// What stands in `s` before the suffix `p`, where it has that suffix.
pub open spec fn before_suffix(s: Seq<char>, p: Seq<char>) -> Option<Seq<char>> {
    if p.is_suffix_of(s) {
        Some(s.take(s.len() - p.len()))
    } else {
        None
    }
}

/// What stands before a suffix.
pub fn strip_suffix_text(s: &str, p: &str) -> (r: Option<String>)
    ensures
        opt_view(r) == before_suffix(s@, p@),
{
    let sc = chars_of(s);
    let pc = chars_of(p);
    if ends_with_chars(sc.as_slice(), pc.as_slice()) {
        let rest = part(sc.as_slice(), 0, sc.len() - pc.len());
        assert(rest@ =~= s@.take(s@.len() - p@.len()));
        Some(string_of(rest.as_slice()))
    } else {
        None
    }
}

/// Removes leading characters of a class from a text.
pub fn trim_start_text(s: &str, k: CharClass) -> (r: String)
    ensures
        r@ == drop_leading(s@, k),
{
    let chars = chars_of(s);
    let t = trim_start_class(chars.as_slice(), k);
    string_of(t.as_slice())
}

/// Removes trailing characters of a class from a text.
pub fn trim_end_text(s: &str, k: CharClass) -> (r: String)
    ensures
        r@ == drop_trailing(s@, k),
{
    let chars = chars_of(s);
    let t = trim_end_class(chars.as_slice(), k);
    string_of(t.as_slice())
}

/// A line without the carriage return at its end.
pub open spec fn without_cr(s: Seq<char>) -> Seq<char> {
    if s.len() > 0 && s.last() == '\r' {
        s.drop_last()
    } else {
        s
    }
}

/// The position of the first line feed from `i` on, or the length.
pub open spec fn line_end(s: Seq<char>, i: int) -> int
    decreases s.len() - i,
{
    if i >= s.len() {
        s.len() as int
    } else if s[i] == '\n' {
        i
    } else {
        line_end(s, i + 1)
    }
}

/// [`line_end`] lies between `i` and the end.
pub proof fn line_end_bounds(s: Seq<char>, i: int)
    requires
        0 <= i <= s.len(),
    ensures
        i <= line_end(s, i) <= s.len(),
    decreases s.len() - i,
{
    if i < s.len() && s[i] != '\n' {
        line_end_bounds(s, i + 1);
    }
}

/// The lines of `s` from position `i` on: each ends at a line feed, which is
/// dropped with a carriage return before it, or at the end of the text; a
/// line feed at the very end starts no further line.
pub open spec fn lines_from(s: Seq<char>, i: int) -> Seq<Seq<char>>
    decreases s.len() - i,
{
    let e = line_end(s, i);
    if i < 0 || i >= s.len() || e < i {
        Seq::empty()
    } else if e >= s.len() {
        seq![s.skip(i)]
    } else {
        seq![without_cr(s.subrange(i, e))] + lines_from(s, e + 1)
    }
}

/// The lines of a text.
pub open spec fn lines(s: Seq<char>) -> Seq<Seq<char>> {
    lines_from(s, 0)
}

/// The lines of a text.
pub fn split_lines(text: &str) -> (r: Vec<String>)
    ensures
        views(r@) == lines(text@),
{
    let s = chars_of(text);
    let mut out: Vec<String> = Vec::new();
    let mut i: usize = 0;
    while i < s.len()
        invariant
            s@ == text@,
            i <= s.len(),
            views(out@) + lines_from(s@, i as int) == lines(text@),
        decreases s.len() - i,
    {
        let mut e: usize = i;
        while e < s.len() && s[e] != '\n'
            invariant
                i <= e <= s.len(),
                line_end(s@, i as int) == line_end(s@, e as int),
            decreases s.len() - e,
        {
            e += 1;
        }
        let ghost before = views(out@);
        if e == s.len() {
            let line = part(s.as_slice(), i, e);
            assert(line@ =~= s@.skip(i as int));
            let t = string_of(line.as_slice());
            out.push(t);
            assert(views(out@) =~= before.push(line@));
            assert(lines_from(s@, i as int) =~= seq![line@]);
            assert(lines_from(s@, e as int) =~= Seq::empty());
            i = e;
            assert(views(out@) + lines_from(s@, i as int) =~= before + seq![line@]);
        } else {
            let stop: usize = if e > i && s[e - 1] == '\r' {
                e - 1
            } else {
                e
            };
            let line = part(s.as_slice(), i, stop);
            assert(line@ =~= without_cr(s@.subrange(i as int, e as int)));
            let t = string_of(line.as_slice());
            out.push(t);
            assert(views(out@) =~= before.push(line@));
            assert(lines_from(s@, i as int) == seq![line@] + lines_from(s@, e + 1));
            i = e + 1;
            assert(views(out@) + lines_from(s@, i as int) =~= before + (seq![line@] + lines_from(
                s@,
                i as int,
            )));
        }
    }
    assert(lines_from(s@, i as int) =~= Seq::empty());
    assert(views(out@) =~= views(out@) + lines_from(s@, i as int));
    out
}

/// Removing leading characters of a class leaves an end of the text that does
/// not begin with one.
pub proof fn drop_leading_shape(s: Seq<char>, k: CharClass) -> (n: int)
    ensures
        0 <= n <= s.len(),
        drop_leading(s, k) == s.skip(n),
        n < s.len() ==> !k.has(s[n]),
        forall|i: int| 0 <= i < n ==> k.has(#[trigger] s[i]),
    decreases s.len(),
{
    if s.len() > 0 && k.has(s[0]) {
        let m = drop_leading_shape(s.skip(1), k);
        assert(s.skip(1).skip(m) =~= s.skip(m + 1));
        assert forall|i: int| 0 <= i < m + 1 implies k.has(#[trigger] s[i]) by {
            if i > 0 {
                assert(s.skip(1)[i - 1] == s[i]);
            }
        }
        m + 1
    } else {
        assert(s.skip(0) =~= s);
        0
    }
}

/// Removing trailing characters of a class leaves a beginning of the text that
/// does not end with one.
pub proof fn drop_trailing_shape(s: Seq<char>, k: CharClass) -> (n: int)
    ensures
        0 <= n <= s.len(),
        drop_trailing(s, k) == s.take(n),
        n > 0 ==> !k.has(s[n - 1]),
    decreases s.len(),
{
    if s.len() > 0 && k.has(s.last()) {
        let m = drop_trailing_shape(s.drop_last(), k);
        assert(s.drop_last().take(m) =~= s.take(m));
        m
    } else {
        assert(s.take(s.len() as int) =~= s);
        s.len() as int
    }
}

/// A text that neither begins nor ends with white space is its own trim.
pub proof fn trimmed_fixed(s: Seq<char>)
    requires
        s.len() > 0 ==> !white_space(s[0]) && !white_space(s.last()),
    ensures
        trimmed(s) == s,
{
}

/// What trimming leaves: a part of the text that is its own trim.
pub proof fn trimmed_shape(s: Seq<char>) -> (r: (int, int))
    ensures
        0 <= r.0 <= r.1 <= s.len(),
        trimmed(s) == s.subrange(r.0, r.1),
        trimmed(s).len() > 0 ==> !white_space(trimmed(s)[0]) && !white_space(trimmed(s).last()),
        trimmed(trimmed(s)) == trimmed(s),
{
    let a = drop_leading_shape(s, CharClass::WhiteSpace);
    let t = s.skip(a);
    let n = drop_trailing_shape(t, CharClass::WhiteSpace);
    assert(t.take(n) =~= s.subrange(a, a + n));
    if n > 0 {
        assert(t.take(n)[0] == s[a]);
        assert(t.take(n).last() == t[n - 1]);
    }
    trimmed_fixed(trimmed(s));
    (a, a + n)
}

/// A text that stands in a part of `s` stands in `s`.
pub proof fn has_text_in_part(s: Seq<char>, from: int, to: int, p: Seq<char>)
    requires
        0 <= from <= to <= s.len(),
        has_text(s.subrange(from, to), p),
    ensures
        has_text(s, p),
{
    let i = choose|i: int| #[trigger] occurs_at(s.subrange(from, to), p, i);
    assert(s.subrange(from + i, from + i + p.len()) =~= s.subrange(from, to).subrange(
        i,
        i + p.len(),
    ));
    assert(occurs_at(s, p, from + i));
}

/// The first position from `i` on of a character that is white space
/// (`white`) or that is not (`!white`), or the length.
pub open spec fn run_end(s: Seq<char>, i: int, white: bool) -> int
    decreases s.len() - i,
{
    if i >= s.len() {
        s.len() as int
    } else if white_space(s[i]) == white {
        i
    } else {
        run_end(s, i + 1, white)
    }
}

/// The words of `s` from position `i` on: the longest runs without white
/// space.
pub open spec fn words_from(s: Seq<char>, i: int) -> Seq<Seq<char>>
    decreases s.len() - i,
{
    let a = run_end(s, i, false);
    let b = run_end(s, a, true);
    if i < 0 || a < i || a >= s.len() || b <= a || b > s.len() {
        Seq::empty()
    } else {
        seq![s.subrange(a, b)] + words_from(s, b)
    }
}

/// The words of a text.
pub open spec fn words(s: Seq<char>) -> Seq<Seq<char>> {
    words_from(s, 0)
}

proof fn run_end_bounds(s: Seq<char>, i: int, white: bool)
    requires
        0 <= i <= s.len(),
    ensures
        i <= run_end(s, i, white) <= s.len(),
    decreases s.len() - i,
{
    if i < s.len() && white_space(s[i]) != white {
        run_end_bounds(s, i + 1, white);
    }
}

fn find_run_end(s: &[char], from: usize, white: bool) -> (r: usize)
    requires
        from <= s.len(),
    ensures
        r == run_end(s@, from as int, white),
        from <= r <= s.len(),
{
    let mut i: usize = from;
    while i < s.len() && is_white_space(s[i]) != white
        invariant
            from <= i <= s.len(),
            run_end(s@, from as int, white) == run_end(s@, i as int, white),
        decreases s.len() - i,
    {
        i += 1;
    }
    i
}

/// The words of a text.
pub fn split_words(text: &str) -> (r: Vec<String>)
    ensures
        views(r@) == words(text@),
{
    let s = chars_of(text);
    let mut out: Vec<String> = Vec::new();
    let mut i: usize = 0;
    loop
        invariant
            s@ == text@,
            i <= s.len(),
            views(out@) + words_from(s@, i as int) == words(text@),
        decreases s.len() - i,
    {
        let a = find_run_end(s.as_slice(), i, false);
        if a >= s.len() {
            assert(words_from(s@, i as int) =~= Seq::empty());
            assert(views(out@) =~= views(out@) + words_from(s@, i as int));
            return out;
        }
        let b = find_run_end(s.as_slice(), a, true);
        proof {
            run_end_stops(s@, i as int, false);
            run_end_bounds(s@, a + 1, true);
        }
        let word = part(s.as_slice(), a, b);
        let t = string_of(word.as_slice());
        let ghost before = views(out@);
        out.push(t);
        assert(views(out@) =~= before.push(word@));
        assert(words_from(s@, i as int) == seq![word@] + words_from(s@, b as int));
        i = b;
        assert(views(out@) + words_from(s@, i as int) =~= before + (seq![word@] + words_from(
            s@,
            i as int,
        )));
    }
}

/// At the end of a run stands a character of the asked kind.
proof fn run_end_stops(s: Seq<char>, i: int, white: bool)
    requires
        0 <= i <= s.len(),
        run_end(s, i, white) < s.len(),
    ensures
        white_space(s[run_end(s, i, white)]) == white,
    decreases s.len() - i,
{
    if i < s.len() && white_space(s[i]) != white {
        run_end_stops(s, i + 1, white);
    }
}

/// The length of a text in UTF-8 bytes.
pub open spec fn byte_len(s: Seq<char>) -> nat {
    (encode_utf8(s).len() as usize) as nat
}

/// The length of a text in UTF-8 bytes.
pub fn byte_length(s: &str) -> (r: usize)
    ensures
        r == byte_len(s@),
{
    s.len()
}

/// Whether two lists hold the same texts.
pub fn same_texts(a: &Vec<String>, b: &Vec<String>) -> (r: bool)
    ensures
        r == (views(a@) == views(b@)),
{
    if a.len() != b.len() {
        assert(views(a@).len() != views(b@).len());
        return false;
    }
    for i in 0..a.len()
        invariant
            a.len() == b.len(),
            forall|j: int| 0 <= j < i ==> views(a@)[j] == views(b@)[j],
    {
        if !same_text(a[i].as_str(), b[i].as_str()) {
            assert(views(a@)[i as int] != views(b@)[i as int]);
            return false;
        }
    }
    assert(views(a@) =~= views(b@));
    true
}

/// Whether two optional texts are the same.
pub fn same_opt(a: &Option<String>, b: &Option<String>) -> (r: bool)
    ensures
        r == (opt_view(*a) == opt_view(*b)),
{
    match (a, b) {
        (Some(x), Some(y)) => same_text(x.as_str(), y.as_str()),
        (None, None) => true,
        _ => false,
    }
}

/// What stands before the first colon, or the whole text.
pub open spec fn before_colon(s: Seq<char>) -> Seq<char> {
    match first_of(s, ":"@) {
        Some(i) => s.take(i),
        None => s,
    }
}

/// What stands behind the first colon, where there is one.
pub open spec fn after_colon(s: Seq<char>) -> Option<Seq<char>> {
    match first_of(s, ":"@) {
        Some(i) => Some(s.skip(i + 1)),
        None => None,
    }
}

/// A text split at its first colon.
pub fn split_at_colon(s: &str) -> (r: (String, Option<String>))
    ensures
        r.0@ == before_colon(s@),
        opt_view(r.1) == after_colon(s@),
{
    let chars = chars_of(s);
    let colon = chars_of(":");
    proof {
        reveal_strlit(":");
        assert(colon@.len() == 1);
    }
    let n: usize = chars.len();
    match find_chars(chars.as_slice(), colon.as_slice()) {
        Some(i) => {
            let head = part(chars.as_slice(), 0, i);
            let tail = part(chars.as_slice(), i + 1, n);
            assert(head@ =~= s@.take(i as int));
            assert(tail@ =~= s@.skip(i + 1));
            (string_of(head.as_slice()), Some(string_of(tail.as_slice())))
        },
        None => (s.to_owned(), None),
    }
}

/// A number in decimal has a digit.
pub proof fn decimal_nonempty(n: nat)
    ensures
        decimal(n).len() > 0,
{
}

/// Different numbers are written differently.
pub proof fn decimal_injective(a: nat, b: nat)
    requires
        decimal(a) == decimal(b),
    ensures
        a == b,
    decreases a,
{
    decimal_nonempty(a / 10);
    decimal_nonempty(b / 10);
    assert(decimal(a).last() == digit(a % 10));
    assert(decimal(b).last() == digit(b % 10));
    assert(a % 10 == b % 10);
    if a >= 10 && b >= 10 {
        assert(decimal(a).drop_last() =~= decimal(a / 10));
        assert(decimal(b).drop_last() =~= decimal(b / 10));
        decimal_injective(a / 10, b / 10);
        assert(a == 10 * (a / 10) + a % 10);
        assert(b == 10 * (b / 10) + b % 10);
    }
}

/// Whether a text comes before another in dictionary order.
pub open spec fn precedes(a: Seq<char>, b: Seq<char>) -> bool
    decreases b.len(),
{
    if b.len() == 0 {
        false
    } else if a.len() == 0 {
        true
    } else if a[0] != b[0] {
        a[0] < b[0]
    } else {
        precedes(a.skip(1), b.skip(1))
    }
}

/// Dictionary order is transitive.
pub proof fn precedes_transitive(a: Seq<char>, b: Seq<char>, c: Seq<char>)
    requires
        precedes(a, b),
        precedes(b, c),
    ensures
        precedes(a, c),
    decreases c.len(),
{
    if a.len() > 0 && b.len() > 0 && c.len() > 0 && a[0] == b[0] && b[0] == c[0] {
        precedes_transitive(a.skip(1), b.skip(1), c.skip(1));
    }
}

/// Of two different texts one comes before the other, and only one.
pub proof fn precedes_total(a: Seq<char>, b: Seq<char>)
    ensures
        a != b ==> precedes(a, b) || precedes(b, a),
        !(precedes(a, b) && precedes(b, a)),
        !precedes(a, a),
    decreases a.len() + b.len(),
{
    if a.len() > 0 && b.len() > 0 && a[0] == b[0] {
        precedes_total(a.skip(1), b.skip(1));
        if a.skip(1) == b.skip(1) {
            assert(a =~= seq![a[0]] + a.skip(1));
            assert(b =~= seq![b[0]] + b.skip(1));
        }
    } else if a.len() == 0 && b.len() == 0 {
        assert(a =~= b);
    }
    precedes_irreflexive(a);
}

proof fn precedes_irreflexive(a: Seq<char>)
    ensures
        !precedes(a, a),
    decreases a.len(),
{
    if a.len() > 0 {
        precedes_irreflexive(a.skip(1));
    }
}

/// Whether a text comes before another in dictionary order.
pub fn comes_before(a: &str, b: &str) -> (r: bool)
    ensures
        r == precedes(a@, b@),
{
    let x = chars_of(a);
    let y = chars_of(b);
    let mut i: usize = 0;
    assert(x@.skip(0) =~= x@);
    assert(y@.skip(0) =~= y@);
    loop
        invariant
            x@ == a@,
            y@ == b@,
            i <= x.len(),
            i <= y.len(),
            precedes(a@, b@) == precedes(x@.skip(i as int), y@.skip(i as int)),
        decreases x.len() - i,
    {
        if i >= y.len() {
            return false;
        }
        if i >= x.len() {
            return true;
        }
        if x[i] != y[i] {
            return x[i] < y[i];
        }
        assert(x@.skip(i as int).skip(1) =~= x@.skip(i + 1));
        assert(y@.skip(i as int).skip(1) =~= y@.skip(i + 1));
        i += 1;
    }
}

/// A text stands in another exactly where the other is made of something, the
/// text, and something more.
pub proof fn has_text_splits(s: Seq<char>, p: Seq<char>)
    ensures
        has_text(s, p) <==> exists|a: Seq<char>, b: Seq<char>| #[trigger] (a + p + b) == s,
{
    if has_text(s, p) {
        let i = choose|i: int| #[trigger] occurs_at(s, p, i);
        let a = s.take(i);
        let b = s.skip(i + p.len());
        assert(a + s.subrange(i, i + p.len()) + b =~= s);
        assert(a + p + b == s);
    }
    if exists|a: Seq<char>, b: Seq<char>| #[trigger] (a + p + b) == s {
        let (a, b) = choose|a: Seq<char>, b: Seq<char>| #[trigger] (a + p + b) == s;
        assert(s.subrange(a.len() as int, (a.len() + p.len()) as int) =~= p);
        assert(occurs_at(s, p, a.len() as int));
    }
}

/// A text is split at its first colon: what stands before it holds none, what
/// stands behind it may. A text without a colon stands before it whole.
pub proof fn colon_splits(a: Seq<char>, b: Seq<char>)
    requires
        forall|i: int| 0 <= i < a.len() ==> a[i] != ':',
    ensures
        before_colon(a + ":"@ + b) == a,
        after_colon(a + ":"@ + b) == Some(b),
        before_colon(a) == a,
        after_colon(a) is None,
{
    reveal_strlit(":");
    let s = a + ":"@ + b;
    let n = a.len() as int;
    assert(s.subrange(n, n + 1) =~= ":"@);
    assert(occurs_at(s, ":"@, n));
    assert forall|i: int| 0 <= i < n implies !#[trigger] occurs_at(s, ":"@, i) by {
        if occurs_at(s, ":"@, i) {
            assert(s.subrange(i, i + 1)[0] == s[i]);
            assert(s[i] == a[i]);
        }
    }
    assert forall|i: int| 0 <= i implies !#[trigger] occurs_at(a, ":"@, i) by {
        if occurs_at(a, ":"@, i) {
            assert(a.subrange(i, i + 1)[0] == a[i]);
        }
    }
    find_from_is_least(s, ":"@, 0);
    find_from_is_least(a, ":"@, 0);
    assert(s.take(n) =~= a);
    assert(s.skip(n + 1) =~= b);
}

/// What stands before the first colon is the beginning of the text, and holds
/// no colon.
pub proof fn before_colon_is_prefix(s: Seq<char>)
    ensures
        before_colon(s).is_prefix_of(s),
        forall|i: int| 0 <= i < before_colon(s).len() ==> before_colon(s)[i] != ':',
        after_colon(s) matches Some(b) ==> before_colon(s) + ":"@ + b == s,
        after_colon(s) is None ==> before_colon(s) == s,
{
    reveal_strlit(":");
    find_from_is_least(s, ":"@, 0);
    assert forall|i: int| 0 <= i < before_colon(s).len() implies before_colon(s)[i] != ':' by {
        if s[i] == ':' {
            assert(s.subrange(i, i + 1) =~= ":"@);
            assert(occurs_at(s, ":"@, i));
        }
    }
    if let Some(i) = first_of(s, ":"@) {
        assert(s.subrange(i, i + 1)[0] == s[i]);
        assert(s.take(i) + ":"@ + s.skip(i + 1) =~= s);
        assert(s.take(i).is_prefix_of(s)) by {
            assert(s.take(i) =~= s.subrange(0, i));
        }
    } else {
        assert(s.subrange(0, s.len() as int) =~= s);
    }
}

} // verus!
