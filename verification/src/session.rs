//! Session keys: which conversation a message belongs to, and the text form
//! in which keys are written down and read back.
use vstd::prelude::*;

use crate::text::{after_prefix, cat2, cat3, lower_ascii, same_text, strip_prefix_text};

verus! {

/// How far a caller is trusted, from most to least.
#[derive(Clone, Copy, Debug, PartialEq, Eq, Structural)]
pub enum TrustLevel {
    Owner,
    Full,
    Inner,
    Familiar,
    Public,
}

impl TrustLevel {
    /// The distance from full ownership: the larger, the less trusted.
    pub open spec fn rank(self) -> int {
        match self {
            TrustLevel::Owner => 0,
            TrustLevel::Full => 1,
            TrustLevel::Inner => 2,
            TrustLevel::Familiar => 3,
            TrustLevel::Public => 4,
        }
    }

    /// The distance from full ownership.
    pub fn level(self) -> (r: u8)
        ensures
            r == self.rank(),
    {
        match self {
            TrustLevel::Owner => 0,
            TrustLevel::Full => 1,
            TrustLevel::Inner => 2,
            TrustLevel::Familiar => 3,
            TrustLevel::Public => 4,
        }
    }

    /// Whether this level is at least as trusted as another.
    pub fn at_least(self, other: TrustLevel) -> (r: bool)
        ensures
            r == (self.rank() <= other.rank()),
    {
        self.level() <= other.level()
    }

    /// The level's name.
    pub open spec fn name(self) -> Seq<char> {
        match self {
            TrustLevel::Owner => "Owner"@,
            TrustLevel::Full => "Full"@,
            TrustLevel::Inner => "Inner"@,
            TrustLevel::Familiar => "Familiar"@,
            TrustLevel::Public => "Public"@,
        }
    }

    /// The level's name.
    pub fn name_text(self) -> (r: &'static str)
        ensures
            r@ == self.name(),
    {
        match self {
            TrustLevel::Owner => "Owner",
            TrustLevel::Full => "Full",
            TrustLevel::Inner => "Inner",
            TrustLevel::Familiar => "Familiar",
            TrustLevel::Public => "Public",
        }
    }
}

/// The kind of a conversation.
#[derive(Debug, PartialEq, Eq)]
pub enum SessionKind {
    /// The agent's main conversation.
    Main,
    /// A direct conversation with one identity.
    Dm(String),
    /// A group conversation.
    Group(String),
    /// A conversation of its own, named by a UUID.
    Isolated(u128),
    /// A subagent run, named by a UUID.
    Subagent(u128),
    /// The runs of one scheduled job.
    Cron(String),
}

/// The identity of a conversation.
#[derive(Debug, PartialEq, Eq)]
pub struct SessionKey {
    pub agent_id: String,
    pub kind: SessionKind,
}

/// What a [`SessionKind`] stands for.
pub enum KindView {
    Main,
    Dm(Seq<char>),
    Group(Seq<char>),
    Isolated(u128),
    Subagent(u128),
    Cron(Seq<char>),
}

/// What a [`SessionKey`] stands for.
pub struct KeyView {
    pub agent_id: Seq<char>,
    pub kind: KindView,
}

impl View for SessionKind {
    type V = KindView;

    open spec fn view(&self) -> KindView {
        match *self {
            SessionKind::Main => KindView::Main,
            SessionKind::Dm(s) => KindView::Dm(s@),
            SessionKind::Group(s) => KindView::Group(s@),
            SessionKind::Isolated(u) => KindView::Isolated(u),
            SessionKind::Subagent(u) => KindView::Subagent(u),
            SessionKind::Cron(s) => KindView::Cron(s@),
        }
    }
}

impl View for SessionKey {
    type V = KeyView;

    open spec fn view(&self) -> KeyView {
        KeyView { agent_id: self.agent_id@, kind: self.kind@ }
    }
}

impl Clone for SessionKind {
    fn clone(&self) -> (r: Self)
        ensures
            r == *self,
    {
        match self {
            SessionKind::Main => SessionKind::Main,
            SessionKind::Dm(s) => SessionKind::Dm(s.clone()),
            SessionKind::Group(s) => SessionKind::Group(s.clone()),
            SessionKind::Isolated(u) => SessionKind::Isolated(*u),
            SessionKind::Subagent(u) => SessionKind::Subagent(*u),
            SessionKind::Cron(s) => SessionKind::Cron(s.clone()),
        }
    }
}

impl Clone for SessionKey {
    fn clone(&self) -> (r: Self)
        ensures
            r == *self,
    {
        SessionKey { agent_id: self.agent_id.clone(), kind: self.kind.clone() }
    }
}

/// Whether two kinds stand for the same thing.
pub fn same_kind(a: &SessionKind, b: &SessionKind) -> (r: bool)
    ensures
        r == (a@ == b@),
{
    match (a, b) {
        (SessionKind::Main, SessionKind::Main) => true,
        (SessionKind::Dm(x), SessionKind::Dm(y)) => same_text(x.as_str(), y.as_str()),
        (SessionKind::Group(x), SessionKind::Group(y)) => same_text(x.as_str(), y.as_str()),
        (SessionKind::Isolated(x), SessionKind::Isolated(y)) => *x == *y,
        (SessionKind::Subagent(x), SessionKind::Subagent(y)) => *x == *y,
        (SessionKind::Cron(x), SessionKind::Cron(y)) => same_text(x.as_str(), y.as_str()),
        _ => false,
    }
}

/// Whether two keys name the same conversation.
pub fn same_key(a: &SessionKey, b: &SessionKey) -> (r: bool)
    ensures
        r == (a@ == b@),
{
    same_text(a.agent_id.as_str(), b.agent_id.as_str()) && same_kind(&a.kind, &b.kind)
}

/// The hexadecimal digit of a number below sixteen.
pub open spec fn hex_digit(n: nat) -> char {
    if n < 10 {
        ('0' as u8 + n) as char
    } else {
        ('a' as u8 + n - 10) as char
    }
}

/// The value of a hexadecimal digit, of either case.
pub open spec fn hex_value(c: char) -> Option<nat> {
    if '0' <= c <= '9' {
        Some((c as u8 - '0' as u8) as nat)
    } else if 'a' <= c <= 'f' {
        Some((c as u8 - 'a' as u8 + 10) as nat)
    } else if 'A' <= c <= 'F' {
        Some((c as u8 - 'A' as u8 + 10) as nat)
    } else {
        None
    }
}

/// The last `n` hexadecimal digits of `v`.
pub open spec fn hex_text(v: nat, n: nat) -> Seq<char>
    decreases n,
{
    if n == 0 {
        Seq::empty()
    } else {
        hex_text(v / 16, (n - 1) as nat).push(hex_digit(v % 16))
    }
}

/// The number that hexadecimal digits write.
pub open spec fn hex_number(s: Seq<char>) -> Option<nat>
    decreases s.len(),
{
    if s.len() == 0 {
        Some(0)
    } else {
        match (hex_number(s.drop_last()), hex_value(s.last())) {
            (Some(n), Some(d)) => Some(n * 16 + d),
            _ => None,
        }
    }
}

/// A UUID in its usual form: 32 hexadecimal digits in groups of
/// 8, 4, 4, 4 and 12.
pub open spec fn hyphenated(v: u128) -> Seq<char> {
    let h = hex_text(v as nat, 32);
    h.subrange(0, 8) + seq!['-'] + h.subrange(8, 12) + seq!['-'] + h.subrange(12, 16) + seq!['-']
        + h.subrange(16, 20) + seq!['-'] + h.subrange(20, 32)
}

/// The number in 36 characters of the usual form.
pub open spec fn hyphenated_number(s: Seq<char>) -> Option<nat> {
    if s.len() == 36 && s[8] == '-' && s[13] == '-' && s[18] == '-' && s[23] == '-' {
        hex_number(
            s.subrange(0, 8) + s.subrange(9, 13) + s.subrange(14, 18) + s.subrange(19, 23)
                + s.subrange(24, 36),
        )
    } else {
        None
    }
}

/// The UUID that a text writes: 32 digits, the usual form, the usual form in
/// braces, or the usual form behind `urn:uuid:`.
pub open spec fn uuid_number(s: Seq<char>) -> Option<nat> {
    if s.len() == 32 {
        hex_number(s)
    } else if s.len() == 36 {
        hyphenated_number(s)
    } else if s.len() == 38 && s[0] == '{' && s[37] == '}' {
        hyphenated_number(s.subrange(1, 37))
    } else if s.len() == 45 && lower_ascii(s.take(9)) == "urn:uuid:"@ {
        hyphenated_number(s.skip(9))
    } else {
        None
    }
}

/// What `uuid` says of a text that is not a UUID.
pub uninterp spec fn uuid_fault(s: Seq<char>) -> Seq<char>;

/// `uuid::Uuid::parse_str`, with the UUID as the big-endian number that
/// `as_u128` gives, and the error as the text it displays. Claimed: it succeeds
/// exactly on the texts of [`uuid_number`] and returns that number; what it
/// says of another text depends on that text alone, and is what [`uuid_fault`]
/// names.
#[verifier::external_body]
pub(crate) fn parse_uuid(s: &str) -> (r: Result<u128, String>)
    ensures
        match r {
            Ok(u) => uuid_number(s@) == Some(u as nat),
            Err(e) => uuid_number(s@) is None && e@ == uuid_fault(s@),
        },
{
    match uuid::Uuid::parse_str(s) {
        Ok(u) => Ok(u.as_u128()),
        Err(e) => Err(e.to_string()),
    }
}

/// The `Display` form of a `uuid::Uuid`, which `to_string` writes. Claimed: it
/// is the usual hyphenated form with small letters.
#[verifier::external_body]
pub(crate) fn uuid_text(u: u128) -> (r: String)
    ensures
        r@ == hyphenated(u),
{
    uuid::Uuid::from_u128(u).to_string()
}

/// The text form of a kind.
pub open spec fn kind_text(k: KindView) -> Seq<char> {
    match k {
        KindView::Main => "main"@,
        KindView::Dm(s) => "dm:"@ + s,
        KindView::Group(s) => "group:"@ + s,
        KindView::Isolated(u) => "isolated:"@ + hyphenated(u),
        KindView::Subagent(u) => "subagent:"@ + hyphenated(u),
        KindView::Cron(s) => "cron:"@ + s,
    }
}

/// The text form of a key: the agent, a colon, the kind.
pub open spec fn key_text(k: KeyView) -> Seq<char> {
    k.agent_id + ":"@ + kind_text(k.kind)
}

impl SessionKey {
    /// The text form of the key.
    pub fn text(&self) -> (r: String)
        ensures
            r@ == key_text(self@),
    {
        let kind = match &self.kind {
            SessionKind::Main => "main".to_owned(),
            SessionKind::Dm(s) => cat2("dm:", s.as_str()),
            SessionKind::Group(s) => cat2("group:", s.as_str()),
            SessionKind::Isolated(u) => {
                let t = uuid_text(*u);
                cat2("isolated:", t.as_str())
            },
            SessionKind::Subagent(u) => {
                let t = uuid_text(*u);
                cat2("subagent:", t.as_str())
            },
            SessionKind::Cron(s) => cat2("cron:", s.as_str()),
        };
        cat3(self.agent_id.as_str(), ":", kind.as_str())
    }
}

/// The kind that a text writes.
pub open spec fn parsed_kind(rest: Seq<char>) -> Option<KindView> {
    if rest == "main"@ {
        Some(KindView::Main)
    } else if after_prefix(rest, "dm:"@) is Some {
        Some(KindView::Dm(after_prefix(rest, "dm:"@)->0))
    } else if after_prefix(rest, "group:"@) is Some {
        Some(KindView::Group(after_prefix(rest, "group:"@)->0))
    } else if after_prefix(rest, "isolated:"@) is Some {
        match uuid_number(after_prefix(rest, "isolated:"@)->0) {
            Some(u) => Some(KindView::Isolated(u as u128)),
            None => None,
        }
    } else if after_prefix(rest, "subagent:"@) is Some {
        match uuid_number(after_prefix(rest, "subagent:"@)->0) {
            Some(u) => Some(KindView::Subagent(u as u128)),
            None => None,
        }
    } else if after_prefix(rest, "cron:"@) is Some && after_prefix(rest, "cron:"@)->0.len() > 0 {
        Some(KindView::Cron(after_prefix(rest, "cron:"@)->0))
    } else {
        None
    }
}

/// The key that a text names for an agent: `main` alone is that agent's main
/// session, any other text needs the agent's name in front.
pub open spec fn parsed_key(session: Seq<char>, agent_id: Seq<char>) -> Option<KeyView> {
    if session == "main"@ {
        Some(KeyView { agent_id, kind: KindView::Main })
    } else {
        match after_prefix(session, agent_id + ":"@) {
            Some(rest) => match parsed_kind(rest) {
                Some(kind) => Some(KeyView { agent_id, kind }),
                None => None,
            },
            None => None,
        }
    }
}

/// The view of an optional key.
pub open spec fn opt_key_view(k: Option<SessionKey>) -> Option<KeyView> {
    match k {
        Some(k) => Some(k@),
        None => None,
    }
}

fn parse_kind(rest: &str) -> (r: Option<SessionKind>)
    ensures
        match r {
            Some(k) => parsed_kind(rest@) == Some(k@),
            None => parsed_kind(rest@) is None,
        },
{
    if same_text(rest, "main") {
        return Some(SessionKind::Main);
    }
    if let Some(dm) = strip_prefix_text(rest, "dm:") {
        return Some(SessionKind::Dm(dm));
    }
    if let Some(group) = strip_prefix_text(rest, "group:") {
        return Some(SessionKind::Group(group));
    }
    if let Some(isolated) = strip_prefix_text(rest, "isolated:") {
        return match parse_uuid(isolated.as_str()) {
            Ok(u) => Some(SessionKind::Isolated(u)),
            Err(_) => None,
        };
    }
    if let Some(subagent) = strip_prefix_text(rest, "subagent:") {
        return match parse_uuid(subagent.as_str()) {
            Ok(u) => Some(SessionKind::Subagent(u)),
            Err(_) => None,
        };
    }
    if let Some(cron) = strip_prefix_text(rest, "cron:") {
        if !cron.as_str().is_empty() {
            return Some(SessionKind::Cron(cron));
        }
    }
    None
}

/// Reads the text form of a key for an agent.
pub fn parse_session_key(session: &str, agent_id: &str) -> (r: Option<SessionKey>)
    ensures
        opt_key_view(r) == parsed_key(session@, agent_id@),
{
    if same_text(session, "main") {
        return Some(SessionKey { agent_id: agent_id.to_owned(), kind: SessionKind::Main });
    }
    let prefix = cat2(agent_id, ":");
    match strip_prefix_text(session, prefix.as_str()) {
        Some(rest) => match parse_kind(rest.as_str()) {
            Some(kind) => Some(SessionKey { agent_id: agent_id.to_owned(), kind }),
            None => None,
        },
        None => None,
    }
}

/// Sixteen to the `n`.
pub open spec fn pow16(n: nat) -> nat
    decreases n,
{
    if n == 0 {
        1
    } else {
        16 * pow16((n - 1) as nat)
    }
}

proof fn hex_round_trip(v: nat, n: nat)
    requires
        v < pow16(n),
    ensures
        hex_text(v, n).len() == n,
        hex_number(hex_text(v, n)) == Some(v),
    decreases n,
{
    if n > 0 {
        hex_round_trip(v / 16, (n - 1) as nat);
        let s = hex_text(v, n);
        assert(s.drop_last() =~= hex_text(v / 16, (n - 1) as nat));
        assert(s.last() == hex_digit(v % 16));
        let d = v % 16;
        assert(hex_value(hex_digit(d)) == Some(d));
        assert(v == (v / 16) * 16 + v % 16);
    }
}

/// Reading the usual form of a UUID gives the UUID back.
pub proof fn uuid_round_trip(u: u128)
    ensures
        uuid_number(hyphenated(u)) == Some(u as nat),
{
    assert(pow16(32) == 0x1_0000_0000_0000_0000_0000_0000_0000_0000nat) by {
        reveal_with_fuel(pow16, 33);
    }
    hex_round_trip(u as nat, 32);
    let h = hex_text(u as nat, 32);
    let s = hyphenated(u);
    assert(s.len() == 36);
    assert(s.subrange(0, 8) + s.subrange(9, 13) + s.subrange(14, 18) + s.subrange(19, 23)
        + s.subrange(24, 36) =~= h);
}

/// Reading back the text form of a key gives the key, for every key but that
/// of a cron job without a name.
pub proof fn key_round_trip(k: KeyView)
    requires
        k.kind != KindView::Cron(Seq::empty()),
    ensures
        parsed_key(key_text(k), k.agent_id) == Some(k),
{
    reveal_strlit("main");
    reveal_strlit(":");
    reveal_strlit("dm:");
    reveal_strlit("group:");
    reveal_strlit("isolated:");
    reveal_strlit("subagent:");
    reveal_strlit("cron:");
    let s = key_text(k);
    let prefix = k.agent_id + ":"@;
    let rest = kind_text(k.kind);
    assert(s.take(prefix.len() as int) =~= prefix);
    assert(s.skip(prefix.len() as int) =~= rest);
    if s == "main"@ {
        assert(s[k.agent_id.len() as int] == ':');
    }
    assert(k.kind !is Main ==> rest[0] != "main"@[0]);
    match k.kind {
        KindView::Main => {},
        KindView::Dm(x) => {
            kind_rest("dm:"@, x);
        },
        KindView::Group(x) => {
            kind_rest("group:"@, x);
            first_char_differs("dm:"@, rest);
        },
        KindView::Isolated(u) => {
            kind_rest("isolated:"@, hyphenated(u));
            first_char_differs("dm:"@, rest);
            first_char_differs("group:"@, rest);
            uuid_round_trip(u);
        },
        KindView::Subagent(u) => {
            kind_rest("subagent:"@, hyphenated(u));
            first_char_differs("dm:"@, rest);
            first_char_differs("group:"@, rest);
            first_char_differs("isolated:"@, rest);
            uuid_round_trip(u);
        },
        KindView::Cron(x) => {
            kind_rest("cron:"@, x);
            first_char_differs("dm:"@, rest);
            first_char_differs("group:"@, rest);
            first_char_differs("isolated:"@, rest);
            first_char_differs("subagent:"@, rest);
            assert(x.len() > 0) by {
                if x.len() == 0 {
                    assert(x =~= Seq::empty());
                }
            }
        },
    }
}

proof fn kind_rest(p: Seq<char>, x: Seq<char>)
    ensures
        after_prefix(p + x, p) == Some(x),
{
    assert((p + x).take(p.len() as int) =~= p);
    assert((p + x).skip(p.len() as int) =~= x);
}

proof fn first_char_differs(p: Seq<char>, s: Seq<char>)
    requires
        p.len() > 0,
        s.len() > 0,
        p[0] != s[0],
    ensures
        !p.is_prefix_of(s),
{
    if p.is_prefix_of(s) {
        assert(s.take(p.len() as int)[0] == s[0]);
    }
}

/// Two keys of one agent with the same text form are the same key.
pub proof fn key_text_is_injective(a: KeyView, b: KeyView)
    requires
        a.agent_id == b.agent_id,
        a.kind != KindView::Cron(Seq::empty()),
        b.kind != KindView::Cron(Seq::empty()),
        key_text(a) == key_text(b),
    ensures
        a == b,
{
    key_round_trip(a);
    key_round_trip(b);
}

/// A text behind another agent's name is no key: what is read belongs to the
/// agent that was asked for.
pub proof fn parsed_key_keeps_agent(session: Seq<char>, agent_id: Seq<char>)
    ensures
        parsed_key(session, agent_id) matches Some(k) ==> k.agent_id == agent_id,
        session != "main"@ && !(agent_id + ":"@).is_prefix_of(session) ==> parsed_key(
            session,
            agent_id,
        ) is None,
{
}

} // verus!
