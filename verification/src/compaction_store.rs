//! Where compaction states are kept.
use vstd::prelude::*;

use crate::session::{key_text, KeyView, SessionKey};
use crate::text::{cat2, chars_of, string_of};

verus! {

/// A character as it stands in a file's name.
pub open spec fn slug_char(c: char) -> char {
    if c == ':' {
        '_'
    } else {
        c
    }
}

pub open spec fn slug(s: Seq<char>) -> Seq<char> {
    s.map(|i: int, c: char| slug_char(c))
}

/// The name of the file that keeps the state of a conversation.
pub open spec fn state_file(key: KeyView) -> Seq<char> {
    slug(key_text(key)) + "_compaction.json"@
}

pub fn compaction_file_name(key: &SessionKey) -> (r: String)
    ensures
        r@ == state_file(key@),
{
    let id = key.text();
    let chars = chars_of(id.as_str());
    let mut out: Vec<char> = Vec::new();
    for i in 0..chars.len()
        invariant
            out@.len() == i,
            forall|j: int| 0 <= j < i ==> #[trigger] out@[j] == slug_char(chars@[j]),
    {
        let c = chars[i];
        out.push(
            if c == ':' {
                '_'
            } else {
                c
            },
        );
    }
    assert(out@ =~= slug(key_text(key@)));
    let name = string_of(out.as_slice());
    cat2(name.as_str(), "_compaction.json")
}

/// A file's name holds no colon.
pub proof fn file_names_hold_no_colon(key: KeyView, i: int)
    requires
        0 <= i < state_file(key).len(),
    ensures
        state_file(key)[i] != ':',
{
    reveal_strlit("_compaction.json");
    let s = slug(key_text(key));
    if i < s.len() {
        assert(state_file(key)[i] == s[i]);
    } else {
        assert(state_file(key)[i] == "_compaction.json"@[i - s.len()]);
    }
}

/// Conversations whose keys are written without an underscore are kept in
/// different files.
pub proof fn files_differ(a: KeyView, b: KeyView)
    requires
        state_file(a) == state_file(b),
        !key_text(a).contains('_'),
        !key_text(b).contains('_'),
    ensures
        key_text(a) == key_text(b),
{
    let s = slug(key_text(a));
    let t = slug(key_text(b));
    assert(state_file(a).len() == s.len() + "_compaction.json"@.len());
    assert(state_file(b).len() == t.len() + "_compaction.json"@.len());
    assert(s =~= state_file(a).take(s.len() as int));
    assert(t =~= state_file(b).take(t.len() as int));
    assert forall|i: int| 0 <= i < key_text(a).len() implies key_text(a)[i] == key_text(b)[i] by {
        assert(s[i] == t[i]);
        assert(key_text(a).contains(key_text(a)[i]));
        assert(key_text(b).contains(key_text(b)[i]));
    }
    assert(key_text(a) =~= key_text(b));
}

} // verus!
