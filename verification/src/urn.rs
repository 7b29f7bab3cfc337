use vstd::prelude::*;

use crate::error::{Error, ErrorKind};

verus! {

/// A character a urn may hold: lowercase letters, digits, `_` and `:`.
pub open spec fn is_urn_char(c: char) -> bool {
    c == ':' || c == '_' || ('a' <= c && c <= 'z') || ('0' <= c && c <= '9')
}

/// Every character of `s` is a urn character.
pub open spec fn urn_chars_ok(s: Seq<char>) -> bool {
    forall|i: int| 0 <= i < s.len() ==> is_urn_char(#[trigger] s[i])
}

/// The position of the last `:` in `s`, if any.
pub open spec fn last_colon(s: Seq<char>) -> Option<int>
    decreases s.len(),
{
    if s.len() == 0 {
        None
    } else if s.last() == ':' {
        Some(s.len() - 1)
    } else {
        last_colon(s.drop_last())
    }
}

/// The basename of a urn: everything after the last `:`, or the whole string
/// when no `:` is present.
pub open spec fn basename_of(s: Seq<char>) -> Seq<char> {
    match last_colon(s) {
        Some(i) => s.subrange(i + 1, s.len() as int),
        None => s,
    }
}

/// The namespace of a urn: everything before the last `:`, or the whole string
/// when no `:` is present.
pub open spec fn namespace_of(s: Seq<char>) -> Seq<char> {
    match last_colon(s) {
        Some(i) => s.subrange(0, i),
        None => s,
    }
}

/// A `:` with no later `:` after it is exactly where `last_colon` points.
proof fn lemma_last_colon_at(s: Seq<char>, i: int)
    requires
        0 <= i < s.len(),
        s[i] == ':',
        forall|j: int| i < j < s.len() ==> s[j] != ':',
    ensures
        last_colon(s) == Some(i),
    decreases s.len(),
{
    if s.last() == ':' {
        assert(i == s.len() - 1);
    } else {
        assert(i < s.len() - 1);
        lemma_last_colon_at(s.drop_last(), i);
    }
}

/// Checks that `urn` holds only lowercase letters, digits, `_` and `:`.
pub fn is_valid(urn: &str) -> (r: Result<(), Error>)
    ensures
        r is Ok <==> urn_chars_ok(urn@),
        r is Err ==> r->Err_0.spec_kind() == Some(ErrorKind::InvalidIdentifierChar),
{
    let n = urn.unicode_len();
    let mut i: usize = 0;
    while i < n
        invariant
            i <= n,
            n == urn@.len(),
            forall|j: int| 0 <= j < i ==> is_urn_char(#[trigger] urn@[j]),
        decreases n - i,
    {
        let c = urn.get_char(i);
        if !(c == ':' || c == '_' || ('a' <= c && c <= 'z') || ('0' <= c && c <= '9')) {
            return Err(Error::tagged(ErrorKind::InvalidIdentifierChar, urn));
        }
        i = i + 1;
    }
    Ok(())
}

/// The basename of a urn: everything after the last `:`, or the whole string
/// when no `:` is present.
pub fn basename(urn: &str) -> (r: &str)
    ensures
        r@ == basename_of(urn@),
{
    let n = urn.unicode_len();
    let mut i: usize = n;
    while i > 0
        invariant
            i <= n,
            n == urn@.len(),
            forall|j: int| i <= j < n ==> urn@[j] != ':',
        decreases i,
    {
        if urn.get_char(i - 1) == ':' {
            proof {
                lemma_last_colon_at(urn@, i - 1);
            }
            return urn.substring_char(i, n);
        }
        i = i - 1;
    }
    proof {
        lemma_last_colon_at_none(urn@);
    }
    urn
}

/// A string without `:` has no last colon.
proof fn lemma_last_colon_at_none(s: Seq<char>)
    requires
        forall|j: int| 0 <= j < s.len() ==> s[j] != ':',
    ensures
        last_colon(s) is None,
    decreases s.len(),
{
    if s.len() > 0 {
        lemma_last_colon_at_none(s.drop_last());
    }
}

/// The namespace of a urn: everything before the last `:`, or the whole string
/// when no `:` is present.
pub fn not_basename(urn: &str) -> (r: &str)
    ensures
        r@ == namespace_of(urn@),
{
    let n = urn.unicode_len();
    let mut i: usize = n;
    while i > 0
        invariant
            i <= n,
            n == urn@.len(),
            forall|j: int| i <= j < n ==> urn@[j] != ':',
        decreases i,
    {
        if urn.get_char(i - 1) == ':' {
            proof {
                lemma_last_colon_at(urn@, i - 1);
            }
            return urn.substring_char(0, i - 1);
        }
        i = i - 1;
    }
    proof {
        lemma_last_colon_at_none(urn@);
    }
    urn
}

} // verus!
