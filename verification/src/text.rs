use vstd::prelude::*;

verus! {

/// `k` occurs in `s` starting at position `i`.
pub open spec fn substr_at(s: Seq<char>, k: Seq<char>, i: int) -> bool {
    0 <= i && i + k.len() <= s.len() && s.subrange(i, i + k.len() as int) == k
}

/// `k` occurs somewhere in `s` as a contiguous run of characters.
pub open spec fn contains_substr(s: Seq<char>, k: Seq<char>) -> bool {
    exists|i: int| substr_at(s, k, i)
}

/// Relies on `str::contains` with a `&str` pattern: it returns true exactly
/// when the pattern occurs as a substring of the string slice.
#[verifier::external_body]
pub(crate) fn str_contains(s: &str, k: &str) -> (r: bool)
    ensures
        r == contains_substr(s@, k@),
{
    s.contains(k)
}

} // verus!
