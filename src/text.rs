//! Prefix and suffix tests on character sequences.
use vstd::prelude::*;

verus! {

/// `s` begins with `prefix`.
pub open spec fn has_prefix(s: Seq<char>, prefix: Seq<char>) -> bool {
    prefix.len() <= s.len() && s.subrange(0, prefix.len() as int) == prefix
}

/// `s` ends with `suffix`.
pub open spec fn has_suffix(s: Seq<char>, suffix: Seq<char>) -> bool {
    suffix.len() <= s.len() && s.subrange(s.len() - suffix.len(), s.len() as int) == suffix
}

/// Whether the characters of `s` from position `start` on begin with `part`.
fn matches_at(s: &str, start: usize, part: &str) -> (r: bool)
    requires
        start + part@.len() <= s@.len(),
    ensures
        r == (s@.subrange(start as int, start + part@.len()) == part@),
{
    let n = s.unicode_len();
    let m = part.unicode_len();
    let mut i: usize = 0;
    while i < m
        invariant
            i <= m,
            m == part@.len(),
            n == s@.len(),
            start + m <= n,
            forall|j: int| 0 <= j < i ==> s@[start + j] == part@[j],
        decreases m - i,
    {
        if s.get_char(start + i) != part.get_char(i) {
            assert(s@.subrange(start as int, start + m)[i as int] != part@[i as int]);
            return false;
        }
        i += 1;
    }
    assert(s@.subrange(start as int, start + m) =~= part@);
    true
}

/// Whether `s` begins with `prefix`.
pub fn starts_with(s: &str, prefix: &str) -> (r: bool)
    ensures
        r == has_prefix(s@, prefix@),
{
    let n = s.unicode_len();
    let m = prefix.unicode_len();
    if m > n {
        return false;
    }
    matches_at(s, 0, prefix)
}

/// Whether `s` ends with `suffix`.
pub fn ends_with(s: &str, suffix: &str) -> (r: bool)
    ensures
        r == has_suffix(s@, suffix@),
{
    let n = s.unicode_len();
    let m = suffix.unicode_len();
    if m > n {
        return false;
    }
    matches_at(s, n - m, suffix)
}

/// Whether `a` and `b` hold the same characters.
pub fn same_text(a: &str, b: &str) -> (r: bool)
    ensures
        r == (a@ == b@),
{
    let n = a.unicode_len();
    let m = b.unicode_len();
    if n != m {
        return false;
    }
    let r = matches_at(a, 0, b);
    assert(a@.subrange(0, n as int) =~= a@);
    r
}

} // verus!
