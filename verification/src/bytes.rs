//! Small verified helpers on byte slices: first occurrence of a byte, and
//! copying a range.

use vstd::prelude::*;

verus! {

/// The first index at or after `i` where `b` occurs in `s`, or `s.len()`
/// when `b` does not occur there.
pub open spec fn find_from(s: Seq<u8>, b: u8, i: int) -> int
    decreases s.len() - i when i <= s.len()
{
    if i >= s.len() {
        s.len() as int
    } else if s[i] == b {
        i
    } else {
        find_from(s, b, i + 1)
    }
}

/// The first index where `b` occurs in `s`, or `s.len()` when it does not.
pub open spec fn find_byte_spec(s: Seq<u8>, b: u8) -> int {
    find_from(s, b, 0)
}

/// What `find_from` returns: a position in range, holding `b`, with no
/// earlier occurrence; or `s.len()` when `b` is absent.
pub proof fn lemma_find_from(s: Seq<u8>, b: u8, i: int)
    requires
        0 <= i <= s.len(),
    ensures
        i <= find_from(s, b, i) <= s.len(),
        find_from(s, b, i) < s.len() ==> s[find_from(s, b, i)] == b,
        forall|j: int| i <= j < find_from(s, b, i) ==> s[j] != b,
    decreases s.len() - i,
{
    if i < s.len() && s[i] != b {
        lemma_find_from(s, b, i + 1);
    }
}

/// If `b` first occurs at `p`, the search finds exactly `p`.
pub proof fn lemma_find_from_at(s: Seq<u8>, b: u8, i: int, p: int)
    requires
        0 <= i <= p < s.len(),
        s[p] == b,
        forall|j: int| i <= j < p ==> s[j] != b,
    ensures
        find_from(s, b, i) == p,
    decreases p - i,
{
    if i < p {
        lemma_find_from_at(s, b, i + 1, p);
    }
}

/// Find the first occurrence of `b` in `s`, or `s.len()` if there is none.
pub fn find_byte(s: &[u8], b: u8) -> (r: usize)
    ensures
        r as int == find_byte_spec(s@, b),
{
    let mut i: usize = 0;
    while i < s.len()
        invariant
            0 <= i <= s@.len(),
            find_from(s@, b, 0) == find_from(s@, b, i as int),
        decreases s@.len() - i,
    {
        if s[i] == b {
            return i;
        }
        i = i + 1;
    }
    i
}

/// Copy `s[a..c]` into a fresh vector.
pub fn copy_range(s: &[u8], a: usize, c: usize) -> (r: Vec<u8>)
    requires
        a <= c <= s@.len(),
    ensures
        r@ == s@.subrange(a as int, c as int),
{
    let mut r: Vec<u8> = Vec::new();
    let mut i: usize = a;
    while i < c
        invariant
            a <= i <= c <= s@.len(),
            r@ == s@.subrange(a as int, i as int),
        decreases c - i,
    {
        r.push(s[i]);
        proof {
            assert(s@.subrange(a as int, i + 1) =~= s@.subrange(a as int, i as int).push(
                s@[i as int],
            ));
        }
        i = i + 1;
    }
    r
}

} // verus!
