//! Small verified text helpers shared by the path, host and node-path logic.

use vstd::prelude::*;

verus! {

/// Whether `s` begins with the prefix `pre`.
pub open spec fn starts_with(s: Seq<char>, pre: Seq<char>) -> bool {
    s.len() >= pre.len() && s.subrange(0, pre.len() as int) == pre
}

/// Whether `s` ends with the suffix `suf`.
pub open spec fn ends_with(s: Seq<char>, suf: Seq<char>) -> bool {
    s.len() >= suf.len() && s.subrange(s.len() - suf.len(), s.len() as int) == suf
}

/// Character-by-character prefix test.
pub fn str_starts_with(s: &str, pre: &str) -> (b: bool)
    ensures
        b == starts_with(s@, pre@),
{
    let n: usize = s.unicode_len();
    let m: usize = pre.unicode_len();
    if m > n {
        return false;
    }
    let mut i: usize = 0;
    while i < m
        invariant
            m <= n,
            n == s@.len(),
            m == pre@.len(),
            0 <= i <= m,
            forall|j: int| 0 <= j < i ==> s@[j] == pre@[j],
        decreases m - i,
    {
        if s.get_char(i) != pre.get_char(i) {
            return false;
        }
        i = i + 1;
    }
    proof {
        assert(s@.subrange(0, m as int) =~= pre@);
    }
    true
}

/// Character-by-character suffix test.
pub fn str_ends_with(s: &str, suf: &str) -> (b: bool)
    ensures
        b == ends_with(s@, suf@),
{
    let n: usize = s.unicode_len();
    let m: usize = suf.unicode_len();
    if m > n {
        return false;
    }
    let mut i: usize = 0;
    while i < m
        invariant
            m <= n,
            n == s@.len(),
            m == suf@.len(),
            0 <= i <= m,
            forall|j: int| 0 <= j < i ==> s@[n - m + j] == suf@[j],
        decreases m - i,
    {
        if s.get_char(n - m + i) != suf.get_char(i) {
            return false;
        }
        i = i + 1;
    }
    proof {
        assert(s@.subrange(n - m, n as int) =~= suf@);
    }
    true
}

} // verus!
