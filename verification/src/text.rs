//! Character-level string predicates and their executable counterparts.
//!
//! URLs and link targets are compared as plain character sequences: the
//! scope rule needs substring search, and the link filter needs prefix and
//! equality tests. All three are implemented and proved here.

use vstd::prelude::*;

verus! {

/// `p` occurs in `s` as a contiguous run starting at position `i`.
pub open spec fn occurs_at(s: Seq<char>, p: Seq<char>, i: int) -> bool {
    0 <= i && i + p.len() <= s.len() && s.subrange(i, i + p.len()) == p
}

/// `p` is a prefix of `s`.
pub open spec fn is_prefix(s: Seq<char>, p: Seq<char>) -> bool {
    occurs_at(s, p, 0)
}

/// `p` occurs somewhere in `s` as a contiguous run.
pub open spec fn contains_seq(s: Seq<char>, p: Seq<char>) -> bool {
    exists|i: int| occurs_at(s, p, i)
}

/// Character-for-character equality of two string slices.
pub fn str_eq(a: &str, b: &str) -> (r: bool)
    ensures
        r == (a@ == b@),
{
    let a_len = a.unicode_len();
    let b_len = b.unicode_len();
    if a_len != b_len {
        return false;
    }
    let mut i: usize = 0;
    while i < a_len
        invariant
            a_len == a@.len(),
            b_len == b@.len(),
            a_len == b_len,
            i <= a_len,
            forall|j: int| 0 <= j < i ==> a@[j] == b@[j],
        decreases a_len - i,
    {
        if a.get_char(i) != b.get_char(i) {
            return false;
        }
        i += 1;
    }
    proof {
        assert(a@ =~= b@);
    }
    true
}

/// `p` is a prefix of `s`, decided character by character.
pub fn starts_with(s: &str, p: &str) -> (r: bool)
    ensures
        r == is_prefix(s@, p@),
{
    let s_len = s.unicode_len();
    let p_len = p.unicode_len();
    if p_len > s_len {
        return false;
    }
    match_at(s, p, 0)
}

/// `p` occurs in `s` at position `at`, decided character by character.
fn match_at(s: &str, p: &str, at: usize) -> (r: bool)
    requires
        at + p@.len() <= s@.len(),
    ensures
        r == occurs_at(s@, p@, at as int),
{
    let s_len = s.unicode_len();
    let p_len = p.unicode_len();
    let mut j: usize = 0;
    while j < p_len
        invariant
            s_len == s@.len(),
            p_len == p@.len(),
            at + p_len <= s_len,
            j <= p_len,
            forall|k: int| 0 <= k < j ==> s@[at + k] == p@[k],
        decreases p_len - j,
    {
        if s.get_char(at + j) != p.get_char(j) {
            proof {
                assert(s@.subrange(at as int, at + p@.len())[j as int] == s@[at + j]);
            }
            return false;
        }
        j += 1;
    }
    proof {
        assert(s@.subrange(at as int, at + p@.len()) =~= p@);
    }
    true
}

/// `p` occurs somewhere in `s`, decided by scanning every start position.
pub fn contains_str(s: &str, p: &str) -> (r: bool)
    ensures
        r == contains_seq(s@, p@),
{
    let s_len = s.unicode_len();
    let p_len = p.unicode_len();
    if p_len > s_len {
        proof {
            assert(forall|i: int| !occurs_at(s@, p@, i));
        }
        return false;
    }
    if p_len == 0 {
        proof {
            assert(s@.subrange(0, 0) =~= p@);
            assert(occurs_at(s@, p@, 0));
        }
        return true;
    }
    let mut i: usize = 0;
    while i <= s_len - p_len
        invariant
            s_len == s@.len(),
            p_len == p@.len(),
            0 < p_len <= s_len,
            i <= s_len - p_len + 1,
            forall|j: int| 0 <= j < i ==> !occurs_at(s@, p@, j),
        decreases s_len - p_len + 1 - i,
    {
        if match_at(s, p, i) {
            return true;
        }
        i += 1;
    }
    proof {
        assert(forall|j: int| #[trigger] occurs_at(s@, p@, j) ==> 0 <= j <= s@.len() - p@.len());
    }
    false
}

} // verus!
