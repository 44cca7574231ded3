//! Substring search over gene names, used to locate the pseudo-gene whose
//! name carries the non-targeting-control token.

use vstd::prelude::*;
use vstd::string::StrSliceExecFns;

verus! {

/// Does `t` occur in `s` starting at position `k`?
pub open spec fn is_substring_at(s: Seq<char>, t: Seq<char>, k: int) -> bool {
    0 <= k && k + t.len() <= s.len() && s.subrange(k, k + t.len()) == t
}

/// Does `t` occur anywhere in `s`?
pub open spec fn contains_seq(s: Seq<char>, t: Seq<char>) -> bool {
    exists|k: int| is_substring_at(s, t, k)
}

/// Does `t` occur in `s` starting at position `k`, checked character by
/// character?
fn matches_at(s: &str, t: &str, k: usize, s_len: usize, t_len: usize) -> (r: bool)
    requires
        s_len == s@.len(),
        t_len == t@.len(),
        k + t_len <= s_len,
    ensures
        r == is_substring_at(s@, t@, k as int),
{
    let mut j: usize = 0;
    while j < t_len
        invariant
            s_len == s@.len(),
            t_len == t@.len(),
            k + t_len <= s_len,
            j <= t_len,
            forall|jj: int| 0 <= jj < j ==> s@[k + jj] == t@[jj],
        decreases t_len - j,
    {
        if s.get_char(k + j) != t.get_char(j) {
            assert(s@.subrange(k as int, k + t@.len())[j as int] != t@[j as int]);
            return false;
        }
        j = j + 1;
    }
    proof {
        assert(s@.subrange(k as int, k + t@.len()) =~= t@);
    }
    true
}

/// Does the name contain the token as a contiguous substring?
pub fn str_contains(s: &str, t: &str) -> (r: bool)
    ensures
        r == contains_seq(s@, t@),
{
    let s_len = s.unicode_len();
    let t_len = t.unicode_len();
    if t_len > s_len {
        assert(forall|k: int| !is_substring_at(s@, t@, k));
        return false;
    }
    if t_len == 0 {
        assert(s@.subrange(0, 0) =~= t@);
        assert(is_substring_at(s@, t@, 0));
        return true;
    }
    let mut k: usize = 0;
    while k <= s_len - t_len
        invariant
            s_len == s@.len(),
            t_len == t@.len(),
            t_len <= s_len,
            1 <= t_len,
            k <= s_len - t_len + 1,
            forall|kk: int| 0 <= kk < k ==> !is_substring_at(s@, t@, kk),
        decreases s_len + 1 - t_len - k,
    {
        if matches_at(s, t, k, s_len, t_len) {
            assert(contains_seq(s@, t@));
            return true;
        }
        k = k + 1;
    }
    assert(forall|kk: int| !is_substring_at(s@, t@, kk));
    false
}

} // verus!
