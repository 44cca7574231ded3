//! Population-wide normalized ranks for the robust-rank-aggregation path.
//!
//! Each guide's p-value key is ranked ascending over the whole population
//! by a stable order: ties are broken by position, not averaged — a
//! deliberate property of this path, in contrast to the tie-averaged ranks
//! of the Mann-Whitney path. The normalized rank of guide `i` is
//! `(stable_rank + 1) / len`; the engine returns the exact numerators and
//! leaves the division by `len` to the caller.

use vstd::prelude::*;

verus! {

/// Does position `j` sort strictly before position `i` in the stable
/// ascending order? Ties are broken by position.
pub open spec fn sorts_before(s: Seq<u64>, j: int, i: int) -> bool {
    s[j] < s[i] || (s[j] == s[i] && j < i)
}

/// How many of the first `n` positions sort strictly before position `i`.
pub open spec fn count_before_upto(s: Seq<u64>, i: int, n: int) -> nat
    decreases n,
{
    if n <= 0 {
        0
    } else {
        count_before_upto(s, i, n - 1) + (if sorts_before(s, n - 1, i) {
            1nat
        } else {
            0nat
        })
    }
}

/// The 0-based stable ascending rank of position `i`: how many positions
/// sort strictly before it.
pub open spec fn stable_rank(s: Seq<u64>, i: int) -> nat {
    count_before_upto(s, i, s.len() as int)
}

proof fn lemma_count_before_upto_le(s: Seq<u64>, i: int, n: int)
    requires
        0 <= n,
    ensures
        count_before_upto(s, i, n) <= n,
        0 <= i < n ==> count_before_upto(s, i, n) < n,
    decreases n,
{
    if n > 0 {
        lemma_count_before_upto_le(s, i, n - 1);
    }
}

/// Every stable rank is below the length.
pub proof fn lemma_stable_rank_lt_len(s: Seq<u64>, i: int)
    requires
        0 <= i < s.len(),
    ensures
        stable_rank(s, i) < s.len(),
{
    lemma_count_before_upto_le(s, i, s.len() as int);
}

proof fn lemma_count_before_upto_mono(s: Seq<u64>, j: int, i: int, n: int)
    requires
        0 <= j < s.len(),
        0 <= i < s.len(),
        sorts_before(s, j, i),
        0 <= n,
    ensures
        count_before_upto(s, j, n) <= count_before_upto(s, i, n),
        n > j ==> count_before_upto(s, j, n) < count_before_upto(s, i, n),
    decreases n,
{
    if n > 0 {
        lemma_count_before_upto_mono(s, j, i, n - 1);
    }
}

/// Distinct positions receive distinct stable ranks.
pub proof fn lemma_stable_rank_injective(s: Seq<u64>, i: int, j: int)
    requires
        0 <= i < s.len(),
        0 <= j < s.len(),
        i != j,
    ensures
        stable_rank(s, i) != stable_rank(s, j),
{
    if sorts_before(s, j, i) {
        lemma_count_before_upto_mono(s, j, i, s.len() as int);
    } else {
        assert(sorts_before(s, i, j));
        lemma_count_before_upto_mono(s, i, j, s.len() as int);
    }
}

proof fn lemma_count_before_upto_increasing(s: Seq<u64>, i: int, n: int)
    requires
        forall|a: int, b: int| 0 <= a < b < s.len() ==> s[a] < s[b],
        0 <= i < s.len(),
        0 <= n <= s.len(),
    ensures
        count_before_upto(s, i, n) == if n <= i {
            n
        } else {
            i
        },
    decreases n,
{
    if n > 0 {
        lemma_count_before_upto_increasing(s, i, n - 1);
    }
}

/// Ranking is the identity on already-sorted input: on a strictly
/// increasing key sequence the stable rank of every position is the
/// position itself. Since the normalized ranks `(i + 1) / len` of such an
/// input are again strictly increasing, ranking a ranked sequence
/// reproduces it — the rank transform is idempotent.
pub proof fn lemma_ranks_identity_on_increasing(s: Seq<u64>)
    requires
        forall|a: int, b: int| 0 <= a < b < s.len() ==> s[a] < s[b],
    ensures
        forall|i: int| 0 <= i < s.len() ==> stable_rank(s, i) == i,
{
    assert forall|i: int| 0 <= i < s.len() implies stable_rank(s, i) == i by {
        lemma_count_before_upto_increasing(s, i, s.len() as int);
    }
}

/// The 0-based stable ascending rank of position `i`, computed in exec
/// code by one counting pass.
pub fn stable_rank_exec(keys: &Vec<u64>, i: usize) -> (c: usize)
    requires
        i < keys@.len(),
    ensures
        c == stable_rank(keys@, i as int),
{
    let mut c: usize = 0;
    let mut j: usize = 0;
    while j < keys.len()
        invariant
            i < keys@.len(),
            j <= keys@.len(),
            c == count_before_upto(keys@, i as int, j as int),
            c <= j,
        decreases keys@.len() - j,
    {
        if keys[j] < keys[i] || (keys[j] == keys[i] && j < i) {
            c = c + 1;
        }
        j = j + 1;
    }
    c
}

/// Numerators of the normalized ranks: position `i` receives
/// `stable_rank + 1`, a permutation of `1..=len`; the normalized rank
/// itself is this numerator divided by `len`.
pub fn normed_rank_numerators(keys: &Vec<u64>) -> (r: Vec<usize>)
    ensures
        r@.len() == keys@.len(),
        forall|i: int|
            0 <= i < keys@.len() ==> r@[i] == stable_rank(keys@, i) + 1,
{
    let mut r: Vec<usize> = Vec::new();
    let mut i: usize = 0;
    while i < keys.len()
        invariant
            i <= keys@.len(),
            r@.len() == i,
            forall|k: int| 0 <= k < i ==> r@[k] == stable_rank(keys@, k) + 1,
        decreases keys@.len() - i,
    {
        proof {
            lemma_stable_rank_lt_len(keys@, i as int);
        }
        let c = stable_rank_exec(keys, i);
        r.push(c + 1);
        i = i + 1;
    }
    r
}

} // verus!
