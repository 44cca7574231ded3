//! Empirical p-values against a Monte-Carlo null distribution.
//!
//! A gene's observed aggregation score is compared against the null scores
//! of its group size; the empirical p-value is
//! `(count(null < observed) + 1) / (len(null) + 1)`, whose Laplace `+ 1`
//! keeps it strictly inside `(0, 1]`. The engine returns the exact
//! numerator and denominator; the caller performs the one division.

use vstd::prelude::*;
use crate::keys::{count_lt, count_lt_exec, lemma_count_lt_le_len};

verus! {

/// Numerator and denominator of the empirical p-value of an observed score
/// key against a null distribution of score keys: `(count + 1, len + 1)`.
pub fn empirical_cdf_counts(obs: u64, null: &Vec<u64>) -> (r: (usize, usize))
    requires
        null@.len() < usize::MAX,
    ensures
        r.0 == count_lt(null@, obs) + 1,
        r.1 == null@.len() + 1,
        1 <= r.0 <= r.1,
{
    proof {
        lemma_count_lt_le_len(null@, obs);
    }
    let c = count_lt_exec(null, obs);
    (c + 1, null.len() + 1)
}

/// The empirical p-value is strictly positive and at most one: with
/// `c = count(null < observed)` the exact value `(c + 1) / (len + 1)`
/// has `1 <= c + 1 <= len + 1`, even when the observed score is below
/// every null element.
pub proof fn lemma_empirical_pvalue_in_unit(null: Seq<u64>, obs: u64)
    ensures
        1 <= count_lt(null, obs) + 1 <= null.len() + 1,
{
    lemma_count_lt_le_len(null, obs);
}

/// Numerator of the empirical alpha threshold: how many p-value keys lie
/// strictly below the alpha key. The empirical alpha itself is
/// `count / len`, a division the caller performs.
pub fn empirical_alpha_count(pvalue_keys: &Vec<u64>, alpha_key: u64) -> (c: usize)
    ensures
        c == count_lt(pvalue_keys@, alpha_key),
        c <= pvalue_keys@.len(),
{
    proof {
        lemma_count_lt_le_len(pvalue_keys@, alpha_key);
    }
    count_lt_exec(pvalue_keys, alpha_key)
}

} // verus!
