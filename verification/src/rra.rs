//! The robust rank aggregation statistic's exact, ordinal part.
//!
//! A gene's score is the minimum over its alpha-filtered, ascending-sorted
//! normalized ranks of `BetaCDF(k, n - k + 1, rank_k)`, where `k` is the
//! 1-based position of the rank among the kept ones and `n` the gene's
//! total guide count; an empty filtered set scores exactly `1.0`. The
//! engine filters, sorts, and lays out the Beta parameter triples exactly
//! over order keys, the caller evaluates the Beta CDF per triple, and the
//! engine takes the exact minimum of the returned CDF keys, seeded with
//! the unit key.

use vstd::prelude::*;
use crate::keys::UNIT_KEY;

verus! {

/// The subsequence of `s` strictly below `alpha`, order kept.
pub open spec fn kept_below(s: Seq<u64>, alpha: u64) -> Seq<u64>
    decreases s.len(),
{
    if s.len() == 0 {
        Seq::empty()
    } else {
        kept_below(s.drop_last(), alpha) + (if s.last() < alpha {
            seq![s.last()]
        } else {
            Seq::empty()
        })
    }
}

pub proof fn lemma_kept_below_in_range(s: Seq<u64>, alpha: u64)
    ensures
        kept_below(s, alpha).len() <= s.len(),
        forall|i: int|
            0 <= i < kept_below(s, alpha).len()
                ==> #[trigger] kept_below(s, alpha)[i] < alpha,
    decreases s.len(),
{
    if s.len() > 0 {
        lemma_kept_below_in_range(s.drop_last(), alpha);
    }
}

/// Keep only the rank keys strictly below the alpha key, order kept.
pub fn filter_alpha(keys: &Vec<u64>, alpha_key: u64) -> (r: Vec<u64>)
    ensures
        r@ == kept_below(keys@, alpha_key),
        r@.len() <= keys@.len(),
        forall|i: int| 0 <= i < r@.len() ==> #[trigger] r@[i] < alpha_key,
{
    proof {
        lemma_kept_below_in_range(keys@, alpha_key);
    }
    let mut r: Vec<u64> = Vec::new();
    let mut i: usize = 0;
    while i < keys.len()
        invariant
            i <= keys@.len(),
            r@ == kept_below(keys@.take(i as int), alpha_key),
        decreases keys@.len() - i,
    {
        proof {
            assert(keys@.take(i as int + 1).drop_last() =~= keys@.take(i as int));
        }
        if keys[i] < alpha_key {
            r.push(keys[i]);
            proof {
                assert(r@ =~= kept_below(keys@.take(i as int + 1), alpha_key));
            }
        } else {
            proof {
                assert(r@ =~= kept_below(keys@.take(i as int + 1), alpha_key));
            }
        }
        i = i + 1;
    }
    proof {
        assert(keys@.take(keys@.len() as int) =~= keys@);
    }
    r
}

/// Ascending order.
pub open spec fn sorted(s: Seq<u64>) -> bool {
    forall|a: int, b: int| 0 <= a < b < s.len() ==> s[a] <= s[b]
}

/// Sort keys ascending; the result holds exactly the input's elements.
pub fn sort_keys(keys: &Vec<u64>) -> (r: Vec<u64>)
    ensures
        sorted(r@),
        r@.to_multiset() == keys@.to_multiset(),
        r@.len() == keys@.len(),
{
    broadcast use vstd::seq_lib::group_to_multiset_ensures;

    let mut src: Vec<u64> = Vec::new();
    let mut i: usize = 0;
    while i < keys.len()
        invariant
            i <= keys@.len(),
            src@ == keys@.take(i as int),
        decreases keys@.len() - i,
    {
        src.push(keys[i]);
        proof {
            assert(src@ =~= keys@.take(i as int + 1));
        }
        i = i + 1;
    }
    proof {
        assert(keys@.take(keys@.len() as int) =~= keys@);
    }

    let mut out: Vec<u64> = Vec::new();
    while src.len() > 0
        invariant
            out@.to_multiset().add(src@.to_multiset()) == keys@.to_multiset(),
            out@.len() + src@.len() == keys@.len(),
            sorted(out@),
            forall|a: int, b: int|
                0 <= a < out@.len() && 0 <= b < src@.len()
                    ==> out@[a] <= src@[b],
        decreases src@.len(),
    {
        let mut m: usize = 0;
        let mut j: usize = 1;
        while j < src.len()
            invariant
                m < j <= src@.len(),
                src@.len() > 0,
                forall|k: int| 0 <= k < j ==> src@[m as int] <= src@[k],
            decreases src@.len() - j,
        {
            if src[j] < src[m] {
                m = j;
            }
            j = j + 1;
        }
        let ghost old_src = src@;
        let ghost old_out = out@;
        let v = src.remove(m);
        out.push(v);
        proof {
            old_out.to_multiset_ensures();
            old_src.to_multiset_ensures();
            assert(out@ == old_out.push(v));
            assert(src@ == old_src.remove(m as int));
            assert(old_src[m as int] == v);
            assert(old_out.push(v).to_multiset() =~= old_out.to_multiset().insert(v));
            assert(old_src.remove(m as int).to_multiset()
                =~= old_src.to_multiset().remove(old_src[m as int]));
            assert(old_src.contains(v));
            assert(old_src.to_multiset().count(v) > 0);
            assert(out@.to_multiset().add(src@.to_multiset()) =~= keys@.to_multiset());
            assert forall|a: int, b: int|
                0 <= a < out@.len() && 0 <= b < src@.len() implies out@[a]
                <= src@[b] by {
                assert(src@[b] == if b < m {
                    old_src[b]
                } else {
                    old_src[b + 1]
                });
            }
        }
    }
    out
}

/// The Beta order-statistic parameter triples for a gene: for the `k`-th
/// smallest kept rank (1-based) out of `num_values` guides, the shapes
/// `(k, num_values - k + 1)` and the rank key itself. The caller evaluates
/// `BetaCDF(shape_a, shape_b, rank)` for each triple.
pub fn beta_arguments(sorted_keys: &Vec<u64>, num_values: usize) -> (r: Vec<(usize, usize, u64)>)
    requires
        sorted_keys@.len() <= num_values,
    ensures
        r@.len() == sorted_keys@.len(),
        forall|k: int|
            0 <= k < r@.len()
                ==> #[trigger] r@[k].0 == k + 1 && r@[k].1 == num_values - k
                && r@[k].2 == sorted_keys@[k],
{
    let mut r: Vec<(usize, usize, u64)> = Vec::new();
    let mut k: usize = 0;
    while k < sorted_keys.len()
        invariant
            k <= sorted_keys@.len() <= num_values,
            r@.len() == k,
            forall|t: int|
                0 <= t < k
                    ==> #[trigger] r@[t].0 == t + 1 && r@[t].1 == num_values - t
                    && r@[t].2 == sorted_keys@[t],
        decreases sorted_keys@.len() - k,
    {
        r.push((k + 1, num_values - k, sorted_keys[k]));
        k = k + 1;
    }
    r
}

/// The rank keys of a sequence of Beta parameter triples.
pub open spec fn rank_keys_of(r: Seq<(usize, usize, u64)>) -> Seq<u64> {
    r.map_values(|t: (usize, usize, u64)| t.2)
}

/// The whole order-statistic layout of one gene's robust rank
/// aggregation: its normalized-rank keys are alpha-filtered and sorted
/// ascending, and the `k`-th smallest kept rank is paired with the Beta
/// shapes `(k, num_values - k + 1)`. The gene's score is the minimum of
/// the Beta CDF over the triples, seeded with the unit key
/// (see [`aggregate_min_key`]); the CDF evaluation itself is the
/// caller's.
pub fn robust_rank_arguments(rank_keys: &Vec<u64>, alpha_key: u64, num_values: usize) -> (r: Vec<
    (usize, usize, u64),
>)
    requires
        rank_keys@.len() <= num_values,
    ensures
        ({
            let kept = kept_below(rank_keys@, alpha_key);
            r@.len() == kept.len() && sorted(rank_keys_of(r@)) && rank_keys_of(r@).to_multiset()
                == kept.to_multiset() && (forall|k: int|
                0 <= k < r@.len()
                    ==> #[trigger] r@[k].0 == k + 1 && r@[k].1 == num_values - k)
        }),
{
    let filtered = filter_alpha(rank_keys, alpha_key);
    let sorted_keys_vec = sort_keys(&filtered);
    let r = beta_arguments(&sorted_keys_vec, num_values);
    proof {
        assert forall|k: int|
            0 <= k < r@.len() implies rank_keys_of(r@)[k] == sorted_keys_vec@[k] by {
            assert(r@[k].0 == k + 1);
        }
        assert(rank_keys_of(r@) =~= sorted_keys_vec@);
    }
    r
}

/// The minimum of a sequence of score keys, seeded with the unit key: the
/// fold the robust rank aggregation score performs over the Beta CDF
/// values of a gene's kept ranks.
pub open spec fn min_with_unit(s: Seq<u64>) -> u64
    decreases s.len(),
{
    if s.len() == 0 {
        UNIT_KEY
    } else {
        let m = min_with_unit(s.drop_last());
        if s.last() < m {
            s.last()
        } else {
            m
        }
    }
}

/// The gene's aggregation score key: the exact minimum of the Beta CDF
/// keys of its kept ranks and the unit key. An empty filtered set scores
/// exactly the unit key, the least significant score.
pub fn aggregate_min_key(cdf_keys: &Vec<u64>) -> (r: u64)
    ensures
        r == min_with_unit(cdf_keys@),
        cdf_keys@.len() == 0 ==> r == UNIT_KEY,
{
    let mut r: u64 = UNIT_KEY;
    let mut i: usize = 0;
    while i < cdf_keys.len()
        invariant
            i <= cdf_keys@.len(),
            r == min_with_unit(cdf_keys@.take(i as int)),
        decreases cdf_keys@.len() - i,
    {
        proof {
            assert(cdf_keys@.take(i as int + 1).drop_last() =~= cdf_keys@.take(i as int));
        }
        if cdf_keys[i] < r {
            r = cdf_keys[i];
        }
        i = i + 1;
    }
    proof {
        assert(cdf_keys@.take(cdf_keys@.len() as int) =~= cdf_keys@);
    }
    r
}

/// The aggregation score lies in `(0, 1]`: over keys, whenever every CDF
/// key lies in `(0, UNIT_KEY]` — as the Beta CDF of a positive rank does —
/// the minimum seeded with the unit key lies in `(0, UNIT_KEY]` too, and
/// an empty filtered set scores exactly the unit key.
pub proof fn lemma_rra_score_in_unit(s: Seq<u64>)
    requires
        forall|i: int| 0 <= i < s.len() ==> 0 < #[trigger] s[i] <= UNIT_KEY,
    ensures
        0 < min_with_unit(s) <= UNIT_KEY,
        s.len() == 0 ==> min_with_unit(s) == UNIT_KEY,
    decreases s.len(),
{
    if s.len() > 0 {
        lemma_rra_score_in_unit(s.drop_last());
    }
}

} // verus!
