//! Mann-Whitney U rank-sum statistics for the INC path.
//!
//! A gene's guide p-values are concatenated with the non-targeting-control
//! guide p-values, the union is ranked ascending with *average-rank*
//! tie-breaking, and the U statistic of each side is the sum of its ranks
//! minus `n(n+1)/2`. Tie-averaged ranks are half-integers, so the engine
//! works with ranks and U statistics *doubled*, which keeps them exact
//! integers; the caller halves them when it forms the normal
//! approximation's z score.

use vstd::prelude::*;
use crate::encode::{select_ranks, selected, selected_upto};
use crate::keys::{
    count_eq, count_eq_exec, count_gt, count_lt, count_lt_exec, lemma_count_lt_eq_le_len,
    lemma_count_partition,
};

verus! {

/// Twice the tie-averaged ascending 1-based rank of position `i` of `s`.
///
/// An element equal to `v` is preceded by the `count_lt` elements below
/// `v`; the `count_eq` elements tied at `v` occupy the positions
/// `count_lt + 1 ..= count_lt + count_eq` and every one of them receives
/// the *average* of those tied positions, whose double is the exact
/// integer `2 * count_lt + count_eq + 1`.
pub open spec fn doubled_rank(s: Seq<u64>, i: int) -> int {
    2 * (count_lt(s, s[i]) as int) + count_eq(s, s[i]) + 1
}

/// Tied elements receive the same rank: the average of the positions the
/// tied block occupies.
pub proof fn lemma_tied_ranks_equal(s: Seq<u64>, i: int, j: int)
    requires
        0 <= i < s.len(),
        0 <= j < s.len(),
        s[i] == s[j],
    ensures
        doubled_rank(s, i) == doubled_rank(s, j),
{
}

/// The rank is the average of the tied positions: the tied block of
/// element `i` occupies the 1-based positions `count_lt + 1` through
/// `count_lt + count_eq`, consecutive integers whose average is half the
/// sum of the first and the last — exactly the doubled rank.
pub proof fn lemma_rank_is_tie_average(s: Seq<u64>, i: int)
    requires
        0 <= i < s.len(),
    ensures
        doubled_rank(s, i) == (count_lt(s, s[i]) + 1) + (count_lt(s, s[i]) + count_eq(s, s[i])),
{
}

/// The sum of a doubled-rank sequence.
pub open spec fn sum_of(s: Seq<u64>) -> int
    decreases s.len(),
{
    if s.len() == 0 {
        0
    } else {
        sum_of(s.drop_last()) + s.last()
    }
}

/// Twice the tie-averaged ranks of the concatenation `x ++ y`, split back
/// into the two input partitions.
pub fn merged_ranks_doubled(x: &Vec<u64>, y: &Vec<u64>) -> (r: (Vec<u64>, Vec<u64>))
    requires
        x@.len() + y@.len() < 0x4000_0000,
    ensures
        r.0@.len() == x@.len(),
        r.1@.len() == y@.len(),
        forall|i: int|
            0 <= i < x@.len() ==> r.0@[i] == doubled_rank(x@ + y@, i),
        forall|j: int|
            0 <= j < y@.len() ==> r.1@[j] == doubled_rank(x@ + y@, x@.len() + j),
        forall|i: int| 0 <= i < x@.len() ==> 1 <= #[trigger] r.0@[i] < 0x8000_0000,
        forall|j: int| 0 <= j < y@.len() ==> 1 <= #[trigger] r.1@[j] < 0x8000_0000,
{
    let mut joined: Vec<u64> = Vec::new();
    let mut i: usize = 0;
    while i < x.len()
        invariant
            i <= x@.len(),
            joined@ == x@.take(i as int),
        decreases x@.len() - i,
    {
        joined.push(x[i]);
        proof {
            assert(joined@ =~= x@.take(i as int + 1));
        }
        i = i + 1;
    }
    let mut j: usize = 0;
    while j < y.len()
        invariant
            j <= y@.len(),
            joined@ == x@.take(x@.len() as int) + y@.take(j as int),
        decreases y@.len() - j,
    {
        joined.push(y[j]);
        proof {
            assert(joined@ =~= x@.take(x@.len() as int) + y@.take(j as int + 1));
        }
        j = j + 1;
    }
    proof {
        assert(joined@ =~= x@ + y@);
    }
    let rx = doubled_ranks_of(&joined, 0, x.len());
    let ry = doubled_ranks_of(&joined, x.len(), joined.len());
    (rx, ry)
}

/// Twice the tie-averaged ranks of the slice `from..to` of `joined`.
fn doubled_ranks_of(joined: &Vec<u64>, from: usize, to: usize) -> (r: Vec<u64>)
    requires
        from <= to <= joined@.len(),
        joined@.len() < 0x4000_0000,
    ensures
        r@.len() == to - from,
        forall|k: int|
            0 <= k < to - from ==> r@[k] == doubled_rank(joined@, from + k),
        forall|k: int| 0 <= k < to - from ==> 1 <= #[trigger] r@[k] < 0x8000_0000,
{
    let mut r: Vec<u64> = Vec::new();
    let mut i: usize = from;
    while i < to
        invariant
            from <= i <= to <= joined@.len(),
            joined@.len() < 0x4000_0000,
            r@.len() == i - from,
            forall|k: int|
                0 <= k < i - from ==> r@[k] == doubled_rank(joined@, from + k),
            forall|k: int| 0 <= k < i - from ==> 1 <= #[trigger] r@[k] < 0x8000_0000,
        decreases to - i,
    {
        proof {
            lemma_count_lt_eq_le_len(joined@, joined@[i as int]);
        }
        let below = count_lt_exec(joined, joined[i]);
        let tied = count_eq_exec(joined, joined[i]);
        r.push(2 * (below as u64) + (tied as u64) + 1);
        i = i + 1;
    }
    r
}

proof fn lemma_sum_of_bounds(s: Seq<u64>, bound: int)
    requires
        forall|i: int| 0 <= i < s.len() ==> 0 <= #[trigger] s[i] <= bound,
        0 <= bound,
    ensures
        0 <= sum_of(s) <= s.len() * bound,
    decreases s.len(),
{
    if s.len() > 0 {
        lemma_sum_of_bounds(s.drop_last(), bound);
        let n = s.len() as int;
        assert(s.drop_last().len() == n - 1);
        assert(0 <= s[n - 1] <= bound);
        assert((n - 1) * bound + bound == n * bound) by (nonlinear_arith);
    }
}

/// Twice the U statistic of one side, from its doubled ranks: the doubled
/// rank sum minus `n * (n + 1)`. The result of a genuine rank vector is
/// nonnegative, but the statistic is reported exactly as the subtraction.
pub fn u_statistic_doubled(ranks2: &Vec<u64>) -> (u2: i64)
    requires
        ranks2@.len() < 0x4000_0000,
        forall|i: int| 0 <= i < ranks2@.len() ==> #[trigger] ranks2@[i] < 0x8000_0000,
    ensures
        u2 == sum_of(ranks2@) - ranks2@.len() * (ranks2@.len() + 1),
{
    proof {
        lemma_sum_of_bounds(ranks2@, 0x8000_0000int - 1);
        assert(ranks2@.len() * (0x8000_0000int - 1) < 0x4000_0000int * 0x8000_0000)
            by (nonlinear_arith)
            requires ranks2@.len() < 0x4000_0000;
        assert(ranks2@.len() * (ranks2@.len() + 1) <= 0x4000_0000int * 0x4000_0000)
            by (nonlinear_arith)
            requires ranks2@.len() < 0x4000_0000;
    }
    let mut sum: u64 = 0;
    let mut i: usize = 0;
    while i < ranks2.len()
        invariant
            i <= ranks2@.len(),
            ranks2@.len() < 0x4000_0000,
            forall|k: int| 0 <= k < ranks2@.len() ==> #[trigger] ranks2@[k] < 0x8000_0000,
            sum == sum_of(ranks2@.take(i as int)),
            sum <= i * 0x8000_0000,
        decreases ranks2@.len() - i,
    {
        proof {
            assert(ranks2@.take(i as int + 1).drop_last() =~= ranks2@.take(i as int));
            assert(i * 0x8000_0000int + 0x8000_0000 == (i + 1) * 0x8000_0000)
                by (nonlinear_arith);
            assert((i + 1) * 0x8000_0000int <= 0x4000_0000int * 0x8000_0000)
                by (nonlinear_arith)
                requires i + 1 <= 0x4000_0000;
        }
        sum = sum + ranks2[i];
        i = i + 1;
    }
    proof {
        assert(ranks2@.take(ranks2@.len() as int) =~= ranks2@);
    }
    let n = ranks2.len() as i64;
    (sum as i64) - n * (n + 1)
}

/// Sum of the doubled ranks of positions `from .. from + n` of `j`.
pub open spec fn doubled_rank_sum(j: Seq<u64>, from: int, n: int) -> int
    decreases n,
{
    if n <= 0 {
        0
    } else {
        doubled_rank_sum(j, from, n - 1) + doubled_rank(j, from + n - 1)
    }
}

/// Twice the U statistic of the left sample of the union `x ++ y`: the
/// doubled tie-averaged rank sum of the `x` positions minus
/// `|x| * (|x| + 1)`.
pub open spec fn u2_left(x: Seq<u64>, y: Seq<u64>) -> int {
    doubled_rank_sum(x + y, 0, x.len() as int) - x.len() * (x.len() + 1)
}

/// Twice the U statistic of the right sample of the union `x ++ y`.
pub open spec fn u2_right(x: Seq<u64>, y: Seq<u64>) -> int {
    doubled_rank_sum(x + y, x.len() as int, y.len() as int) - y.len() * (y.len() + 1)
}

proof fn lemma_sum_pointwise(s: Seq<u64>, j: Seq<u64>, from: int, n: int)
    requires
        s.len() == n,
        0 <= n,
        forall|k: int| 0 <= k < n ==> s[k] == doubled_rank(j, from + k),
    ensures
        sum_of(s) == doubled_rank_sum(j, from, n),
    decreases n,
{
    if n > 0 {
        lemma_sum_pointwise(s.drop_last(), j, from, n - 1);
        assert(s.last() == doubled_rank(j, from + n - 1));
    }
}

/// Twice the two U statistics of the Mann-Whitney test of `x` against
/// `y`: the union is ranked with average-rank tie-breaking and each
/// side's doubled rank sum is reduced by `n * (n + 1)`. The caller halves
/// them, takes the smaller, and applies the normal approximation.
pub fn mann_whitney_doubled(x: &Vec<u64>, y: &Vec<u64>) -> (r: (i64, i64))
    requires
        x@.len() + y@.len() < 0x4000_0000,
    ensures
        r.0 == u2_left(x@, y@),
        r.1 == u2_right(x@, y@),
{
    let (rx, ry) = merged_ranks_doubled(x, y);
    let ux = u_statistic_doubled(&rx);
    let uy = u_statistic_doubled(&ry);
    proof {
        lemma_sum_pointwise(rx@, x@ + y@, 0, x@.len() as int);
        lemma_sum_pointwise(ry@, x@ + y@, x@.len() as int, y@.len() as int);
    }
    (ux, uy)
}

/// The doubled-rank increments that appending `x` to a sequence causes
/// among its first `m` elements: `2` per element above `x`, `1` per
/// element tied with `x`.
spec fn shift_sum(s: Seq<u64>, x: u64, m: int) -> int
    decreases m,
{
    if m <= 0 {
        0
    } else {
        shift_sum(s, x, m - 1) + (if x < s[m - 1] {
            2int
        } else if x == s[m - 1] {
            1int
        } else {
            0int
        })
    }
}

proof fn lemma_shift_sum_counts(s: Seq<u64>, x: u64, m: int)
    requires
        0 <= m <= s.len(),
    ensures
        shift_sum(s, x, m) == 2 * count_gt(s.take(m), x) + count_eq(s.take(m), x),
    decreases m,
{
    if m > 0 {
        lemma_shift_sum_counts(s, x, m - 1);
        assert(s.take(m).drop_last() =~= s.take(m - 1));
    } else {
        assert(s.take(0) =~= Seq::<u64>::empty());
    }
}

proof fn lemma_drs_drop_last(j: Seq<u64>, m: int)
    requires
        1 <= j.len(),
        0 <= m <= j.len() - 1,
    ensures
        doubled_rank_sum(j, 0, m) == doubled_rank_sum(j.drop_last(), 0, m) + shift_sum(
            j.drop_last(),
            j.last(),
            m,
        ),
    decreases m,
{
    if m > 0 {
        lemma_drs_drop_last(j, m - 1);
    }
}

/// The doubled tie-averaged ranks of a whole sequence total
/// `len * (len + 1)`: tie averaging moves rank between tied elements but
/// never changes the total.
pub proof fn lemma_total_doubled_rank_sum(j: Seq<u64>)
    ensures
        doubled_rank_sum(j, 0, j.len() as int) == j.len() * (j.len() + 1),
    decreases j.len(),
{
    if j.len() == 0 {
    } else {
        let n = j.len() as int;
        let last = j.last();
        let prev = j.drop_last();
        lemma_total_doubled_rank_sum(prev);
        lemma_drs_drop_last(j, n - 1);
        lemma_shift_sum_counts(prev, last, n - 1);
        assert(prev.take(n - 1) =~= prev);
        lemma_count_partition(prev, last);
        assert(doubled_rank_sum(j, 0, n) == doubled_rank_sum(j, 0, n - 1) + doubled_rank(
            j,
            n - 1,
        ));
        assert(count_lt(j, last) == count_lt(prev, last));
        assert(count_eq(j, last) == count_eq(prev, last) + 1);
        assert((n - 1) * n + 2 * n == n * (n + 1)) by (nonlinear_arith);
    }
}

proof fn lemma_drs_concat(j: Seq<u64>, a: int, b: int)
    requires
        0 <= a,
        0 <= b,
    ensures
        doubled_rank_sum(j, 0, a + b) == doubled_rank_sum(j, 0, a) + doubled_rank_sum(j, a, b),
    decreases b,
{
    if b > 0 {
        lemma_drs_concat(j, a, b - 1);
    }
}

/// The two U statistics are complementary: `U_x + U_y == |x| * |y|`
/// (doubled here). The smaller of the two therefore never exceeds the
/// null mean `|x| * |y| / 2`, which makes the one-sided test on the
/// minimum well-formed.
pub proof fn lemma_u_complementarity(x: Seq<u64>, y: Seq<u64>)
    ensures
        u2_left(x, y) + u2_right(x, y) == 2 * x.len() * y.len(),
{
    let j = x + y;
    let nx = x.len() as int;
    let ny = y.len() as int;
    lemma_total_doubled_rank_sum(j);
    lemma_drs_concat(j, nx, ny);
    assert((nx + ny) * (nx + ny + 1) - nx * (nx + 1) - ny * (ny + 1) == 2 * nx * ny)
        by (nonlinear_arith);
}

proof fn lemma_count_concat(a: Seq<u64>, b: Seq<u64>, v: u64)
    ensures
        count_lt(a + b, v) == count_lt(a, v) + count_lt(b, v),
        count_eq(a + b, v) == count_eq(a, v) + count_eq(b, v),
    decreases b.len(),
{
    if b.len() == 0 {
        assert(a + b =~= a);
    } else {
        lemma_count_concat(a, b.drop_last(), v);
        assert((a + b).drop_last() =~= a + b.drop_last());
        assert((a + b).last() == b.last());
    }
}

proof fn lemma_left_rank_dominance(x: Seq<u64>, y: Seq<u64>, m: int)
    requires
        0 <= m <= x.len(),
    ensures
        doubled_rank_sum(x + y, 0, m) >= doubled_rank_sum(x, 0, m),
    decreases m,
{
    if m > 0 {
        lemma_left_rank_dominance(x, y, m - 1);
        assert((x + y)[m - 1] == x[m - 1]);
        lemma_count_concat(x, y, x[m - 1]);
    }
}

proof fn lemma_right_rank_dominance(x: Seq<u64>, y: Seq<u64>, m: int)
    requires
        0 <= m <= y.len(),
    ensures
        doubled_rank_sum(x + y, x.len() as int, m) >= doubled_rank_sum(y, 0, m),
    decreases m,
{
    if m > 0 {
        lemma_right_rank_dominance(x, y, m - 1);
        assert((x + y)[x.len() + m - 1] == y[m - 1]);
        lemma_count_concat(x, y, y[m - 1]);
    }
}

/// Each U statistic lies between `0` and `|x| * |y|` (doubled here): a
/// sample's ranks within the union are at least its ranks among itself
/// alone, whose U is exactly zero, and the two statistics share the total
/// `|x| * |y|`.
pub proof fn lemma_u_in_range(x: Seq<u64>, y: Seq<u64>)
    ensures
        0 <= u2_left(x, y) <= 2 * x.len() * y.len(),
        0 <= u2_right(x, y) <= 2 * x.len() * y.len(),
{
    lemma_left_rank_dominance(x, y, x.len() as int);
    lemma_total_doubled_rank_sum(x);
    lemma_right_rank_dominance(x, y, y.len() as int);
    lemma_total_doubled_rank_sum(y);
    lemma_u_complementarity(x, y);
    assert(2 * x.len() * y.len() >= 0) by (nonlinear_arith);
}

proof fn lemma_selected_len(enc: Seq<usize>, vals: Seq<u64>, g: usize, n: int)
    requires
        0 <= n,
    ensures
        selected_upto(enc, vals, g, n).len() <= n,
    decreases n,
{
    if n > 0 {
        lemma_selected_len(enc, vals, g, n - 1);
    }
}

/// Row `t` of the INC output is correct: with the control pseudo-gene at
/// arena index `ntc` skipped, the row holds the name of gene id
/// `g = t` (or `t + 1` past the control) and the doubled U statistics of
/// that gene's guide keys against the control guide keys.
pub open spec fn inc_row_ok(
    names: Seq<String>,
    u2x: Seq<i64>,
    u2y: Seq<i64>,
    arena: Seq<String>,
    enc: Seq<usize>,
    keys: Seq<u64>,
    ntc: usize,
    t: int,
) -> bool {
    let g = if t < ntc {
        t
    } else {
        t + 1
    };
    names[t] == arena[g] && u2x[t] == u2_left(
        selected(enc, keys, g as usize),
        selected(enc, keys, ntc),
    ) && u2y[t] == u2_right(selected(enc, keys, g as usize), selected(enc, keys, ntc))
}

/// The INC aggregation's exact part: for every gene but the
/// non-targeting-control pseudo-gene at arena index `ntc`, in first-seen
/// id order, the gene's name and the doubled U statistics of its guide
/// keys against the control guide keys.
pub fn inc_u_scores(keys: &Vec<u64>, enc: &Vec<usize>, arena: &Vec<String>, ntc: usize) -> (r: (
    Vec<String>,
    Vec<i64>,
    Vec<i64>,
))
    requires
        enc@.len() == keys@.len(),
        ntc < arena@.len(),
        keys@.len() < 0x2000_0000,
    ensures
        r.0@.len() == arena@.len() - 1,
        r.1@.len() == arena@.len() - 1,
        r.2@.len() == arena@.len() - 1,
        forall|t: int|
            0 <= t < arena@.len() - 1
                ==> #[trigger] inc_row_ok(r.0@, r.1@, r.2@, arena@, enc@, keys@, ntc, t),
{
    let ntc_keys = select_ranks(ntc, enc, keys);
    let mut names: Vec<String> = Vec::new();
    let mut u2x: Vec<i64> = Vec::new();
    let mut u2y: Vec<i64> = Vec::new();
    let mut g: usize = 0;
    while g < arena.len()
        invariant
            g <= arena@.len(),
            ntc < arena@.len(),
            enc@.len() == keys@.len(),
            keys@.len() < 0x2000_0000,
            ntc_keys@ == selected(enc@, keys@, ntc),
            names@.len() == u2x@.len(),
            names@.len() == u2y@.len(),
            names@.len() == (if g <= ntc {
                g as int
            } else {
                g - 1
            }),
            forall|t: int|
                0 <= t < names@.len()
                    ==> #[trigger] inc_row_ok(names@, u2x@, u2y@, arena@, enc@, keys@, ntc, t),
        decreases arena@.len() - g,
    {
        if g != ntc {
            let gene_keys = select_ranks(g, enc, keys);
            proof {
                lemma_selected_len(enc@, keys@, g, enc@.len() as int);
                lemma_selected_len(enc@, keys@, ntc, enc@.len() as int);
            }
            let (ux, uy) = mann_whitney_doubled(&gene_keys, &ntc_keys);
            let ghost old_names = names@;
            let ghost old_u2x = u2x@;
            let ghost old_u2y = u2y@;
            names.push(arena[g].clone());
            u2x.push(ux);
            u2y.push(uy);
            proof {
                assert forall|t: int| 0 <= t < names@.len() implies #[trigger] inc_row_ok(
                    names@,
                    u2x@,
                    u2y@,
                    arena@,
                    enc@,
                    keys@,
                    ntc,
                    t,
                ) by {
                    if t < names@.len() - 1 {
                        assert(names@[t] == old_names[t]);
                        assert(inc_row_ok(old_names, old_u2x, old_u2y, arena@, enc@, keys@, ntc, t));
                    } else {
                        let gg = if t < ntc {
                            t
                        } else {
                            t + 1
                        };
                        assert(gg == g);
                        assert(names@[t] == arena@[g as int]);
                        assert(u2x@[t] == u2_left(
                            selected(enc@, keys@, g),
                            selected(enc@, keys@, ntc),
                        ));
                        assert(u2y@[t] == u2_right(
                            selected(enc@, keys@, g),
                            selected(enc@, keys@, ntc),
                        ));
                    }
                }
            }
        }
        g = g + 1;
    }
    (names, u2x, u2y)
}

} // verus!
