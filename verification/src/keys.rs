//! Order keys: the engine's exact stand-in for nonnegative scores.
//!
//! A p-value, normalized rank or aggregation score is a nonnegative finite
//! double in `[0, 1]`. For such doubles the IEEE-754 bit pattern, read as a
//! `u64`, compares exactly as the double does, so the caller encodes each
//! value through `f64::to_bits` and the engine compares, counts, sorts and
//! minimises the `u64` keys instead. Everything the engine decides about
//! keys is exact integer logic.

use vstd::prelude::*;

verus! {

/// The key of the unit score `1.0`: the IEEE-754 bit pattern of `1.0`.
/// Keys of scores in `(0, 1]` lie in `(0, UNIT_KEY]`.
pub const UNIT_KEY: u64 = 0x3FF0_0000_0000_0000;

/// How many elements of `s` are strictly below `x`.
pub open spec fn count_lt(s: Seq<u64>, x: u64) -> nat
    decreases s.len(),
{
    if s.len() == 0 {
        0
    } else {
        count_lt(s.drop_last(), x) + (if s.last() < x {
            1nat
        } else {
            0nat
        })
    }
}

/// How many elements of `s` equal `x`.
pub open spec fn count_eq(s: Seq<u64>, x: u64) -> nat
    decreases s.len(),
{
    if s.len() == 0 {
        0
    } else {
        count_eq(s.drop_last(), x) + (if s.last() == x {
            1nat
        } else {
            0nat
        })
    }
}

pub proof fn lemma_count_lt_le_len(s: Seq<u64>, x: u64)
    ensures
        count_lt(s, x) <= s.len(),
    decreases s.len(),
{
    if s.len() > 0 {
        lemma_count_lt_le_len(s.drop_last(), x);
    }
}

/// How many elements of `s` are strictly above `x`.
pub open spec fn count_gt(s: Seq<u64>, x: u64) -> nat
    decreases s.len(),
{
    if s.len() == 0 {
        0
    } else {
        count_gt(s.drop_last(), x) + (if s.last() > x {
            1nat
        } else {
            0nat
        })
    }
}

/// Below, equal and above partition the sequence.
pub proof fn lemma_count_partition(s: Seq<u64>, x: u64)
    ensures
        count_lt(s, x) + count_eq(s, x) + count_gt(s, x) == s.len(),
    decreases s.len(),
{
    if s.len() > 0 {
        lemma_count_partition(s.drop_last(), x);
    }
}

/// Counting splits over the elements below `x` and those equal to `x`;
/// together they never exceed the length.
pub proof fn lemma_count_lt_eq_le_len(s: Seq<u64>, x: u64)
    ensures
        count_lt(s, x) + count_eq(s, x) <= s.len(),
    decreases s.len(),
{
    if s.len() > 0 {
        lemma_count_lt_eq_le_len(s.drop_last(), x);
    }
}

/// How many elements of `s` are strictly below `x`, counted in exec code.
pub fn count_lt_exec(keys: &Vec<u64>, x: u64) -> (c: usize)
    ensures
        c == count_lt(keys@, x),
{
    let mut c: usize = 0;
    let mut i: usize = 0;
    while i < keys.len()
        invariant
            i <= keys@.len(),
            c == count_lt(keys@.take(i as int), x),
            c <= i,
        decreases keys@.len() - i,
    {
        proof {
            assert(keys@.take(i as int + 1).drop_last() =~= keys@.take(i as int));
        }
        if keys[i] < x {
            c = c + 1;
        }
        i = i + 1;
    }
    proof {
        assert(keys@.take(keys@.len() as int) =~= keys@);
    }
    c
}

/// How many elements of `s` equal `x`, counted in exec code.
pub fn count_eq_exec(keys: &Vec<u64>, x: u64) -> (c: usize)
    ensures
        c == count_eq(keys@, x),
{
    let mut c: usize = 0;
    let mut i: usize = 0;
    while i < keys.len()
        invariant
            i <= keys@.len(),
            c == count_eq(keys@.take(i as int), x),
            c <= i,
        decreases keys@.len() - i,
    {
        proof {
            assert(keys@.take(i as int + 1).drop_last() =~= keys@.take(i as int));
        }
        if keys[i] == x {
            c = c + 1;
        }
        i = i + 1;
    }
    proof {
        assert(keys@.take(keys@.len() as int) =~= keys@);
    }
    c
}

} // verus!
