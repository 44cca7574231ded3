//! Zero filtering and mask selection.
//!
//! Guides whose base mean is zero in both arms carry no signal and are
//! removed before aggregation: the surviving indices form an ascending
//! mask, and names, p-value keys and fold-change keys are selected through
//! it. A base-mean key of zero is exactly the key of the value `0.0`.

use vstd::prelude::*;

verus! {

/// The ascending indices of the nonzero keys.
pub open spec fn nonzero_upto(keys: Seq<u64>, n: int) -> Seq<usize>
    decreases n,
{
    if n <= 0 {
        Seq::empty()
    } else {
        nonzero_upto(keys, n - 1) + (if keys[n - 1] != 0 {
            seq![(n - 1) as usize]
        } else {
            Seq::empty()
        })
    }
}

/// The ascending indices of the guides whose base-mean key is nonzero,
/// that is, whose base mean is above zero.
pub fn mask_zeros(keys: &Vec<u64>) -> (r: Vec<usize>)
    ensures
        r@ == nonzero_upto(keys@, keys@.len() as int),
        forall|k: int| 0 <= k < r@.len() ==> #[trigger] r@[k] < keys@.len(),
        forall|k: int| 0 <= k < r@.len() ==> keys@[#[trigger] r@[k] as int] != 0,
{
    let mut r: Vec<usize> = Vec::new();
    let mut i: usize = 0;
    while i < keys.len()
        invariant
            i <= keys@.len(),
            r@ == nonzero_upto(keys@, i as int),
            forall|k: int| 0 <= k < r@.len() ==> #[trigger] r@[k] < i,
            forall|k: int| 0 <= k < r@.len() ==> keys@[#[trigger] r@[k] as int] != 0,
        decreases keys@.len() - i,
    {
        if keys[i] != 0 {
            r.push(i);
            proof {
                assert(r@ =~= nonzero_upto(keys@, i as int + 1));
            }
        } else {
            proof {
                assert(r@ =~= nonzero_upto(keys@, i as int + 1));
            }
        }
        i = i + 1;
    }
    r
}

/// The ascending indices of the keys at or above `min_key`.
pub open spec fn at_least_upto(keys: Seq<u64>, min_key: u64, n: int) -> Seq<usize>
    decreases n,
{
    if n <= 0 {
        Seq::empty()
    } else {
        at_least_upto(keys, min_key, n - 1) + (if keys[n - 1] >= min_key {
            seq![(n - 1) as usize]
        } else {
            Seq::empty()
        })
    }
}

/// The ascending indices of the guides whose base-mean key reaches
/// `min_key`: the survivors of the low-count filter.
pub fn mask_at_least(keys: &Vec<u64>, min_key: u64) -> (r: Vec<usize>)
    ensures
        r@ == at_least_upto(keys@, min_key, keys@.len() as int),
        forall|k: int| 0 <= k < r@.len() ==> #[trigger] r@[k] < keys@.len(),
        forall|k: int| 0 <= k < r@.len() ==> keys@[#[trigger] r@[k] as int] >= min_key,
        r@.len() <= keys@.len(),
{
    let mut r: Vec<usize> = Vec::new();
    let mut i: usize = 0;
    while i < keys.len()
        invariant
            i <= keys@.len(),
            r@ == at_least_upto(keys@, min_key, i as int),
            forall|k: int| 0 <= k < r@.len() ==> #[trigger] r@[k] < i,
            forall|k: int| 0 <= k < r@.len() ==> keys@[#[trigger] r@[k] as int] >= min_key,
            r@.len() <= i,
        decreases keys@.len() - i,
    {
        if keys[i] >= min_key {
            r.push(i);
            proof {
                assert(r@ =~= at_least_upto(keys@, min_key, i as int + 1));
            }
        } else {
            proof {
                assert(r@ =~= at_least_upto(keys@, min_key, i as int + 1));
            }
        }
        i = i + 1;
    }
    r
}

/// Drop the guides whose mean count key is below the minimum: the
/// surviving indices and the guide and gene names selected through them.
/// The caller removes the matching count-matrix rows by the same mask.
pub fn filter_low_counts(
    mean_keys: &Vec<u64>,
    sgrna_names: &Vec<String>,
    gene_names: &Vec<String>,
    min_key: u64,
) -> (r: (Vec<usize>, Vec<String>, Vec<String>))
    requires
        sgrna_names@.len() == mean_keys@.len(),
        gene_names@.len() == mean_keys@.len(),
    ensures
        r.0@ == at_least_upto(mean_keys@, min_key, mean_keys@.len() as int),
        r.1@.len() == r.0@.len(),
        r.2@.len() == r.0@.len(),
        forall|k: int|
            0 <= k < r.0@.len()
                ==> #[trigger] r.1@[k] == sgrna_names@[r.0@[k] as int]
                && r.2@[k] == gene_names@[r.0@[k] as int],
{
    let mask = mask_at_least(mean_keys, min_key);
    let sgrnas = select_names_from_mask(sgrna_names, &mask);
    let genes = select_names_from_mask(gene_names, &mask);
    (mask, sgrnas, genes)
}

/// The elements of `array` at the mask's indices, in mask order.
pub fn select_from_mask<T: Copy>(array: &[T], mask: &[usize]) -> (r: Vec<T>)
    requires
        forall|k: int| 0 <= k < mask@.len() ==> #[trigger] mask@[k] < array@.len(),
    ensures
        r@.len() == mask@.len(),
        forall|k: int|
            0 <= k < mask@.len() ==> #[trigger] r@[k] == array@[mask@[k] as int],
{
    let mut r: Vec<T> = Vec::new();
    let mut i: usize = 0;
    while i < mask.len()
        invariant
            i <= mask@.len(),
            r@.len() == i,
            forall|k: int| 0 <= k < mask@.len() ==> #[trigger] mask@[k] < array@.len(),
            forall|k: int|
                0 <= k < i ==> #[trigger] r@[k] == array@[mask@[k] as int],
        decreases mask@.len() - i,
    {
        r.push(array[mask[i]]);
        i = i + 1;
    }
    r
}

/// The names at the mask's indices, in mask order.
pub fn select_names_from_mask(names: &Vec<String>, mask: &Vec<usize>) -> (r: Vec<String>)
    requires
        forall|k: int| 0 <= k < mask@.len() ==> #[trigger] mask@[k] < names@.len(),
    ensures
        r@.len() == mask@.len(),
        forall|k: int|
            0 <= k < mask@.len() ==> #[trigger] r@[k] == names@[mask@[k] as int],
{
    let mut r: Vec<String> = Vec::new();
    let mut i: usize = 0;
    while i < mask.len()
        invariant
            i <= mask@.len(),
            r@.len() == i,
            forall|k: int| 0 <= k < mask@.len() ==> #[trigger] mask@[k] < names@.len(),
            forall|k: int|
                0 <= k < i ==> #[trigger] r@[k] == names@[mask@[k] as int],
        decreases mask@.len() - i,
    {
        r.push(names[mask[i]].clone());
        i = i + 1;
    }
    r
}

/// Drop the guides whose base-mean key is zero: select the gene names,
/// both p-value key arrays and the fold-change key array at the surviving
/// indices, in ascending index order.
pub fn filter_zeros(
    base_mean_keys: &Vec<u64>,
    gene_names: &Vec<String>,
    low_keys: &Vec<u64>,
    high_keys: &Vec<u64>,
    logfc_keys: &Vec<u64>,
) -> (r: (Vec<String>, Vec<u64>, Vec<u64>, Vec<u64>))
    requires
        gene_names@.len() == base_mean_keys@.len(),
        low_keys@.len() == base_mean_keys@.len(),
        high_keys@.len() == base_mean_keys@.len(),
        logfc_keys@.len() == base_mean_keys@.len(),
    ensures
        ({
            let mask = nonzero_upto(base_mean_keys@, base_mean_keys@.len() as int);
            r.0@.len() == mask.len() && r.1@.len() == mask.len() && r.2@.len() == mask.len()
                && r.3@.len() == mask.len() && (forall|k: int|
                0 <= k < mask.len()
                    ==> #[trigger] r.0@[k] == gene_names@[mask[k] as int]
                    && r.1@[k] == low_keys@[mask[k] as int]
                    && r.2@[k] == high_keys@[mask[k] as int]
                    && r.3@[k] == logfc_keys@[mask[k] as int])
        }),
{
    let mask = mask_zeros(base_mean_keys);
    let names = select_names_from_mask(gene_names, &mask);
    let low = select_from_mask(low_keys, &mask);
    let high = select_from_mask(high_keys, &mask);
    let logfc = select_from_mask(logfc_keys, &mask);
    (names, low, high, logfc)
}

} // verus!
