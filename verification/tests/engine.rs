use screen_agg::empirical::{empirical_alpha_count, empirical_cdf_counts};
use screen_agg::encode::{encode_index, group_sizes, num_unique, select_ranks};
use screen_agg::keys::UNIT_KEY;
use screen_agg::masks::{filter_low_counts, filter_zeros, mask_at_least, mask_zeros, select_from_mask};
use screen_agg::ranks::normed_rank_numerators;
use screen_agg::rra::{aggregate_min_key, filter_alpha, robust_rank_arguments, sort_keys};
use statrs::distribution::{Beta, ContinuousCDF};
use rand::RngExt;
use rand::SeedableRng;
use rand_chacha::ChaCha8Rng;

fn to_keys(values: &[f64]) -> Vec<u64> {
    values.iter().map(|v| v.to_bits()).collect()
}

fn from_keys(keys: &[u64]) -> Vec<f64> {
    keys.iter().map(|k| f64::from_bits(*k)).collect()
}

/// The alpha-RRA score of one gene's normalized-rank keys, with the Beta
/// CDF evaluated through statrs and every other step done by the library.
fn rra_score(rank_keys: &Vec<u64>, alpha: f64, num_values: usize) -> f64 {
    let args = robust_rank_arguments(rank_keys, alpha.to_bits(), num_values);
    let cdf_keys: Vec<u64> = args
        .iter()
        .map(|(a, b, x)| {
            Beta::new(*a as f64, *b as f64)
                .unwrap()
                .cdf(f64::from_bits(*x))
                .to_bits()
        })
        .collect();
    f64::from_bits(aggregate_min_key(&cdf_keys))
}

#[test]
fn test_unit_key_is_one() {
    assert_eq!(UNIT_KEY, 1.0f64.to_bits());
}

#[test]
fn test_argsort() {
    // the 0-based stable ranks take the place of an argsort-of-argsort
    let keys = to_keys(&[0.3, 0.2, 0.1, 0.4]);
    let nums = normed_rank_numerators(&keys);
    assert_eq!(nums, vec![3, 2, 1, 4]);
}

#[test]
fn test_argsort_precision() {
    let keys = to_keys(&[3e-300, 2e-300, 1e-300, 4e-300]);
    let nums = normed_rank_numerators(&keys);
    assert_eq!(nums, vec![3, 2, 1, 4]);
}

#[test]
fn test_ranks() {
    // the 0-based stable ranks of the argsort-of-argsort formulation
    let keys = to_keys(&[0.3, 0.2, 0.1, 0.4]);
    let ranks: Vec<usize> = normed_rank_numerators(&keys).iter().map(|k| k - 1).collect();
    assert_eq!(ranks, vec![2, 1, 0, 3]);
}

#[test]
fn test_normed_ranks() {
    let floats = [0.3, 0.2, 0.1, 0.4];
    let keys = to_keys(&floats);
    let nums = normed_rank_numerators(&keys);
    let nranks: Vec<f64> = nums.iter().map(|k| *k as f64 / floats.len() as f64).collect();
    assert_eq!(nranks, vec![0.75, 0.5, 0.25, 1.0]);
}

#[test]
fn test_normed_ranks_idempotent() {
    // ranking already-ranked input reproduces the identity permutation
    let n = 17usize;
    let ranked: Vec<f64> = (1..=n).map(|k| k as f64 / n as f64).collect();
    let keys = to_keys(&ranked);
    let nums = normed_rank_numerators(&keys);
    let expected: Vec<usize> = (1..=n).collect();
    assert_eq!(nums, expected);
    // and ranking the normalized output again changes nothing
    let again: Vec<f64> = nums.iter().map(|k| *k as f64 / n as f64).collect();
    assert_eq!(normed_rank_numerators(&to_keys(&again)), expected);
}

#[test]
fn test_ranks_stable_on_ties() {
    // ties receive distinct sequential ranks by position, no averaging
    let keys = to_keys(&[0.5, 0.2, 0.5, 0.2]);
    let nums = normed_rank_numerators(&keys);
    assert_eq!(nums, vec![3, 1, 4, 2]);
}

#[test]
fn test_sorting() {
    let keys = to_keys(&[3., 2., 1.]);
    let sorted = from_keys(&sort_keys(&keys));
    assert_eq!(sorted, vec![1., 2., 3.]);
}

#[test]
fn test_filter_alpha() {
    let keys = to_keys(&[0.1, 0.4, 0.25, 0.3, 0.05]);
    let kept = from_keys(&filter_alpha(&keys, 0.3f64.to_bits()));
    assert_eq!(kept, vec![0.1, 0.25, 0.05]);
    let mut rng = ChaCha8Rng::seed_from_u64(5);
    for _ in 0..100 {
        let normed: Vec<f64> = (0..5).map(|_| rng.random_range(0.0f64..1.0)).collect();
        let filtered = from_keys(&filter_alpha(&to_keys(&normed), 0.3f64.to_bits()));
        for v in &filtered {
            assert!(*v < 0.3);
        }
    }
}

#[test]
fn test_robust_rank() {
    let mut rng = ChaCha8Rng::seed_from_u64(9);
    let num = 5;
    let arr: Vec<f64> = (0..num).map(|_| rng.random_range(0.0f64..1.0)).collect();
    let rra = rra_score(&to_keys(&arr), 1.0, num);
    assert!(rra > 0.);
    assert!(rra <= 1.);
}

#[test]
fn test_robust_rank_empty() {
    for num in 0..100usize {
        let empty: Vec<u64> = Vec::new();
        let score = rra_score(&empty, 0.25, num);
        assert_eq!(score, 1.0);
    }
}

#[test]
fn test_robust_rank_sorted() {
    // the score does not depend on the order of the gene's ranks
    let num = 5;
    let ranks_a = to_keys(&[0.5, 0.3, 0.2]);
    let ranks_b = to_keys(&[0.3, 0.2, 0.5]);
    let rra_a = rra_score(&ranks_a, 1.0, num);
    let rra_b = rra_score(&ranks_b, 1.0, num);
    assert_eq!(rra_a, rra_b);
}

#[test]
fn test_robust_rank_exact() {
    let num = 5;
    let ranks = to_keys(&[1e-6]);
    let rra = rra_score(&ranks, 1.0, num);
    let exact = Beta::new(1., num as f64).unwrap().cdf(1e-6);
    assert_eq!(rra, exact);
}

#[test]
fn test_encoding() {
    let names: Vec<String> = vec!["g.0", "g.1", "g.0", "g.2"]
        .iter()
        .map(|x| x.to_string())
        .collect();
    let (arena, encoding) = encode_index(&names);
    assert_eq!(encoding, vec![0, 1, 0, 2]);
    assert_eq!(arena, vec!["g.0".to_string(), "g.1".to_string(), "g.2".to_string()]);
}

#[test]
fn test_encoding_round_trip() {
    // decoding the dense ids through the arena recovers the input exactly
    let names: Vec<String> = vec!["b", "a", "b", "c", "a", "d", "d", "b"]
        .iter()
        .map(|x| x.to_string())
        .collect();
    let (arena, encoding) = encode_index(&names);
    let decoded: Vec<String> = encoding.iter().map(|id| arena[*id].clone()).collect();
    assert_eq!(decoded, names);
    assert_eq!(num_unique(&names), arena.len());
}

#[test]
fn test_group_sizes() {
    let groups = vec![0, 0, 1, 1, 1, 2];
    let truth = vec![2, 3, 1];
    let sizes = group_sizes(&groups);
    truth.iter().for_each(|x| assert!(sizes.contains(x)));
    assert_eq!(sizes.len(), 3);
}

#[test]
fn test_select_ranks() {
    let enc = vec![0, 1, 0, 2, 1];
    let keys = to_keys(&[0.1, 0.2, 0.3, 0.4, 0.5]);
    assert_eq!(from_keys(&select_ranks(0, &enc, &keys)), vec![0.1, 0.3]);
    assert_eq!(from_keys(&select_ranks(1, &enc, &keys)), vec![0.2, 0.5]);
    assert_eq!(from_keys(&select_ranks(2, &enc, &keys)), vec![0.4]);
    assert_eq!(from_keys(&select_ranks(3, &enc, &keys)), Vec::<f64>::new());
}

#[test]
fn test_empirical_cdf() {
    let null = to_keys(&[0.1, 0.2, 0.3, 0.4]);
    let (num, den) = empirical_cdf_counts(0.25f64.to_bits(), &null);
    assert_eq!((num, den), (3, 5));
}

#[test]
fn test_empirical_cdf_never_zero() {
    // even an observed score below every null draw keeps the p-value
    // strictly positive: the numerator is the Laplace one
    let null = to_keys(&[0.5, 0.6, 0.7]);
    let (num, den) = empirical_cdf_counts(0.0f64.to_bits(), &null);
    assert_eq!((num, den), (1, 4));
    let p = num as f64 / den as f64;
    assert!(p > 0.0 && p <= 1.0);
}

#[test]
fn test_empirical_alpha() {
    let keys = to_keys(&[0.1, 0.2, 0.25, 0.5, 0.5]);
    let count = empirical_alpha_count(&keys, 0.3f64.to_bits());
    assert_eq!(count, 3);
    assert_eq!(count as f64 / keys.len() as f64, 3.0 / 5.0);
}

#[test]
fn test_select_from_mask() {
    let array = vec![0, 1, 2, 3, 4, 5];
    let mask = vec![0, 2, 4];
    let selected = select_from_mask(&array, &mask);
    assert_eq!(selected, vec![0, 2, 4]);
}

#[test]
fn test_mask_zeros() {
    let keys = to_keys(&[0., 1., 0., 1., 0.]);
    let mask = mask_zeros(&keys);
    assert_eq!(mask, vec![1, 3]);
}

#[test]
fn test_filtering() {
    // row means of the normalized count matrix, one per guide
    let means = [11.5, 13.5, 5.5, 17.5, 19.5];
    let sgrna_names: Vec<String> = (1..=5).map(|i| format!("sgrna{i}")).collect();
    let gene_names: Vec<String> = vec!["gene1", "gene2", "gene1", "gene2", "gene1"]
        .iter()
        .map(|x| x.to_string())
        .collect();
    let (mask, sgrnas, genes) =
        filter_low_counts(&to_keys(&means), &sgrna_names, &gene_names, 10.0f64.to_bits());
    assert_eq!(mask, vec![0, 1, 3, 4]);
    assert_eq!(sgrnas, vec!["sgrna1", "sgrna2", "sgrna4", "sgrna5"]);
    assert_eq!(genes, vec!["gene1", "gene2", "gene2", "gene1"]);
}

#[test]
fn test_filtering_controls() {
    // means over the control column only
    let control_means = [11., 13., 5., 17., 19.];
    let mask = mask_at_least(&to_keys(&control_means), 11.5f64.to_bits());
    assert_eq!(mask, vec![1, 3, 4]);
}

#[test]
fn test_filter_zeros() {
    let base = to_keys(&[1.0, 0.0, 2.0, 0.0]);
    let names: Vec<String> = vec!["a", "b", "c", "d"].iter().map(|x| x.to_string()).collect();
    let low = to_keys(&[0.1, 0.2, 0.3, 0.4]);
    let high = to_keys(&[0.9, 0.8, 0.7, 0.6]);
    let logfc = to_keys(&[1.5, 2.5, 3.5, 4.5]);
    let (pn, pl, ph, pf) = filter_zeros(&base, &names, &low, &high, &logfc);
    assert_eq!(pn, vec!["a".to_string(), "c".to_string()]);
    assert_eq!(from_keys(&pl), vec![0.1, 0.3]);
    assert_eq!(from_keys(&ph), vec![0.9, 0.7]);
    assert_eq!(from_keys(&pf), vec![1.5, 3.5]);
}

#[test]
fn test_filter_zeros_empty() {
    // every base mean zero: nothing survives
    let base = to_keys(&[0.0, 0.0, 0.0]);
    let names: Vec<String> = vec!["a", "b", "c"].iter().map(|x| x.to_string()).collect();
    let vals = to_keys(&[0.1, 0.2, 0.3]);
    let (pn, pl, ph, pf) = filter_zeros(&base, &names, &vals, &vals, &vals);
    assert!(pn.is_empty() && pl.is_empty() && ph.is_empty() && pf.is_empty());
}

#[test]
fn test_filter_zeros_all() {
    // every base mean positive: everything survives in order
    let base = to_keys(&[1.0, 2.0, 3.0]);
    let names: Vec<String> = vec!["a", "b", "c"].iter().map(|x| x.to_string()).collect();
    let vals = to_keys(&[0.1, 0.2, 0.3]);
    let (pn, pl, ph, pf) = filter_zeros(&base, &names, &vals, &vals, &vals);
    assert_eq!(pn, names);
    assert_eq!(pl.len(), 3);
    assert_eq!(ph.len(), 3);
    assert_eq!(pf.len(), 3);
}
