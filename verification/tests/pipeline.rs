use rand::RngExt;
use rand::SeedableRng;
use rand_chacha::ChaCha8Rng;
use screen_agg::empirical::empirical_cdf_counts;
use screen_agg::encode::{encode_index, group_sizes, select_ranks};
use screen_agg::ranks::normed_rank_numerators;
use screen_agg::rra::{aggregate_min_key, robust_rank_arguments};
use screen_agg::sample::sample_rank_numerators;
use statrs::distribution::{Beta, ContinuousCDF};
use std::collections::BTreeMap;

/// The alpha-RRA score key of one gene's normalized-rank keys: alpha
/// filter, sort and minimum by the library, the Beta CDF by statrs.
fn rra_score_key(rank_keys: &Vec<u64>, alpha_key: u64, num_values: usize) -> u64 {
    let args = robust_rank_arguments(rank_keys, alpha_key, num_values);
    let cdf_keys: Vec<u64> = args
        .iter()
        .map(|(a, b, x)| {
            Beta::new(*a as f64, *b as f64)
                .unwrap()
                .cdf(f64::from_bits(*x))
                .to_bits()
        })
        .collect();
    aggregate_min_key(&cdf_keys)
}

/// One permutation draw: `group_size` ranks drawn uniformly from
/// `[1, population]` with replacement, normalized and scored. The draw is
/// seeded by `seed + task index`, so parallel scheduling cannot change it.
fn null_score_key(population: usize, alpha_key: u64, group_size: usize, task_seed: u64) -> u64 {
    let numerators = sample_rank_numerators(task_seed, group_size, population);
    let draw: Vec<u64> = numerators
        .iter()
        .map(|v| (*v as f64 / population as f64).to_bits())
        .collect();
    rra_score_key(&draw, alpha_key, group_size)
}

/// The full alpha-RRA aggregation over one p-value array.
fn alpha_rra(
    pvalues: &[f64],
    genes: &Vec<String>,
    alpha: f64,
    npermutations: usize,
    seed: u64,
) -> (Vec<String>, Vec<f64>, Vec<f64>) {
    let (arena, membership) = encode_index(genes);
    let keys: Vec<u64> = pvalues.iter().map(|p| p.to_bits()).collect();
    let population = keys.len();
    let nums = normed_rank_numerators(&keys);
    let nranks: Vec<u64> = nums
        .iter()
        .map(|k| (*k as f64 / population as f64).to_bits())
        .collect();
    let alpha_key = alpha.to_bits();

    let n_samples = npermutations * arena.len();
    let mut nulls: BTreeMap<usize, Vec<u64>> = BTreeMap::new();
    for (offset, size) in group_sizes(&membership).iter().enumerate() {
        let base = seed.wrapping_add((offset * n_samples) as u64);
        let null: Vec<u64> = (0..n_samples)
            .map(|t| null_score_key(population, alpha_key, *size, base.wrapping_add(t as u64)))
            .collect();
        nulls.insert(*size, null);
    }

    let mut scores: Vec<f64> = Vec::new();
    let mut pvals: Vec<f64> = Vec::new();
    for g in 0..arena.len() {
        let gene_ranks = select_ranks(g, &membership, &nranks);
        let score_key = rra_score_key(&gene_ranks, alpha_key, gene_ranks.len());
        let null = nulls.get(&gene_ranks.len()).unwrap();
        let (num, den) = empirical_cdf_counts(score_key, null);
        scores.push(f64::from_bits(score_key));
        pvals.push(num as f64 / den as f64);
    }
    (arena, scores, pvals)
}

fn uniform_dataset(seed: u64) -> (Vec<f64>, Vec<String>) {
    let mut rng = ChaCha8Rng::seed_from_u64(seed);
    let genes: Vec<String> = (0..100).map(|i| format!("gene_{}", i / 5)).collect();
    let pvalues: Vec<f64> = (0..100).map(|_| rng.random_range(0.0f64..1.0).max(1e-12)).collect();
    (pvalues, genes)
}

#[test]
fn test_rra_deterministic_under_seed() {
    // 100 guides, 20 genes, 5 guides each, uniform p-values: two runs with
    // the same seed agree byte for byte
    let (pvalues, genes) = uniform_dataset(7);
    let run_a = alpha_rra(&pvalues, &genes, 0.25, 100, 42);
    let run_b = alpha_rra(&pvalues, &genes, 0.25, 100, 42);
    assert_eq!(run_a.0, run_b.0);
    let bits = |v: &[f64]| v.iter().map(|x| x.to_bits()).collect::<Vec<u64>>();
    assert_eq!(bits(&run_a.1), bits(&run_b.1));
    assert_eq!(bits(&run_a.2), bits(&run_b.2));
}

#[test]
fn test_rra_null_pvalues_roughly_uniform() {
    // on a genuinely null dataset the gene p-values spread out over (0, 1]
    let (pvalues, genes) = uniform_dataset(11);
    let (_, scores, pvals) = alpha_rra(&pvalues, &genes, 0.25, 100, 1);
    let (_, _, pvals_other) = alpha_rra(&pvalues, &genes, 0.25, 100, 2);
    assert_eq!(pvals.len(), 20);
    for (s, p) in scores.iter().zip(pvals.iter()) {
        assert!(*s > 0.0 && *s <= 1.0);
        assert!(*p > 0.0 && *p <= 1.0);
    }
    let mean = pvals.iter().sum::<f64>() / pvals.len() as f64;
    assert!(mean > 0.15 && mean < 0.85);
    // a different seed gives a different null, hence different p-values
    assert!(pvals.iter().zip(pvals_other.iter()).any(|(a, b)| a != b));
}

#[test]
fn test_rra_scores_in_unit_interval() {
    // alpha-RRA scores stay inside (0, 1] whatever the p-values
    let mut rng = ChaCha8Rng::seed_from_u64(3);
    for _ in 0..20 {
        let n = rng.random_range(1usize..40);
        let pvalues: Vec<f64> = (0..n).map(|_| rng.random_range(0.0f64..1.0).max(1e-12)).collect();
        let keys: Vec<u64> = pvalues.iter().map(|p| p.to_bits()).collect();
        let nums = normed_rank_numerators(&keys);
        let nranks: Vec<u64> = nums.iter().map(|k| (*k as f64 / n as f64).to_bits()).collect();
        let score = f64::from_bits(rra_score_key(&nranks, 0.25f64.to_bits(), n));
        assert!(score > 0.0 && score <= 1.0);
    }
}
