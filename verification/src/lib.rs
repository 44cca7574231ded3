//! Gene-level aggregation engine for CRISPR-screen differential-abundance
//! analysis.
//!
//! Given per-guide p-values and gene names, the engine aggregates many
//! per-guide p-values into one significance score per gene, either by
//! robust rank aggregation against Monte-Carlo permutation nulls, or by a
//! Mann-Whitney U rank-sum test against a non-targeting-control guide set.
//!
//! The engine's decisions are purely ordinal: every p-value, normalized
//! rank and score enters as an *order key* (see [`keys`]), the `u64` bit
//! pattern of a nonnegative finite IEEE-754 double, which compares exactly
//! as the double does. Ranking, alpha filtering, sorting, minimisation and
//! empirical counting are therefore exact integer operations and are
//! verified here. Transcendental evaluation (Beta and normal CDFs) and the
//! divisions that produce fresh keys are left to the caller, which hands
//! the resulting keys back to the engine.

pub mod config;
pub mod empirical;
pub mod encode;
pub mod keys;
pub mod logging;
pub mod masks;
pub mod mwu;
pub mod ranks;
pub mod rra;
pub mod sample;
pub mod text;
