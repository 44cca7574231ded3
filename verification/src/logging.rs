//! Progress reporting to standard error.
//!
//! The logger prints one labelled line per reported quantity and stays
//! silent when constructed quiet. Only the emit helpers touch standard
//! error; every decision — whether to print, what number, which label,
//! the sorting of the reported permutation sizes — is verified code.

use std::io::Write;
use vstd::prelude::*;
use crate::config::{Normalization, TestStrategy};
use crate::rra::sort_keys;

verus! {

/// Relies on `std::io::stderr` and its `Write` impl through `writeln!`:
/// prints one labelled count line to standard error.
#[verifier::external_body]
fn emit_count(label: &str, value: usize) {
    let _ = writeln!(std::io::stderr(), ">> {label} {value}");
}

/// Relies on `std::io::stderr` and its `Write` impl through `writeln!`:
/// prints one labelled text line to standard error.
#[verifier::external_body]
fn emit_text(label: &str, value: &str) {
    let _ = writeln!(std::io::stderr(), ">> {label} {value}");
}

/// Relies on `std::io::stderr` and its `Write` impl through `writeln!`:
/// prints one labelled name-list line to standard error.
#[verifier::external_body]
fn emit_names(label: &str, values: &[String]) {
    let _ = writeln!(std::io::stderr(), ">> {label} {values:?}");
}

/// Relies on `std::io::stderr` and its `Write` impl through `writeln!`:
/// prints one labelled number-list line to standard error.
#[verifier::external_body]
fn emit_numbers(label: &str, values: &Vec<u64>) {
    let _ = writeln!(std::io::stderr(), ">> {label} {values:?}");
}

/// Reports run progress to standard error; silent when quiet.
pub struct Logger {
    verbose: bool,
}

impl Default for Logger {
    /// The default logger stays silent.
    fn default() -> (r: Self)
        ensures
            !r.is_verbose(),
    {
        Self { verbose: false }
    }
}

impl Logger {
    /// Does this logger print?
    pub closed spec fn is_verbose(&self) -> bool {
        self.verbose
    }

    /// A logger that prints unless `quiet` is set.
    pub fn from_quiet(quiet: bool) -> (r: Self)
        ensures
            r.is_verbose() == !quiet,
    {
        Self { verbose: !quiet }
    }

    /// A logger that prints.
    pub fn new() -> (r: Self)
        ensures
            r.is_verbose(),
    {
        Self { verbose: true }
    }

    /// A logger that stays silent.
    pub fn new_silent() -> (r: Self)
        ensures
            !r.is_verbose(),
    {
        Self { verbose: false }
    }

    /// Report how many guides the run holds.
    pub fn num_sgrnas<T>(&self, x: &[T]) {
        if self.verbose {
            emit_count("Number of sgRNAs           :", x.len());
        }
    }

    /// Report the control and treatment sample labels.
    pub fn group_names(&self, controls: &[String], treatments: &[String]) {
        if self.verbose {
            emit_names("Control Group              :", controls);
            emit_names("Treatment Group            :", treatments);
        }
    }

    /// Report the labels of the samples drawn for resampling.
    pub fn sampled_names(&self, samples: &[String]) {
        if self.verbose {
            emit_names("Sampled Group              :", samples);
        }
    }

    /// Report the count normalization method.
    pub fn norm_method(&self, n: &Normalization) {
        if self.verbose {
            emit_text("Normalization Method       :", n.label());
        }
    }

    /// Report how many guides the low-count filter removed.
    pub fn num_filtered(&self, num_filtered: usize) {
        if self.verbose {
            emit_count("Number of Filtered sgRNAs  :", num_filtered);
        }
    }

    /// Report how many outlier guides the model fit removed.
    pub fn num_outliers(&self, x: usize) {
        if self.verbose {
            emit_count("Removed Outlier sgRNAs     :", x);
        }
    }

    /// Report how many all-zero guides were removed.
    pub fn num_zeros(&self, x: usize) {
        if self.verbose {
            emit_count("Removed Zero sgRNAs        :", x);
        }
    }

    /// Report how many under-varied guides the model fit removed.
    pub fn num_varied(&self, x: usize) {
        if self.verbose {
            emit_count("Removed Undervaried sgRNAs :", x);
        }
    }

    /// Report the sample aggregation strategy.
    pub fn sample_aggregation_strategy(&self, strategy: TestStrategy) {
        if self.verbose {
            emit_text("Sample Aggregation Strategy:", strategy.label());
        }
    }

    /// Report the distinct guide-group sizes the permutation nulls are
    /// built for, in ascending order.
    pub fn permutation_sizes(&self, sizes: &[usize]) {
        if self.verbose {
            let mut as_keys: Vec<u64> = Vec::new();
            let mut i: usize = 0;
            while i < sizes.len()
                invariant
                    i <= sizes@.len(),
                    as_keys@.len() == i,
                decreases sizes@.len() - i,
            {
                as_keys.push(sizes[i] as u64);
                i = i + 1;
            }
            let sorted_sizes = sort_keys(&as_keys);
            emit_numbers("Permutation Sizes          :", &sorted_sizes);
        }
    }

    /// Report the target read depth of a resampling run.
    pub fn resampling_depth(&self, depth: usize) {
        if self.verbose {
            emit_count("Resampling Depth           :", depth);
        }
    }

    /// Report how many resamples a resampling run draws.
    pub fn number_of_resamples(&self, n_resamples: usize) {
        if self.verbose {
            emit_count("Number of Resamples        :", n_resamples);
        }
    }
}

} // verus!
