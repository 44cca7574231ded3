//! Run configuration: the aggregation method selection and its
//! method-specific payloads, and the surrounding run options.
//!
//! Thresholds that are doubles in the caller's world (alpha, fdr) are held
//! as order keys here, like every other score (see [`crate::keys`]).

use vstd::prelude::*;
use vstd::string::StrSliceExecFns;

verus! {

/// Lowercase an ASCII uppercase letter; leave every other character.
pub open spec fn ascii_lower(c: char) -> char {
    if 'A' <= c && c <= 'Z' {
        ((c as u8) + 32) as char
    } else {
        c
    }
}

/// Lowercase every ASCII uppercase letter of the sequence.
pub open spec fn lower_seq(s: Seq<char>) -> Seq<char> {
    Seq::new(s.len(), |i: int| ascii_lower(s[i]))
}

/// Does `s` name the value called `t`, matching case-insensitively over
/// ASCII letters when `ignore_case` is set?
pub open spec fn names_value(s: Seq<char>, t: Seq<char>, ignore_case: bool) -> bool {
    if ignore_case {
        lower_seq(s) == lower_seq(t)
    } else {
        s == t
    }
}

/// Which gene aggregation procedure to run.
#[derive(Clone, Debug, PartialEq, Eq, Structural)]
pub enum GeneAggregationSelection {
    /// Alpha robust rank aggregation.
    RRA,
    /// INC: the Mann-Whitney U test against non-targeting controls.
    Inc,
    /// GeoPAGG: weighted geometric-mean aggregation.
    GeoPAGG,
}

fn char_lower(c: char) -> (r: char)
    ensures
        r == ascii_lower(c),
{
    if 'A' <= c && c <= 'Z' {
        ((c as u8) + 32) as char
    } else {
        c
    }
}

/// Do the two strings match, case-insensitively over ASCII letters when
/// `ignore_case` is set?
fn str_matches(a: &str, b: &str, ignore_case: bool) -> (r: bool)
    ensures
        r == names_value(a@, b@, ignore_case),
{
    let a_len = a.unicode_len();
    let b_len = b.unicode_len();
    if a_len != b_len {
        if ignore_case {
            assert(lower_seq(a@).len() != lower_seq(b@).len());
        }
        return false;
    }
    let mut i: usize = 0;
    while i < a_len
        invariant
            a_len == a@.len(),
            b_len == b@.len(),
            a_len == b_len,
            i <= a_len,
            ignore_case ==> forall|k: int|
                0 <= k < i ==> ascii_lower(a@[k]) == ascii_lower(b@[k]),
            !ignore_case ==> forall|k: int| 0 <= k < i ==> a@[k] == b@[k],
        decreases a_len - i,
    {
        let ca = a.get_char(i);
        let cb = b.get_char(i);
        if ignore_case {
            if char_lower(ca) != char_lower(cb) {
                assert(lower_seq(a@)[i as int] != lower_seq(b@)[i as int]);
                return false;
            }
        } else {
            if ca != cb {
                return false;
            }
        }
        i = i + 1;
    }
    proof {
        if ignore_case {
            assert(lower_seq(a@) =~= lower_seq(b@));
        } else {
            assert(a@ =~= b@);
        }
    }
    true
}

impl GeneAggregationSelection {
    /// Parse a selection from its value name — `rra`, `inc` or `geopagg` —
    /// matching case-insensitively when `ignore_case` is set. Any other
    /// input is rejected, handed back as the error.
    pub fn from_str(input: &str, ignore_case: bool) -> (r: Result<
        GeneAggregationSelection,
        String,
    >)
        ensures
            r == Ok::<_, String>(GeneAggregationSelection::RRA) <==> names_value(
                input@,
                "rra"@,
                ignore_case,
            ),
            r == Ok::<_, String>(GeneAggregationSelection::Inc) <==> names_value(
                input@,
                "inc"@,
                ignore_case,
            ),
            r == Ok::<_, String>(GeneAggregationSelection::GeoPAGG) <==> names_value(
                input@,
                "geopagg"@,
                ignore_case,
            ),
            r is Err ==> (r matches Err(e) && e@ == input@),
    {
        proof {
            reveal_strlit("rra");
            reveal_strlit("inc");
            reveal_strlit("geopagg");
            assert(lower_seq("rra"@)[0] != lower_seq("inc"@)[0]);
            assert(lower_seq("rra"@).len() != lower_seq("geopagg"@).len());
            assert(lower_seq("inc"@).len() != lower_seq("geopagg"@).len());
            assert("rra"@[0] != "inc"@[0]);
        }
        if str_matches(input, "rra", ignore_case) {
            Ok(GeneAggregationSelection::RRA)
        } else if str_matches(input, "inc", ignore_case) {
            Ok(GeneAggregationSelection::Inc)
        } else if str_matches(input, "geopagg", ignore_case) {
            Ok(GeneAggregationSelection::GeoPAGG)
        } else {
            Err(input.to_owned())
        }
    }
}

/// GeoPAGG weight configuration choices.
#[derive(Clone, Copy, Debug, PartialEq, Eq, Structural)]
pub enum GeoPAGGWeightConfigEnum {
    /// Drop the strongest guide's weight.
    DropFirst,
    /// Weight guides by rank order.
    RankOrder,
    /// Equal weights.
    Balanced,
}

impl Default for GeoPAGGWeightConfigEnum {
    /// The default weight configuration: drop the strongest guide.
    fn default() -> (r: Self)
        ensures
            r == GeoPAGGWeightConfigEnum::DropFirst,
    {
        GeoPAGGWeightConfigEnum::DropFirst
    }
}

/// Multiple-hypothesis correction selection, applied downstream.
#[derive(Clone, Copy, Debug, PartialEq, Eq, Structural)]
pub enum Adjustment {
    /// Bonferroni.
    Bf,
    /// Benjamini-Hochberg.
    Bh,
    /// Benjamini-Yekutieli.
    By,
}

/// Count normalization selection, applied upstream.
#[derive(Clone, Copy, Debug, PartialEq, Eq, Structural)]
pub enum Normalization {
    /// Median ratio of guide geometric means; unstable at high zeros.
    MedianRatio,
    /// Total read count per sample.
    Total,
}

impl Normalization {
    /// The name this choice goes by.
    pub fn label(&self) -> (s: &'static str)
        ensures
            *self == Normalization::MedianRatio ==> s@ == "median-ratio"@,
            *self == Normalization::Total ==> s@ == "total"@,
    {
        match self {
            Normalization::MedianRatio => "median-ratio",
            Normalization::Total => "total",
        }
    }
}

/// How per-sample tests are aggregated upstream of the gene aggregation.
#[derive(Clone, Copy, Debug, PartialEq, Eq, Structural)]
pub enum TestStrategy {
    /// Median of counts within a group, then one test.
    CountMedian,
    /// Test each sample, aggregate by geometric mean.
    SampleGeometricMean,
    /// Test each sample, aggregate by weighted geometric mean.
    SampleWeightedGeometricMean,
}

impl TestStrategy {
    /// The name this choice goes by.
    pub fn label(&self) -> (s: &'static str)
        ensures
            *self == TestStrategy::CountMedian ==> s@ == "cm"@,
            *self == TestStrategy::SampleGeometricMean ==> s@ == "gm"@,
            *self == TestStrategy::SampleWeightedGeometricMean ==> s@ == "wgm"@,
    {
        match self {
            TestStrategy::CountMedian => "cm",
            TestStrategy::SampleGeometricMean => "gm",
            TestStrategy::SampleWeightedGeometricMean => "wgm",
        }
    }
}

impl Default for TestStrategy {
    /// The default strategy: one test on the median of counts.
    fn default() -> (r: Self)
        ensures
            r == TestStrategy::CountMedian,
    {
        TestStrategy::CountMedian
    }
}

/// Mean-variance model selection, applied upstream.
#[derive(Clone, Copy, Debug, PartialEq, Eq, Structural)]
pub enum ModelChoice {
    /// Ordinary least squares.
    Ols,
    /// Weighted ordinary least squares.
    Wols,
    /// Squared mean.
    Sqmean,
}

/// Why an input table could not be read into the run's arrays.
#[derive(Clone, Debug, PartialEq, Eq)]
pub enum FormatError {
    /// The first column could not be parsed as guide names.
    MalformedSgrnaNames,
    /// The second column could not be parsed as gene names.
    MalformedGeneNames,
    /// A requested sample column is missing.
    MissingSamples { sample: String },
    /// A sample column could not be parsed as numbers.
    MalformedSamples,
}

/// The gene aggregation procedure with its method-specific configuration.
/// Thresholds are order keys; the caller encodes its doubles.
#[derive(Clone, Debug)]
pub enum GeneAggregation {
    /// Alpha robust rank aggregation.
    AlphaRRA { alpha_key: u64, npermutations: usize, adjust_alpha: bool, fdr_key: u64 },
    /// Mann-Whitney U against non-targeting controls.
    Inc {
        token: String,
        fdr_key: u64,
        group_size: usize,
        n_draws: usize,
        use_product: bool,
    },
    /// Weighted geometric-mean aggregation.
    GeoPAGG {
        token: Option<String>,
        weight_config: GeoPAGGWeightConfigEnum,
        fdr_key: u64,
        use_product: bool,
    },
}

/// Input table location and sample labels.
#[derive(Clone, Debug)]
pub struct InputArgs {
    /// Filepath of the input count matrix.
    pub input: String,
    /// Labels of the control samples.
    pub controls: Vec<String>,
    /// Labels of the treatment samples.
    pub treatments: Vec<String>,
}

/// INC configuration.
#[derive(Clone, Copy, Debug)]
pub struct IncArgs {
    /// Guide group size of the pseudo-genes drawn from the controls.
    pub inc_group_size: usize,
    /// Threshold on the product score instead of the U p-values.
    pub inc_product: bool,
    /// How many pseudo-gene draws to make.
    pub n_draws: usize,
}

/// Column names of a guide-level results table.
#[derive(Clone, Debug)]
pub struct SgrnaColumns {
    /// Low-side p-value column.
    pub pvalue_low: String,
    /// High-side p-value column.
    pub pvalue_high: String,
    /// Control-mean column.
    pub control_mean: String,
    /// Treatment-mean column.
    pub treatment_mean: String,
    /// Guide-name column.
    pub sgrna: String,
    /// Gene-name column.
    pub gene: String,
}

} // verus!
