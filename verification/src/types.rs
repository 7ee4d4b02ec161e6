//! The data model of the profiling engine.
//!
//! Column values are 64-bit patterns of IEEE-754 binary64 numbers (see
//! `crate::ieee`). Quantities that the engine derives exactly are stored as
//! integers or patterns; fractions such as the distinct-value ratio are
//! represented by their exact numerator and denominator, and the division
//! into a double is left to the embedding, which owns all floating-point
//! arithmetic.
use vstd::prelude::*;

verus! {

/// The validation failures the engine can report. Each failure is detected
/// before or during a single column's computation and is never retried.
#[derive(Clone, Copy, Debug, PartialEq, Eq, Structural)]
pub enum ErrorKind {
    /// A column (or every column of a matrix with no rows) has no values.
    EmptyColumn,
    /// A histogram was requested against an empty edge sequence.
    EmptyEdgeSet,
    /// Zero bins were requested from the edge calculator.
    InvalidBinCount,
    /// The feature-name sequence does not have one name per column.
    FeatureNameMismatch,
    /// The caller-supplied edge sets do not have one set per column.
    BinSpecMismatch,
}

/// A validation failure, together with the failing column's index and name
/// when the failure was detected inside a matrix-level computation.
#[derive(Clone, Debug)]
pub struct ProfileError {
    pub kind: ErrorKind,
    pub column_index: Option<usize>,
    pub column_name: Option<String>,
}

impl ProfileError {
    /// A failure detected outside any particular column.
    pub fn new(kind: ErrorKind) -> (r: ProfileError)
        ensures
            r.kind == kind,
            r.column_index is None,
            r.column_name is None,
    {
        ProfileError { kind, column_index: None, column_name: None }
    }

    /// A failure attributed to the column it was detected in.
    pub fn in_column(kind: ErrorKind, index: usize, name: &String) -> (r: ProfileError)
        ensures
            r.kind == kind,
            r.column_index == Some(index),
            r.column_name is Some,
            r.column_name.unwrap()@ == name@,
    {
        ProfileError { kind, column_index: Some(index), column_name: Some(name.clone()) }
    }
}

/// The distinct-value count of a column and the column length it is a
/// fraction of: the distinct ratio is exactly `count / total`.
#[derive(Clone, Copy, Debug, PartialEq, Eq, Structural)]
pub struct Distinct {
    pub count: usize,
    pub total: usize,
}

/// The infinite-value count of a column and the column length it is a
/// fraction of.
#[derive(Clone, Copy, Debug, PartialEq, Eq, Structural)]
pub struct Infinity {
    pub count: usize,
    pub total: usize,
}

/// The missing-value count of a nullable column and the column length it is
/// a fraction of. Dense columns carry no missing channel and report none.
#[derive(Clone, Copy, Debug, PartialEq, Eq, Structural)]
pub struct Missing {
    pub count: usize,
    pub total: usize,
}

/// Descriptive statistics of one column.
///
/// `median_low` and `median_high` are the two central order statistics of
/// the column under the IEEE total order: for a column of odd length they
/// are the same value, the exact median; for even length the median of the
/// underlying convention is their mean, one addition and one halving that
/// the embedding performs. `min` and `max` fold over the column ignoring
/// NaN values, as `crate::ieee::fold_min` and `fold_max` state.
#[derive(Clone, Copy, Debug)]
pub struct Stats {
    pub median_low: u64,
    pub median_high: u64,
    pub min: u64,
    pub max: u64,
    pub distinct: Distinct,
    pub infinity: Infinity,
    pub missing: Option<Missing>,
}

/// One column's histogram: the bin edges and the per-bin counts, index for
/// index.
#[derive(Clone, Debug)]
pub struct Bin {
    pub bins: Vec<u64>,
    pub bin_counts: Vec<usize>,
}

/// The unit of output: one column's name, histogram and statistics, in the
/// position of that column.
#[derive(Clone, Debug)]
pub struct FeatureStat {
    pub name: String,
    pub bins: Bin,
    pub stats: Stats,
}

/// One column's histogram together with its name, the output of the
/// histogram-only matrix pass.
#[derive(Clone, Debug)]
pub struct FeatureBin {
    pub name: String,
    pub bins: Vec<u64>,
    pub bin_counts: Vec<usize>,
}

impl FeatureBin {
    pub fn new(name: String, bins: Vec<u64>, bin_counts: Vec<usize>) -> (r: FeatureBin)
        ensures
            r.name@ == name@,
            r.bins@ == bins@,
            r.bin_counts@ == bin_counts@,
    {
        FeatureBin { name, bins, bin_counts }
    }
}

/// The exact description of a column's auto-derived equal-width bin edges:
/// the observed range and the requested bin count. Edge `i`, for `i` below
/// `num_bins`, sits at `min + i * (max - min) / num_bins`, a binary64
/// computation the embedding performs; its first edge is `min` itself and
/// the last edge opens the unbounded tail bin.
#[derive(Clone, Copy, Debug, PartialEq, Eq, Structural)]
pub struct BinPlan {
    pub min: u64,
    pub max: u64,
    pub num_bins: u32,
}

} // verus!
