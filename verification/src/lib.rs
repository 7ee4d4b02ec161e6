//! A column-wise feature profiling engine, verified with Verus.
//!
//! Given a numeric matrix — rows are records, columns are features — the
//! engine computes, independently per column, a histogram (bin edges and
//! per-bin counts) and descriptive statistics (central order statistics for
//! the median, minimum, maximum, distinct-value count, infinite-value count,
//! and an optional missing-value count).
//!
//! Every value is carried as the 64-bit pattern of an IEEE-754 binary64
//! number, so that all the decisions the engine makes — comparisons, bin
//! assignment, ordering — are exact integer computations with verified
//! contracts. The few places where new numbers must be computed from old
//! ones (the positions of auto-derived bin edges, means and ratios) are
//! described exactly by the returned data, and the surrounding embedding
//! performs that arithmetic.

pub mod ieee;
pub mod matrix;
pub mod types;
pub mod histogram;
pub mod stats;
