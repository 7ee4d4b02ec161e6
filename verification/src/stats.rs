//! Descriptive statistics of columns, and the matrix-level profiler that
//! assembles one `FeatureStat` per column.
//!
//! The median is exact: the column is sorted under the IEEE total order
//! (`crate::ieee::total_le`, NaN patterns at the extremes) and the two
//! central order statistics are returned; averaging them for even-length
//! columns is one addition and one halving, performed by the embedding.
//! Distinctness is equality of 64-bit patterns: two NaN values are the same
//! only when their patterns agree, and the two zeroes stay distinct.
use crate::histogram::{column_max, column_min, count_in_bin};
use crate::ieee::{
    fold_max, fold_min, is_inf_bits, is_infinite_val, lemma_total_le_is_total_ordering,
    total_le_fn, total_le_val,
};
use crate::matrix::Matrix;
use crate::types::{Distinct, ErrorKind, FeatureStat, Infinity, Missing, ProfileError, Stats};
use vstd::prelude::*;
use vstd::relations::sorted_by;
use vstd::seq_lib::lemma_sorted_unique;

verus! {

broadcast use
    vstd::seq_lib::group_to_multiset_ensures,
    vstd::multiset::group_multiset_axioms,
    vstd::set::group_set_axioms;

/// The column in ascending IEEE total order: the unique sorted permutation
/// that the median is read from.
pub open spec fn sorted_col(s: Seq<u64>) -> Seq<u64> {
    s.sort_by(total_le_fn())
}

/// Sorting keeps the length.
pub proof fn lemma_sorted_col_len(s: Seq<u64>)
    ensures
        sorted_col(s).len() == s.len(),
{
    lemma_total_le_is_total_ordering();
    s.lemma_sort_by_ensures(total_le_fn());
    assert(s.to_multiset().len() == s.len());
    assert(sorted_col(s).to_multiset().len() == sorted_col(s).len());
    assert(s.to_multiset() == sorted_col(s).to_multiset());
}

/// A multiset equality that adding an empty column preserves.
proof fn lemma_add_empty_multiset(a: Seq<u64>, b: Seq<u64>)
    requires
        a.len() == 0,
    ensures
        a.to_multiset().add(b.to_multiset()) =~= b.to_multiset(),
{
    assert forall|x: u64| a.to_multiset().add(b.to_multiset()).count(x) == b.to_multiset().count(
        x,
    ) by {
        assert(!a.contains(x));
        assert(a.to_multiset().count(x) == 0);
    }
}

/// Returns a copy of the column, sorted ascending under the IEEE total
/// order, by selection of the least remaining value.
pub fn sorted_values(data: &Vec<u64>) -> (r: Vec<u64>)
    ensures
        r@ == sorted_col(data@),
{
    let ghost orig = data@;
    let mut rest: Vec<u64> = Vec::new();
    let mut t: usize = 0;
    while t < data.len()
        invariant
            0 <= t <= orig.len(),
            orig == data@,
            rest@ == orig.subrange(0, t as int),
        decreases orig.len() - t,
    {
        rest.push(data[t]);
        proof {
            assert(orig.subrange(0, t + 1) =~= orig.subrange(0, t as int).push(orig[t as int]));
        }
        t += 1;
    }
    proof {
        assert(rest@ =~= orig);
    }
    let mut out: Vec<u64> = Vec::new();
    proof {
        lemma_add_empty_multiset(out@, rest@);
    }
    while rest.len() > 0
        invariant
            out@.to_multiset().add(rest@.to_multiset()) =~= orig.to_multiset(),
            sorted_by(out@, total_le_fn()),
            forall|a: int, b: int|
                #![trigger out@[a], rest@[b]]
                0 <= a < out@.len() && 0 <= b < rest@.len() ==> total_le_fn()(out@[a], rest@[b]),
        decreases rest@.len(),
    {
        let mut mi: usize = 0;
        let mut k: usize = 1;
        while k < rest.len()
            invariant
                rest@.len() > 0,
                0 <= mi < rest@.len(),
                1 <= k <= rest@.len(),
                forall|q: int| 0 <= q < k ==> total_le_fn()(rest@[mi as int], #[trigger] rest@[q]),
            decreases rest@.len() - k,
        {
            if total_le_val(rest[k], rest[mi]) {
                mi = k;
            }
            k += 1;
        }
        let ghost out_old = out@;
        let ghost rest_old = rest@;
        let v = rest.remove(mi);
        out.push(v);
        proof {
            assert(rest_old.contains(v));
            assert(rest_old.to_multiset().count(v) > 0);
            assert forall|x: u64|
                out@.to_multiset().add(rest@.to_multiset()).count(x) == orig.to_multiset().count(
                    x,
                ) by {
                assert(out@.to_multiset() =~= out_old.to_multiset().insert(v));
                assert(rest@.to_multiset() =~= rest_old.to_multiset().remove(v));
            }
            assert forall|i: int, j: int| 0 <= i < j < out@.len() implies total_le_fn()(
                out@[i],
                out@[j],
            ) by {
                if j == out@.len() - 1 {
                    assert(out@[j] == v);
                    assert(total_le_fn()(out_old[i], rest_old[mi as int]));
                }
            }
            assert forall|a: int, b: int|
                #![trigger out@[a], rest@[b]]
                0 <= a < out@.len() && 0 <= b < rest@.len() implies total_le_fn()(
                out@[a],
                rest@[b],
            ) by {
                let b_old: int = if b < mi { b } else { b + 1 };
                assert(rest@[b] == rest_old[b_old]);
                if a < out@.len() - 1 {
                    assert(total_le_fn()(out_old[a], rest_old[b_old]));
                } else {
                    assert(out@[a] == v);
                    assert(total_le_fn()(rest_old[mi as int], rest_old[b_old]));
                }
            }
        }
    }
    proof {
        lemma_add_empty_multiset(rest@, out@);
        assert(out@.to_multiset() =~= orig.to_multiset()) by {
            assert forall|x: u64| out@.to_multiset().count(x) == orig.to_multiset().count(x) by {
                assert(out@.to_multiset().add(rest@.to_multiset()).count(x) == orig.to_multiset()
                    .count(x));
                assert(rest@.to_multiset().count(x) == 0) by {
                    assert(!rest@.contains(x));
                }
            }
        }
        lemma_total_le_is_total_ordering();
        orig.lemma_sort_by_ensures(total_le_fn());
        lemma_sorted_unique(out@, orig.sort_by(total_le_fn()), total_le_fn());
        assert(out@ =~= sorted_col(orig));
    }
    out
}

/// Counts the distinct bit patterns of a column: `count` distinct values
/// out of `total`, the exact distinct ratio being their quotient. Always
/// succeeds; an empty column has zero distinct values.
pub fn count_distinct(feature_array: &Vec<u64>) -> (r: Result<Distinct, ProfileError>)
    ensures
        r is Ok,
        r.unwrap().count == feature_array@.to_set().len(),
        r.unwrap().total == feature_array@.len(),
{
    let ghost s = feature_array@;
    let n = feature_array.len();
    let mut count: usize = 0;
    let mut j: usize = 0;
    proof {
        assert(s.subrange(0, 0).to_set() =~= Set::<u64>::empty());
    }
    while j < n
        invariant
            0 <= j <= n,
            n == s.len(),
            s == feature_array@,
            count <= j,
            count == s.subrange(0, j as int).to_set().len(),
        decreases n - j,
    {
        let x = feature_array[j];
        let mut seen = false;
        let mut k: usize = 0;
        while k < j
            invariant
                0 <= k <= j < n,
                n == s.len(),
                s == feature_array@,
                x == s[j as int],
                seen == exists|q: int| 0 <= q < k && s[q] == x,
            decreases j - k,
        {
            if feature_array[k] == x {
                seen = true;
            }
            k += 1;
        }
        let ghost prefix = s.subrange(0, j as int);
        proof {
            assert(seen == prefix.contains(x)) by {
                if seen {
                    let q = choose|q: int| 0 <= q < j && s[q] == x;
                    assert(prefix[q] == x);
                } else {
                    if prefix.contains(x) {
                        let q = choose|q: int| 0 <= q < prefix.len() && prefix[q] == x;
                        assert(s[q] == x);
                    }
                }
            }
            assert(seen == prefix.to_set().contains(x));
            assert(s.subrange(0, j + 1) =~= prefix.push(x));
            prefix.lemma_push_to_set_commute(x);
            vstd::seq_lib::seq_to_set_is_finite(prefix);
            vstd::set::axiom_set_insert_len(prefix.to_set(), x);
            assert(s.subrange(0, j + 1).to_set().len() == prefix.to_set().len() + (if prefix.to_set(
            ).contains(x) {
                0int
            } else {
                1int
            }));
        }
        if !seen {
            count += 1;
        }
        j += 1;
    }
    proof {
        assert(s.subrange(0, n as int) =~= s);
    }
    Ok(Distinct { count, total: n })
}

/// How many slots of a nullable column are empty.
pub open spec fn missing_count(s: Seq<Option<u64>>) -> nat
    decreases s.len(),
{
    if s.len() == 0 {
        0
    } else {
        missing_count(s.drop_last()) + if s.last() is None {
            1nat
        } else {
            0nat
        }
    }
}

/// Counts the missing slots of a nullable column: `count` empty slots out
/// of `total`. Always succeeds; this is the one statistic that only a
/// nullable representation carries, dense columns report none.
pub fn count_missing(feature_array: &Vec<Option<u64>>) -> (r: Result<Missing, ProfileError>)
    ensures
        r is Ok,
        r.unwrap().count == missing_count(feature_array@),
        r.unwrap().total == feature_array@.len(),
{
    let ghost s = feature_array@;
    let n = feature_array.len();
    let mut count: usize = 0;
    let mut j: usize = 0;
    while j < n
        invariant
            0 <= j <= n,
            n == s.len(),
            s == feature_array@,
            count <= j,
            count == missing_count(s.subrange(0, j as int)),
        decreases n - j,
    {
        proof {
            assert(s.subrange(0, j + 1) =~= s.subrange(0, j as int).push(s[j as int]));
            assert(s.subrange(0, j + 1).drop_last() =~= s.subrange(0, j as int));
        }
        if feature_array[j].is_none() {
            count += 1;
        }
        j += 1;
    }
    proof {
        assert(s.subrange(0, n as int) =~= s);
    }
    Ok(Missing { count, total: n })
}

/// How many values of a column are infinite, of either sign.
pub open spec fn infinite_count(s: Seq<u64>) -> nat
    decreases s.len(),
{
    if s.len() == 0 {
        0
    } else {
        infinite_count(s.drop_last()) + if is_inf_bits(s.last()) {
            1nat
        } else {
            0nat
        }
    }
}

/// Counts the infinite values of a column: `count` infinities out of
/// `total`, the exact infinity ratio being their quotient. Always
/// succeeds.
pub fn count_infinity(feature_array: &Vec<u64>) -> (r: Result<Infinity, ProfileError>)
    ensures
        r is Ok,
        r.unwrap().count == infinite_count(feature_array@),
        r.unwrap().total == feature_array@.len(),
{
    let ghost s = feature_array@;
    let n = feature_array.len();
    let mut count: usize = 0;
    let mut j: usize = 0;
    while j < n
        invariant
            0 <= j <= n,
            n == s.len(),
            s == feature_array@,
            count <= j,
            count == infinite_count(s.subrange(0, j as int)),
        decreases n - j,
    {
        proof {
            assert(s.subrange(0, j + 1) =~= s.subrange(0, j as int).push(s[j as int]));
            assert(s.subrange(0, j + 1).drop_last() =~= s.subrange(0, j as int));
        }
        if is_infinite_val(feature_array[j]) {
            count += 1;
        }
        j += 1;
    }
    proof {
        assert(s.subrange(0, n as int) =~= s);
    }
    Ok(Infinity { count, total: n })
}

/// What `compute_base_stats` promises of a non-empty column: the central
/// order statistics of the sorted column, the NaN-ignoring extremes, and
/// the distinct and infinity counts; a dense column has no missing
/// channel.
pub open spec fn stats_match(st: Stats, col: Seq<u64>) -> bool {
    &&& col.len() > 0
    &&& st.median_low == sorted_col(col)[(col.len() - 1) as int / 2]
    &&& st.median_high == sorted_col(col)[col.len() as int / 2]
    &&& st.min == fold_min(col)
    &&& st.max == fold_max(col)
    &&& st.distinct == (Distinct { count: col.to_set().len() as usize, total: col.len() as usize })
    &&& st.infinity == (Infinity {
        count: infinite_count(col) as usize,
        total: col.len() as usize,
    })
    &&& st.missing is None
}

/// Computes the descriptive statistics of one dense column. Fails with
/// `EmptyColumn` exactly when the column has no values.
pub fn compute_base_stats(feature_array: &Vec<u64>) -> (r: Result<Stats, ProfileError>)
    ensures
        match r {
            Ok(st) => stats_match(st, feature_array@),
            Err(e) => {
                &&& feature_array@.len() == 0
                &&& e.kind == ErrorKind::EmptyColumn
                &&& e.column_index is None
                &&& e.column_name is None
            },
        },
{
    let n = feature_array.len();
    if n == 0 {
        return Err(ProfileError::new(ErrorKind::EmptyColumn));
    }
    proof {
        lemma_sorted_col_len(feature_array@);
    }
    let sorted = sorted_values(feature_array);
    let median_low = sorted[(n - 1) / 2];
    let median_high = sorted[n / 2];
    let min = column_min(feature_array);
    let max = column_max(feature_array);
    let distinct = match count_distinct(feature_array) {
        Ok(d) => d,
        Err(e) => {
            return Err(e);
        },
    };
    let infinity = match count_infinity(feature_array) {
        Ok(f) => f,
        Err(e) => {
            return Err(e);
        },
    };
    Ok(Stats { median_low, median_high, min, max, distinct, infinity, missing: None })
}

/// The per-column NaN-ignoring minima of a matrix, in column order. Fails
/// with `EmptyColumn` exactly when the matrix has columns but no rows.
pub fn compute_min(array_data: &Matrix) -> (r: Result<Vec<u64>, ProfileError>)
    requires
        array_data.wf(),
    ensures
        match r {
            Ok(v) => {
                &&& v@.len() == array_data@.len()
                &&& forall|i: int| 0 <= i < v@.len() ==> v@[i] == fold_min(#[trigger] array_data@[i])
            },
            Err(e) => {
                &&& e.kind == ErrorKind::EmptyColumn
                &&& e.column_index is None
                &&& e.column_name is None
            },
        },
        r is Err <==> (array_data.spec_rows() == 0 && array_data@.len() > 0),
{
    let ncols = array_data.ncols();
    if array_data.nrows() == 0 && ncols > 0 {
        return Err(ProfileError::new(ErrorKind::EmptyColumn));
    }
    let mut out: Vec<u64> = Vec::new();
    let mut i: usize = 0;
    while i < ncols
        invariant
            0 <= i <= ncols,
            ncols == array_data@.len(),
            out@.len() == i,
            forall|t: int| 0 <= t < i ==> out@[t] == fold_min(#[trigger] array_data@[t]),
        decreases ncols - i,
    {
        out.push(column_min(array_data.column(i)));
        i += 1;
    }
    Ok(out)
}

/// The per-column NaN-ignoring maxima of a matrix, in column order. Fails
/// with `EmptyColumn` exactly when the matrix has columns but no rows.
pub fn compute_max(array_data: &Matrix) -> (r: Result<Vec<u64>, ProfileError>)
    requires
        array_data.wf(),
    ensures
        match r {
            Ok(v) => {
                &&& v@.len() == array_data@.len()
                &&& forall|i: int| 0 <= i < v@.len() ==> v@[i] == fold_max(#[trigger] array_data@[i])
            },
            Err(e) => {
                &&& e.kind == ErrorKind::EmptyColumn
                &&& e.column_index is None
                &&& e.column_name is None
            },
        },
        r is Err <==> (array_data.spec_rows() == 0 && array_data@.len() > 0),
{
    let ncols = array_data.ncols();
    if array_data.nrows() == 0 && ncols > 0 {
        return Err(ProfileError::new(ErrorKind::EmptyColumn));
    }
    let mut out: Vec<u64> = Vec::new();
    let mut i: usize = 0;
    while i < ncols
        invariant
            0 <= i <= ncols,
            ncols == array_data@.len(),
            out@.len() == i,
            forall|t: int| 0 <= t < i ==> out@[t] == fold_max(#[trigger] array_data@[t]),
        decreases ncols - i,
    {
        out.push(column_max(array_data.column(i)));
        i += 1;
    }
    Ok(out)
}

/// The views of a sequence of edge vectors.
pub open spec fn views_of(s: Seq<Vec<u64>>) -> Seq<Seq<u64>> {
    s.map_values(|v: Vec<u64>| v@)
}

/// What the matrix profiler promises of one output record: the column's
/// name, its histogram against the given edges under the assignment policy
/// of `crate::histogram::bin_of`, and its descriptive statistics.
pub open spec fn stat_matches(fs: FeatureStat, name: Seq<char>, col: Seq<u64>, edges: Seq<u64>) -> bool {
    &&& fs.name@ == name
    &&& fs.bins.bins@ == edges
    &&& fs.bins.bin_counts@.len() == edges.len()
    &&& (forall|k: int| 0 <= k < edges.len() ==> fs.bins.bin_counts@[k] == count_in_bin(col, edges, k))
    &&& stats_match(fs.stats, col)
}

/// What the matrix profiler promises of its whole output: one matching
/// record per column, in column order. Everything each record holds is a
/// function of the inputs alone, which is why two runs on equal inputs
/// agree bit for bit (`lemma_profile_functional`).
pub open spec fn profile_post(
    r: Seq<FeatureStat>,
    names: Seq<String>,
    cols: Seq<Seq<u64>>,
    edges: Seq<Seq<u64>>,
) -> bool {
    &&& r.len() == cols.len()
    &&& forall|i: int|
        0 <= i < cols.len() ==> stat_matches(#[trigger] r[i], names[i]@, cols[i], edges[i])
}

/// Profiles every column of a matrix against caller-supplied per-column
/// edge sets: one `FeatureStat` per column, in column order. Validation
/// failures at the matrix level — a name sequence or an edge-set sequence
/// whose length is not the column count — abort the call before any column
/// work, with `FeatureNameMismatch` checked first; a failure inside a
/// column's computation aborts the whole call and names that column.
pub fn compute_2d_array_stats(
    feature_names: &Vec<String>,
    array_data: &Matrix,
    bins: &Vec<Vec<u64>>,
) -> (r: Result<Vec<FeatureStat>, ProfileError>)
    requires
        array_data.wf(),
    ensures
        match r {
            Ok(v) => {
                &&& feature_names@.len() == array_data@.len()
                &&& bins@.len() == array_data@.len()
                &&& profile_post(v@, feature_names@, array_data@, views_of(bins@))
            },
            Err(e) => {
                &&& e.kind == ErrorKind::FeatureNameMismatch <==> feature_names@.len()
                    != array_data@.len()
                &&& e.kind == ErrorKind::BinSpecMismatch <==> (feature_names@.len()
                    == array_data@.len() && bins@.len() != array_data@.len())
                &&& e.kind == ErrorKind::EmptyEdgeSet ==> {
                    let i = e.column_index.unwrap() as int;
                    &&& feature_names@.len() == array_data@.len()
                    &&& bins@.len() == array_data@.len()
                    &&& e.column_index is Some
                    &&& 0 <= i < bins@.len()
                    &&& bins@[i]@.len() == 0
                    &&& (forall|j: int| 0 <= j < i ==> (#[trigger] bins@[j])@.len() > 0)
                    &&& (i > 0 ==> array_data.spec_rows() > 0)
                    &&& e.column_name is Some
                    &&& e.column_name.unwrap()@ == feature_names@[i]@
                }
                &&& e.kind == ErrorKind::EmptyColumn ==> {
                    &&& feature_names@.len() == array_data@.len()
                    &&& bins@.len() == array_data@.len()
                    &&& array_data.spec_rows() == 0
                    &&& array_data@.len() > 0
                    &&& e.column_index == Some(0usize)
                    &&& bins@[0]@.len() > 0
                    &&& e.column_name is Some
                    &&& e.column_name.unwrap()@ == feature_names@[0]@
                }
                &&& (e.kind == ErrorKind::FeatureNameMismatch || e.kind == ErrorKind::BinSpecMismatch
                    || e.kind == ErrorKind::EmptyEdgeSet || e.kind == ErrorKind::EmptyColumn)
            },
        },
        r is Err <==> (feature_names@.len() != array_data@.len() || bins@.len() != array_data@.len()
            || (array_data.spec_rows() == 0 && array_data@.len() > 0) || exists|i: int|
            0 <= i < bins@.len() && (#[trigger] bins@[i])@.len() == 0),
{
    let ncols = array_data.ncols();
    if feature_names.len() != ncols {
        return Err(ProfileError::new(ErrorKind::FeatureNameMismatch));
    }
    if bins.len() != ncols {
        return Err(ProfileError::new(ErrorKind::BinSpecMismatch));
    }
    let mut out: Vec<FeatureStat> = Vec::new();
    let mut i: usize = 0;
    while i < ncols
        invariant
            0 <= i <= ncols,
            ncols == array_data@.len(),
            feature_names@.len() == ncols,
            bins@.len() == ncols,
            array_data.wf(),
            out@.len() == i,
            forall|t: int| 0 <= t < i ==> (#[trigger] bins@[t])@.len() > 0,
            i > 0 ==> array_data.spec_rows() > 0,
            forall|t: int|
                0 <= t < i ==> stat_matches(
                    #[trigger] out@[t],
                    feature_names@[t]@,
                    array_data@[t],
                    bins@[t]@,
                ),
        decreases ncols - i,
    {
        let column = array_data.column(i);
        let edge_set = &bins[i];
        let counts = match crate::histogram::compute_bin_counts(column, edge_set) {
            Ok(c) => c,
            Err(_) => {
                return Err(ProfileError::in_column(
                    ErrorKind::EmptyEdgeSet,
                    i,
                    &feature_names[i],
                ));
            },
        };
        let base = match compute_base_stats(column) {
            Ok(st) => st,
            Err(_) => {
                return Err(ProfileError::in_column(ErrorKind::EmptyColumn, i, &feature_names[i]));
            },
        };
        let fs = FeatureStat {
            name: feature_names[i].clone(),
            bins: crate::types::Bin { bins: edge_set.clone(), bin_counts: counts },
            stats: base,
        };
        out.push(fs);
        i += 1;
    }
    Ok(out)
}

/// Holds a matrix and its feature names, and profiles them on demand.
/// Profiling is a pure function of the held data and the supplied bin
/// edges; the holder keeps no other state between calls.
pub struct DataProfiler {
    array_data: Matrix,
    feature_names: Vec<String>,
}

impl DataProfiler {
    #[verifier::type_invariant]
    spec fn inv(&self) -> bool {
        self.array_data.wf()
    }

    /// The held matrix, as the sequence of its columns.
    pub closed spec fn data(&self) -> Seq<Seq<u64>> {
        self.array_data@
    }

    /// The number of rows of the held matrix.
    pub closed spec fn data_rows(&self) -> usize {
        self.array_data.spec_rows()
    }

    /// The held feature names.
    pub closed spec fn names(&self) -> Seq<String> {
        self.feature_names@
    }

    pub fn new(array_data: Matrix, feature_names: Vec<String>) -> (r: DataProfiler)
        requires
            array_data.wf(),
        ensures
            r.data() == array_data@,
            r.data_rows() == array_data.spec_rows(),
            r.names() == feature_names@,
    {
        DataProfiler { array_data, feature_names }
    }

    /// The per-column extremes of the held matrix: the NaN-ignoring minima
    /// and maxima, in column order. Fails with `EmptyColumn` exactly when
    /// the matrix has columns but no rows.
    pub fn compute_profile(&self) -> (r: Result<(Vec<u64>, Vec<u64>), ProfileError>)
        ensures
            match r {
                Ok(p) => {
                    &&& p.0@.len() == self.data().len()
                    &&& p.1@.len() == self.data().len()
                    &&& forall|i: int|
                        0 <= i < self.data().len() ==> p.0@[i] == fold_min(#[trigger] self.data()[i])
                    &&& forall|i: int|
                        0 <= i < self.data().len() ==> p.1@[i] == fold_max(#[trigger] self.data()[i])
                },
                Err(e) => e.kind == ErrorKind::EmptyColumn,
            },
            r is Err <==> (self.data_rows() == 0 && self.data().len() > 0),
    {
        proof {
            use_type_invariant(&*self);
        }
        let mins = match compute_min(&self.array_data) {
            Ok(v) => v,
            Err(e) => {
                return Err(e);
            },
        };
        let maxes = match compute_max(&self.array_data) {
            Ok(v) => v,
            Err(e) => {
                return Err(e);
            },
        };
        Ok((mins, maxes))
    }

    /// Profiles the held matrix against the supplied names and per-column
    /// edge sets, as `compute_2d_array_stats` does.
    pub fn compute_2d_array_stats(&self, feature_names: &Vec<String>, bins: &Vec<Vec<u64>>) -> (r:
        Result<Vec<FeatureStat>, ProfileError>)
        ensures
            match r {
                Ok(v) => {
                    &&& feature_names@.len() == self.data().len()
                    &&& bins@.len() == self.data().len()
                    &&& profile_post(v@, feature_names@, self.data(), views_of(bins@))
                },
                Err(e) => e.kind == ErrorKind::FeatureNameMismatch || e.kind
                    == ErrorKind::BinSpecMismatch || e.kind == ErrorKind::EmptyEdgeSet || e.kind
                    == ErrorKind::EmptyColumn,
            },
            r is Err <==> (feature_names@.len() != self.data().len() || bins@.len()
                != self.data().len() || (self.data_rows() == 0 && self.data().len() > 0) || exists|
                i: int,
            | 0 <= i < bins@.len() && (#[trigger] bins@[i])@.len() == 0),
    {
        proof {
            use_type_invariant(&*self);
        }
        compute_2d_array_stats(feature_names, &self.array_data, bins)
    }
}

/// Two equal feature records, field for field, down to every edge, count
/// and statistic.
pub open spec fn feature_stat_equal(a: FeatureStat, b: FeatureStat) -> bool {
    &&& a.name@ == b.name@
    &&& a.bins.bins@ == b.bins.bins@
    &&& a.bins.bin_counts@ == b.bins.bin_counts@
    &&& a.stats == b.stats
}

/// The profiler is deterministic: everything `profile_post` states of a
/// record is a function of the inputs alone, so any two results the
/// profiler can return for the same matrix, names and edges are
/// bit-identical, whatever order or schedule produced them.
pub proof fn lemma_profile_functional(
    r1: Seq<FeatureStat>,
    r2: Seq<FeatureStat>,
    names: Seq<String>,
    cols: Seq<Seq<u64>>,
    edges: Seq<Seq<u64>>,
)
    requires
        profile_post(r1, names, cols, edges),
        profile_post(r2, names, cols, edges),
    ensures
        r1.len() == r2.len(),
        forall|i: int| 0 <= i < r1.len() ==> feature_stat_equal(#[trigger] r1[i], r2[i]),
{
    assert forall|i: int| 0 <= i < r1.len() implies feature_stat_equal(
        #[trigger] r1[i],
        r2[i],
    ) by {
        assert(stat_matches(r1[i], names[i]@, cols[i], edges[i]));
        assert(stat_matches(r2[i], names[i]@, cols[i], edges[i]));
        assert forall|k: int| 0 <= k < r1[i].bins.bin_counts@.len() implies r1[i].bins.bin_counts@[k]
            == r2[i].bins.bin_counts@[k] by {
            assert(r1[i].bins.bin_counts@[k] == count_in_bin(cols[i], edges[i], k));
            assert(r2[i].bins.bin_counts@[k] == count_in_bin(cols[i], edges[i], k));
        }
        assert(r1[i].bins.bin_counts@ =~= r2[i].bins.bin_counts@);
    }
}

} // verus!
