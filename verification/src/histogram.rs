//! Histogram computation: equal-width bin-edge derivation and per-bin
//! counting.
//!
//! The bin-assignment policy, per value `v` against `N` edges in edge
//! order: `v` belongs to an interior bin `i < N-1` exactly when
//! `edges[i] <= v < edges[i+1]`, and to the last bin exactly when
//! `v > edges[N-1]` — the last edge opens an unbounded tail bin, so values
//! above the nominal range are still captured when one data set's edges are
//! reused against another. The first matching bin wins. A value that
//! matches no bin — a NaN (`lemma_nan_never_counted`), a value below the
//! first edge (`lemma_below_minimum_not_counted`), or any value equal to
//! the edges of a zero-width, constant-column range
//! (`lemma_zero_width_counts_nothing`) — is counted nowhere.
//! `lemma_bin_counts_total` states exactly when the counts sum to the
//! column length, and `lemma_counts_sum_to_len` shows they do for every
//! column of non-NaN values lying properly inside strictly ascending
//! edges.
use crate::ieee::{
    eq_bits, fold_max, fold_min, gt_bits, is_nan_bits, le_bits, lt_bits, le_val, lt_val, max2_val,
    min2_val, NEG_INF_BITS, POS_INF_BITS,
};
use crate::matrix::Matrix;
use crate::types::{BinPlan, ErrorKind, FeatureBin, ProfileError};
use vstd::prelude::*;

verus! {

/// Whether value `v` belongs to bin `i` of `edges`, for `0 <= i < len`:
/// a half-open interval for interior bins, the open tail for the last.
pub open spec fn in_bin(v: u64, edges: Seq<u64>, i: int) -> bool {
    if i < edges.len() - 1 {
        le_bits(edges[i], v) && lt_bits(v, edges[i + 1])
    } else {
        gt_bits(v, edges[i])
    }
}

/// The first bin at or after `i` that `v` belongs to.
pub open spec fn first_bin_from(v: u64, edges: Seq<u64>, i: int) -> Option<int>
    decreases edges.len() - i,
{
    if i < 0 || i >= edges.len() {
        None
    } else if in_bin(v, edges, i) {
        Some(i)
    } else {
        first_bin_from(v, edges, i + 1)
    }
}

/// The bin that `v` is counted in, if any: the first bin it belongs to.
pub open spec fn bin_of(v: u64, edges: Seq<u64>) -> Option<int> {
    first_bin_from(v, edges, 0)
}

/// How many values of the column `s` are counted in bin `i`.
pub open spec fn count_in_bin(s: Seq<u64>, edges: Seq<u64>, i: int) -> nat
    decreases s.len(),
{
    if s.len() == 0 {
        0
    } else {
        count_in_bin(s.drop_last(), edges, i) + if bin_of(s.last(), edges) == Some(i) {
            1nat
        } else {
            0nat
        }
    }
}

/// The sum of the counts of bins `0 .. k`.
pub open spec fn sum_counts(s: Seq<u64>, edges: Seq<u64>, k: int) -> nat
    decreases k,
{
    if k <= 0 {
        0
    } else {
        sum_counts(s, edges, k - 1) + count_in_bin(s, edges, k - 1)
    }
}

/// How many values of the column are counted in some bin.
pub open spec fn assigned_count(s: Seq<u64>, edges: Seq<u64>) -> nat
    decreases s.len(),
{
    if s.len() == 0 {
        0
    } else {
        assigned_count(s.drop_last(), edges) + if bin_of(s.last(), edges) is Some {
            1nat
        } else {
            0nat
        }
    }
}

/// No bin of a column holds more values than the column.
pub proof fn lemma_count_in_bin_le_len(s: Seq<u64>, edges: Seq<u64>, i: int)
    ensures
        count_in_bin(s, edges, i) <= s.len(),
    decreases s.len(),
{
    if s.len() > 0 {
        lemma_count_in_bin_le_len(s.drop_last(), edges, i);
    }
}

/// Counting distributes over splitting the column: each value is assigned
/// by itself alone, so any partition of the work merges by per-bin
/// addition, and the merged counts do not depend on the split or on the
/// order the parts were counted in.
pub proof fn lemma_count_in_bin_concat(a: Seq<u64>, b: Seq<u64>, edges: Seq<u64>, i: int)
    ensures
        count_in_bin(a + b, edges, i) == count_in_bin(a, edges, i) + count_in_bin(b, edges, i),
    decreases b.len(),
{
    if b.len() == 0 {
        assert(a + b =~= a);
    } else {
        lemma_count_in_bin_concat(a, b.drop_last(), edges, i);
        assert((a + b).drop_last() =~= a + b.drop_last());
        assert((a + b).last() == b.last());
    }
}

/// A bin index returned by the assignment policy is a real bin.
proof fn lemma_first_bin_from_range(v: u64, edges: Seq<u64>, i: int)
    ensures
        first_bin_from(v, edges, i) is Some ==> i <= first_bin_from(v, edges, i).unwrap()
            < edges.len(),
    decreases edges.len() - i,
{
    if 0 <= i < edges.len() && !in_bin(v, edges, i) {
        lemma_first_bin_from_range(v, edges, i + 1);
    }
}

/// Every bin of an empty column is empty, so any partial sum is zero.
proof fn lemma_sum_counts_zero(s: Seq<u64>, edges: Seq<u64>, k: int)
    requires
        s.len() == 0,
    ensures
        sum_counts(s, edges, k) == 0,
    decreases k,
{
    if k > 0 {
        lemma_sum_counts_zero(s, edges, k - 1);
    }
}

/// Summing one more bin adds that bin's count; stated over a shortened
/// column to drive the induction of `lemma_sum_counts_is_assigned`.
proof fn lemma_sum_counts_drop(s: Seq<u64>, edges: Seq<u64>, k: int)
    requires
        s.len() > 0,
    ensures
        sum_counts(s, edges, k) == sum_counts(s.drop_last(), edges, k) + if {
            &&& bin_of(s.last(), edges) is Some
            &&& 0 <= bin_of(s.last(), edges).unwrap() < k
        } {
            1nat
        } else {
            0nat
        },
    decreases k,
{
    if k > 0 {
        lemma_sum_counts_drop(s, edges, k - 1);
    }
}

/// The bin counts of a column sum to the number of values the policy
/// assigns to some bin; that number never exceeds the column length, and
/// equals it exactly when every value is assigned. The unassigned values
/// are the NaN values, the values below the first edge, and — when the
/// edges span a zero-width range — the values equal to that range.
pub proof fn lemma_bin_counts_total(s: Seq<u64>, edges: Seq<u64>)
    ensures
        sum_counts(s, edges, edges.len() as int) == assigned_count(s, edges),
        assigned_count(s, edges) <= s.len(),
        (forall|j: int| 0 <= j < s.len() ==> bin_of(#[trigger] s[j], edges) is Some)
            ==> assigned_count(s, edges) == s.len(),
    decreases s.len(),
{
    if s.len() == 0 {
        lemma_sum_counts_zero(s, edges, edges.len() as int);
    } else {
        let x = s.last();
        let k = edges.len() as int;
        lemma_bin_counts_total(s.drop_last(), edges);
        lemma_sum_counts_drop(s, edges, k);
        lemma_first_bin_from_range(x, edges, 0);
        if bin_of(x, edges) is Some {
            assert(0 <= bin_of(x, edges).unwrap() < k);
            assert(sum_counts(s, edges, k) == sum_counts(s.drop_last(), edges, k) + 1);
            assert(assigned_count(s, edges) == assigned_count(s.drop_last(), edges) + 1);
        } else {
            assert(sum_counts(s, edges, k) == sum_counts(s.drop_last(), edges, k));
            assert(assigned_count(s, edges) == assigned_count(s.drop_last(), edges));
        }
        if forall|j: int| 0 <= j < s.len() ==> bin_of(#[trigger] s[j], edges) is Some {
            assert forall|j: int| 0 <= j < s.drop_last().len() implies bin_of(
                #[trigger] s.drop_last()[j],
                edges,
            ) is Some by {
                assert(s.drop_last()[j] == s[j]);
            }
            assert(bin_of(s[s.len() - 1], edges) is Some);
            assert(assigned_count(s.drop_last(), edges) == s.drop_last().len());
        }
    }
}

/// A value that belongs to no bin at or after `i` is assigned nowhere from
/// `i` on.
proof fn lemma_no_match_no_bin(v: u64, edges: Seq<u64>, i: int)
    requires
        forall|t: int| i <= t < edges.len() ==> !in_bin(v, edges, t),
    ensures
        first_bin_from(v, edges, i) is None,
    decreases edges.len() - i,
{
    if 0 <= i < edges.len() {
        lemma_no_match_no_bin(v, edges, i + 1);
    }
}

/// A value that belongs to some bin at or after `i` is assigned somewhere
/// from `i` on.
proof fn lemma_some_match_some_bin(v: u64, edges: Seq<u64>, i: int)
    requires
        0 <= i,
        exists|t: int| i <= t < edges.len() && in_bin(v, edges, t),
    ensures
        first_bin_from(v, edges, i) is Some,
    decreases edges.len() - i,
{
    let t = choose|t: int| i <= t < edges.len() && in_bin(v, edges, t);
    if !in_bin(v, edges, i) {
        assert(t > i);
        assert(i + 1 <= t < edges.len() && in_bin(v, edges, t));
        lemma_some_match_some_bin(v, edges, i + 1);
    }
}

/// A NaN value is counted in no bin: every comparison against an edge is
/// false.
pub proof fn lemma_nan_never_counted(v: u64, edges: Seq<u64>)
    requires
        is_nan_bits(v),
    ensures
        bin_of(v, edges) is None,
{
    lemma_no_match_no_bin(v, edges, 0);
}

/// A value below the first edge of an ascending edge sequence is counted
/// in no bin — the documented gap for data falling under a reused range.
pub proof fn lemma_below_minimum_not_counted(v: u64, edges: Seq<u64>)
    requires
        edges.len() > 0,
        forall|i: int, j: int|
            #![trigger edges[i], edges[j]]
            0 <= i < j < edges.len() ==> le_bits(edges[i], edges[j]),
        lt_bits(v, edges[0]),
    ensures
        bin_of(v, edges) is None,
{
    assert forall|t: int| 0 <= t < edges.len() implies !in_bin(v, edges, t) by {
        if t > 0 {
            assert(le_bits(edges[0], edges[t]));
        }
    }
    lemma_no_match_no_bin(v, edges, 0);
}

/// When every edge equals one value — the zero-width range of a constant
/// column — that value is counted in no bin: no interior interval is
/// non-empty and the tail is strict. This is the documented degenerate
/// case in which the counts sum to zero, not to the column length.
pub proof fn lemma_zero_width_counts_nothing(s: Seq<u64>, edges: Seq<u64>, e: u64)
    requires
        forall|i: int| 0 <= i < edges.len() ==> edges[i] == e,
        forall|j: int| 0 <= j < s.len() ==> s[j] == e,
    ensures
        forall|i: int| 0 <= i < edges.len() ==> count_in_bin(s, edges, i) == 0,
    decreases s.len(),
{
    if s.len() > 0 {
        lemma_zero_width_counts_nothing(s.drop_last(), edges, e);
        assert(forall|j: int| 0 <= j < s.len() - 1 ==> s.drop_last()[j] == s[j]);
        assert forall|t: int| 0 <= t < edges.len() implies !in_bin(e, edges, t) by {}
        lemma_no_match_no_bin(e, edges, 0);
        assert(s.last() == e);
        assert forall|i: int| 0 <= i < edges.len() implies count_in_bin(s, edges, i) == 0 by {
            assert(count_in_bin(s.drop_last(), edges, i) == 0);
            assert(bin_of(s.last(), edges) is None);
        }
    }
}

/// Below `edges.len() - 1`, a value at or above its edge but below the
/// next edge exists whenever the value sits between the first and last
/// edges of a strictly ascending sequence: walking up from `t`, the first
/// step past the value closes an interior bin around it.
proof fn lemma_interior_match_exists(v: u64, edges: Seq<u64>, t: int)
    requires
        forall|i: int, j: int|
            #![trigger edges[i], edges[j]]
            0 <= i < j < edges.len() ==> lt_bits(edges[i], edges[j]),
        0 <= t < edges.len() - 1,
        le_bits(edges[t], v),
        lt_bits(v, edges[edges.len() - 1]),
    ensures
        exists|i: int| 0 <= i < edges.len() && in_bin(v, edges, i),
    decreases edges.len() - t,
{
    if lt_bits(v, edges[t + 1]) {
        assert(in_bin(v, edges, t));
    } else {
        assert(lt_bits(edges[t], edges[t + 1]));
        assert(le_bits(edges[t + 1], v));
        if t + 1 == edges.len() - 1 {
            assert(false);
        } else {
            lemma_interior_match_exists(v, edges, t + 1);
        }
    }
}

/// The positive side of the counting policy: on strictly ascending edges,
/// every non-NaN value at or above the first edge is assigned to some bin,
/// unless it equals the last edge, whose tail is strict.
pub proof fn lemma_in_range_assigned(v: u64, edges: Seq<u64>)
    requires
        edges.len() > 0,
        forall|i: int, j: int|
            #![trigger edges[i], edges[j]]
            0 <= i < j < edges.len() ==> lt_bits(edges[i], edges[j]),
        !is_nan_bits(v),
        le_bits(edges[0], v),
        !eq_bits(v, edges[edges.len() - 1]),
    ensures
        bin_of(v, edges) is Some,
{
    let last = edges.len() - 1;
    if gt_bits(v, edges[last]) {
        assert(in_bin(v, edges, last));
    } else {
        assert(lt_bits(v, edges[last]));
        assert(edges.len() >= 2);
        lemma_interior_match_exists(v, edges, 0);
    }
    lemma_some_match_some_bin(v, edges, 0);
}

/// The counts of a column of non-NaN values lying at or above the first
/// edge and away from the last edge of a strictly ascending edge sequence
/// sum exactly to the column length: every value lands in exactly one bin.
pub proof fn lemma_counts_sum_to_len(s: Seq<u64>, edges: Seq<u64>)
    requires
        edges.len() > 0,
        forall|i: int, j: int|
            #![trigger edges[i], edges[j]]
            0 <= i < j < edges.len() ==> lt_bits(edges[i], edges[j]),
        forall|j: int|
            0 <= j < s.len() ==> {
                &&& !is_nan_bits(#[trigger] s[j])
                &&& le_bits(edges[0], s[j])
                &&& !eq_bits(s[j], edges[edges.len() - 1])
            },
    ensures
        sum_counts(s, edges, edges.len() as int) == s.len(),
{
    assert forall|j: int| 0 <= j < s.len() implies bin_of(#[trigger] s[j], edges) is Some by {
        lemma_in_range_assigned(s[j], edges);
    }
    lemma_bin_counts_total(s, edges);
}

/// Finds the bin of `v`, scanning the bins in edge order and taking the
/// first match, exactly as `bin_of` states.
fn find_bin(v: u64, edges: &Vec<u64>) -> (r: Option<usize>)
    requires
        edges@.len() > 0,
    ensures
        match r {
            Some(i) => bin_of(v, edges@) == Some(i as int),
            None => bin_of(v, edges@) is None,
        },
{
    let n = edges.len();
    let mut i: usize = 0;
    while i < n
        invariant
            0 <= i <= n,
            n == edges@.len(),
            bin_of(v, edges@) == first_bin_from(v, edges@, i as int),
        decreases n - i,
    {
        let hit = if i + 1 < n {
            le_val(edges[i], v) && lt_val(v, edges[i + 1])
        } else {
            lt_val(edges[i], v)
        };
        if hit {
            return Some(i);
        }
        i += 1;
    }
    None
}

/// The running NaN-ignoring minimum of a column, folded from positive
/// infinity: the smallest non-NaN value when one exists.
pub fn column_min(data: &Vec<u64>) -> (r: u64)
    ensures
        r == fold_min(data@),
{
    let mut acc = POS_INF_BITS;
    let mut j: usize = 0;
    while j < data.len()
        invariant
            0 <= j <= data@.len(),
            acc == fold_min(data@.subrange(0, j as int)),
        decreases data@.len() - j,
    {
        proof {
            assert(data@.subrange(0, j + 1) =~= data@.subrange(0, j as int).push(data@[j as int]));
            assert(data@.subrange(0, j + 1).drop_last() =~= data@.subrange(0, j as int));
        }
        acc = min2_val(acc, data[j]);
        j += 1;
    }
    proof {
        assert(data@.subrange(0, data@.len() as int) =~= data@);
    }
    acc
}

/// The running NaN-ignoring maximum of a column, folded from negative
/// infinity.
pub fn column_max(data: &Vec<u64>) -> (r: u64)
    ensures
        r == fold_max(data@),
{
    let mut acc = NEG_INF_BITS;
    let mut j: usize = 0;
    while j < data.len()
        invariant
            0 <= j <= data@.len(),
            acc == fold_max(data@.subrange(0, j as int)),
        decreases data@.len() - j,
    {
        proof {
            assert(data@.subrange(0, j + 1) =~= data@.subrange(0, j as int).push(data@[j as int]));
            assert(data@.subrange(0, j + 1).drop_last() =~= data@.subrange(0, j as int));
        }
        acc = max2_val(acc, data[j]);
        j += 1;
    }
    proof {
        assert(data@.subrange(0, data@.len() as int) =~= data@);
    }
    acc
}

/// Derives a column's equal-width bin plan: the observed minimum and
/// maximum of the column and the requested bin count, from which edge `i`
/// is `min + i * (max - min) / num_bins`. Fails with `EmptyColumn` on a
/// column of no values and with `InvalidBinCount` when zero bins are
/// requested.
pub fn compute_bins(data: &Vec<u64>, num_bins: u32) -> (r: Result<BinPlan, ProfileError>)
    ensures
        match r {
            Ok(p) => {
                &&& data@.len() > 0
                &&& num_bins > 0
                &&& p.min == fold_min(data@)
                &&& p.max == fold_max(data@)
                &&& p.num_bins == num_bins
            },
            Err(e) => {
                &&& (data@.len() == 0 || num_bins == 0)
                &&& e.kind == if data@.len() == 0 {
                    ErrorKind::EmptyColumn
                } else {
                    ErrorKind::InvalidBinCount
                }
                &&& e.column_index is None
                &&& e.column_name is None
            },
        },
{
    if data.len() == 0 {
        return Err(ProfileError::new(ErrorKind::EmptyColumn));
    }
    if num_bins == 0 {
        return Err(ProfileError::new(ErrorKind::InvalidBinCount));
    }
    let min = column_min(data);
    let max = column_max(data);
    Ok(BinPlan { min, max, num_bins })
}

/// Counts how many values of the column fall in each bin, under the
/// first-match policy of `bin_of`. Fails with `EmptyEdgeSet` when the edge
/// sequence is empty.
pub fn compute_bin_counts(data: &Vec<u64>, bins: &Vec<u64>) -> (r: Result<
    Vec<usize>,
    ProfileError,
>)
    ensures
        match r {
            Ok(c) => {
                &&& bins@.len() > 0
                &&& c@.len() == bins@.len()
                &&& forall|i: int| 0 <= i < c@.len() ==> c@[i] == count_in_bin(data@, bins@, i)
            },
            Err(e) => {
                &&& bins@.len() == 0
                &&& e.kind == ErrorKind::EmptyEdgeSet
                &&& e.column_index is None
                &&& e.column_name is None
            },
        },
{
    if bins.len() == 0 {
        return Err(ProfileError::new(ErrorKind::EmptyEdgeSet));
    }
    let n = bins.len();
    let mut counts: Vec<usize> = Vec::new();
    let mut i: usize = 0;
    while i < n
        invariant
            0 <= i <= n,
            counts@.len() == i,
            forall|k: int| 0 <= k < i ==> counts@[k] == 0,
        decreases n - i,
    {
        counts.push(0);
        i += 1;
    }
    let mut j: usize = 0;
    while j < data.len()
        invariant
            0 <= j <= data@.len(),
            n == bins@.len(),
            n > 0,
            counts@.len() == n,
            forall|k: int|
                0 <= k < n ==> counts@[k] == count_in_bin(data@.subrange(0, j as int), bins@, k),
        decreases data@.len() - j,
    {
        let ghost prefix = data@.subrange(0, j as int);
        let v = data[j];
        proof {
            assert(data@.subrange(0, j + 1) =~= prefix.push(v));
            assert(prefix.push(v).drop_last() =~= prefix);
            assert(prefix.push(v).last() == v);
        }
        match find_bin(v, bins) {
            Some(b) => {
                proof {
                    lemma_first_bin_from_range(v, bins@, 0);
                    lemma_count_in_bin_le_len(prefix, bins@, b as int);
                }
                let cur = counts[b];
                counts.set(b, cur + 1);
                assert forall|k: int| 0 <= k < n implies counts@[k] == count_in_bin(
                    data@.subrange(0, j + 1),
                    bins@,
                    k,
                ) by {
                    assert(count_in_bin(prefix.push(v), bins@, k) == count_in_bin(prefix, bins@, k)
                        + if bin_of(v, bins@) == Some(k) {
                        1nat
                    } else {
                        0nat
                    });
                }
            },
            None => {
                assert forall|k: int| 0 <= k < n implies counts@[k] == count_in_bin(
                    data@.subrange(0, j + 1),
                    bins@,
                    k,
                ) by {
                    assert(count_in_bin(prefix.push(v), bins@, k) == count_in_bin(prefix, bins@, k)
                        + if bin_of(v, bins@) == Some(k) {
                        1nat
                    } else {
                        0nat
                    });
                }
            },
        }
        j += 1;
    }
    proof {
        assert(data@.subrange(0, data@.len() as int) =~= data@);
    }
    Ok(counts)
}

/// What the histogram-only matrix pass promises of one output record:
/// the column's name, the edges it was counted against, and counts that
/// follow the assignment policy exactly.
pub open spec fn feature_bin_matches(
    fb: FeatureBin,
    name: Seq<char>,
    col: Seq<u64>,
    edges: Seq<u64>,
) -> bool {
    &&& fb.name@ == name
    &&& fb.bins@ == edges
    &&& fb.bin_counts@.len() == edges.len()
    &&& forall|k: int| 0 <= k < edges.len() ==> fb.bin_counts@[k] == count_in_bin(col, edges, k)
}

/// Computes one histogram per matrix column against the supplied per-column
/// edge sets, preserving column order. Fails with `FeatureNameMismatch` or
/// `BinSpecMismatch` before any column work when the name or edge-set
/// sequence does not have one entry per column, and with `EmptyEdgeSet`,
/// naming the first failing column, when a column's edge set is empty.
pub fn compute_bin_counts_from_2d_array(
    feature_names: &Vec<String>,
    array_data: &Matrix,
    bins: &Vec<Vec<u64>>,
) -> (r: Result<Vec<FeatureBin>, ProfileError>)
    requires
        array_data.wf(),
    ensures
        match r {
            Ok(v) => {
                &&& feature_names@.len() == array_data@.len()
                &&& bins@.len() == array_data@.len()
                &&& v@.len() == array_data@.len()
                &&& forall|i: int|
                    0 <= i < v@.len() ==> feature_bin_matches(
                        #[trigger] v@[i],
                        feature_names@[i]@,
                        array_data@[i],
                        bins@[i]@,
                    )
            },
            Err(e) => {
                &&& e.kind == ErrorKind::FeatureNameMismatch <==> feature_names@.len()
                    != array_data@.len()
                &&& e.kind == ErrorKind::BinSpecMismatch <==> (feature_names@.len()
                    == array_data@.len() && bins@.len() != array_data@.len())
                &&& e.kind == ErrorKind::EmptyEdgeSet ==> {
                    &&& feature_names@.len() == array_data@.len()
                    &&& bins@.len() == array_data@.len()
                    &&& e.column_index is Some
                    &&& {
                        let i = e.column_index.unwrap() as int;
                        &&& 0 <= i < bins@.len()
                        &&& bins@[i]@.len() == 0
                        &&& forall|j: int| 0 <= j < i ==> (#[trigger] bins@[j])@.len() > 0
                        &&& e.column_name is Some
                        &&& e.column_name.unwrap()@ == feature_names@[i]@
                    }
                }
                &&& (e.kind == ErrorKind::FeatureNameMismatch || e.kind == ErrorKind::BinSpecMismatch
                    || e.kind == ErrorKind::EmptyEdgeSet)
            },
        },
        r is Err <==> (feature_names@.len() != array_data@.len() || bins@.len() != array_data@.len()
            || exists|i: int| 0 <= i < bins@.len() && (#[trigger] bins@[i])@.len() == 0),
{
    let ncols = array_data.ncols();
    if feature_names.len() != ncols {
        return Err(ProfileError::new(ErrorKind::FeatureNameMismatch));
    }
    if bins.len() != ncols {
        return Err(ProfileError::new(ErrorKind::BinSpecMismatch));
    }
    let mut out: Vec<FeatureBin> = Vec::new();
    let mut i: usize = 0;
    while i < ncols
        invariant
            0 <= i <= ncols,
            ncols == array_data@.len(),
            feature_names@.len() == ncols,
            bins@.len() == ncols,
            out@.len() == i,
            forall|t: int| 0 <= t < i ==> (#[trigger] bins@[t])@.len() > 0,
            forall|t: int|
                0 <= t < i ==> feature_bin_matches(
                    #[trigger] out@[t],
                    feature_names@[t]@,
                    array_data@[t],
                    bins@[t]@,
                ),
        decreases ncols - i,
    {
        let column = array_data.column(i);
        let edge_set = &bins[i];
        match compute_bin_counts(column, edge_set) {
            Ok(counts) => {
                let fb = FeatureBin::new(feature_names[i].clone(), edge_set.clone(), counts);
                out.push(fb);
            },
            Err(_) => {
                return Err(ProfileError::in_column(
                    ErrorKind::EmptyEdgeSet,
                    i,
                    &feature_names[i],
                ));
            },
        }
        i += 1;
    }
    Ok(out)
}

} // verus!
