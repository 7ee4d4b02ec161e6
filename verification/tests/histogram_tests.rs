//! Histogram derivation and bin counting, on ported data sets and on the
//! documented edge cases: the open tail bin, values below the first edge,
//! and the zero-width constant-column range.
use rusty_data_profiler::histogram::{
    compute_bin_counts, compute_bin_counts_from_2d_array, compute_bins,
};
use rusty_data_profiler::matrix::Matrix;
use rusty_data_profiler::types::{BinPlan, ErrorKind};

fn bits_of(xs: &[f64]) -> Vec<u64> {
    xs.iter().map(|x| x.to_bits()).collect()
}

/// Equal-width edges materialized from a plan: `min + width * i`, the
/// double-precision computation the embedding performs.
fn edges_of_plan(plan: &BinPlan) -> Vec<f64> {
    let min = f64::from_bits(plan.min);
    let max = f64::from_bits(plan.max);
    let width = (max - min) / plan.num_bins as f64;
    (0..plan.num_bins).map(|i| min + width * i as f64).collect()
}

/// A deterministic xorshift generator, turned into standard normal samples
/// by the Box-Muller transform.
struct TestRng(u64);

impl TestRng {
    fn next_u64(&mut self) -> u64 {
        let mut x = self.0;
        x ^= x << 13;
        x ^= x >> 7;
        x ^= x << 17;
        self.0 = x;
        x
    }

    fn next_unit(&mut self) -> f64 {
        ((self.next_u64() >> 11) as f64 + 1.0) / (1u64 << 53) as f64
    }

    fn next_normal(&mut self) -> f64 {
        let u1 = self.next_unit();
        let u2 = self.next_unit();
        (-2.0 * u1.ln()).sqrt() * (2.0 * std::f64::consts::PI * u2).cos()
    }
}

#[test]
fn test_compute_bins() {
    let mut rng = TestRng(0x9e3779b97f4a7c15);
    let test_array: Vec<f64> = (0..10_000).map(|_| rng.next_normal()).collect();
    let data = bits_of(&test_array);

    let plan = compute_bins(&data, 10).unwrap();
    let bins = bits_of(&edges_of_plan(&plan));

    let counts = compute_bin_counts(&data, &bins).unwrap();
    assert_eq!(10000, counts.iter().sum::<usize>());
}

#[test]
fn test_compute_bin_counts_from_2d_array() {
    let num_features = 30;
    let num_records = 100_000;
    let num_bins = 10;
    let mut rng = TestRng(0x2545f4914f6cdd1d);
    let columns: Vec<Vec<u64>> = (0..num_features)
        .map(|_| (0..num_records).map(|_| rng.next_normal().to_bits()).collect())
        .collect();
    let feature_names: Vec<String> = (0..num_features).map(|i| format!("feature{}", i)).collect();
    let test_array = Matrix::from_columns(columns.clone()).unwrap();

    // Auto-derived edges: one plan per column, materialized in the test the
    // way the embedding does it.
    let per_column_bins: Vec<Vec<u64>> = columns
        .iter()
        .map(|c| bits_of(&edges_of_plan(&compute_bins(c, num_bins).unwrap())))
        .collect();
    let feature_bins =
        compute_bin_counts_from_2d_array(&feature_names, &test_array, &per_column_bins).unwrap();
    assert_eq!(feature_bins.len(), num_features);

    // Reusing the first column's edges against every column.
    let shared: Vec<Vec<u64>> = (0..num_features).map(|_| feature_bins[0].bins.clone()).collect();
    let feature_bins_with_bins =
        compute_bin_counts_from_2d_array(&feature_names, &test_array, &shared).unwrap();
    assert_eq!(feature_bins_with_bins.len(), num_features);
}

#[test]
fn test_ten_values_ten_bins_unit_counts() {
    let column: Vec<f64> = (1..=10).map(|v| v as f64).collect();
    let data = bits_of(&column);
    let plan = compute_bins(&data, 10).unwrap();
    assert_eq!(plan.min, 1.0f64.to_bits());
    assert_eq!(plan.max, 10.0f64.to_bits());
    assert_eq!(plan.num_bins, 10);

    let edges = edges_of_plan(&plan);
    assert_eq!(edges.len(), 10);
    assert_eq!(edges[0], 1.0);
    let width = edges[1] - edges[0];
    assert!((width - 0.9).abs() < 1e-12);

    let counts = compute_bin_counts(&data, &bits_of(&edges)).unwrap();
    assert_eq!(counts, vec![1usize; 10]);
    assert_eq!(counts.iter().sum::<usize>(), 10);
}

#[test]
fn test_constant_column_zero_width_counts_nothing() {
    let data = bits_of(&[5.0, 5.0, 5.0, 5.0, 5.0]);
    for num_bins in [1u32, 4, 10] {
        let plan = compute_bins(&data, num_bins).unwrap();
        assert_eq!(plan.min, 5.0f64.to_bits());
        assert_eq!(plan.max, 5.0f64.to_bits());
        let edges = edges_of_plan(&plan);
        assert!(edges.iter().all(|&e| e == 5.0));
        // Documented degenerate behavior: every edge equals the value, no
        // interior interval is half-open non-empty and the tail is strict,
        // so nothing is counted.
        let counts = compute_bin_counts(&data, &bits_of(&edges)).unwrap();
        assert_eq!(counts.iter().sum::<usize>(), 0);
    }
}

#[test]
fn test_below_minimum_values_are_not_counted() {
    // Edges derived from one range, reused against data below it.
    let edges = bits_of(&[5.0, 6.0, 7.0]);
    let data = bits_of(&[1.0, 4.9, 5.0, 5.5, 6.0, 7.0, 7.5, 100.0]);
    let counts = compute_bin_counts(&data, &edges).unwrap();
    // 1.0 and 4.9 fall below the first edge; 7.0 equals the last edge and
    // the tail is strict; the rest land.
    assert_eq!(counts, vec![2, 1, 2]);
    assert_eq!(counts.iter().sum::<usize>(), 5);
}

#[test]
fn test_infinities_and_nan_in_bins() {
    let edges = bits_of(&[0.0, 1.0, 2.0]);
    let data = vec![
        0.5f64.to_bits(),
        f64::INFINITY.to_bits(),
        f64::NEG_INFINITY.to_bits(),
        f64::NAN.to_bits(),
        3.0f64.to_bits(),
    ];
    let counts = compute_bin_counts(&data, &edges).unwrap();
    // The positive infinity and 3.0 land in the open tail; the negative
    // infinity is below the first edge and the NaN matches nothing.
    assert_eq!(counts, vec![1, 0, 2]);
}

#[test]
fn test_compute_bins_empty_column_fails() {
    let data: Vec<u64> = Vec::new();
    let err = compute_bins(&data, 10).unwrap_err();
    assert!(matches!(err.kind, ErrorKind::EmptyColumn));
}

#[test]
fn test_compute_bins_zero_bins_fails() {
    let data = bits_of(&[1.0, 2.0]);
    let err = compute_bins(&data, 0).unwrap_err();
    assert!(matches!(err.kind, ErrorKind::InvalidBinCount));
}

#[test]
fn test_compute_bin_counts_empty_edges_fails() {
    let data = bits_of(&[1.0, 2.0]);
    let edges: Vec<u64> = Vec::new();
    let err = compute_bin_counts(&data, &edges).unwrap_err();
    assert!(matches!(err.kind, ErrorKind::EmptyEdgeSet));
}

#[test]
fn test_bin_counts_2d_empty_edge_set_names_column() {
    let columns = vec![bits_of(&[1.0, 2.0]), bits_of(&[3.0, 4.0])];
    let names = vec!["a".to_string(), "b".to_string()];
    let matrix = Matrix::from_columns(columns).unwrap();
    let bins = vec![bits_of(&[1.0, 2.0]), Vec::new()];
    let err = compute_bin_counts_from_2d_array(&names, &matrix, &bins).unwrap_err();
    assert!(matches!(err.kind, ErrorKind::EmptyEdgeSet));
    assert_eq!(err.column_index, Some(1));
    assert_eq!(err.column_name.as_deref(), Some("b"));
}
