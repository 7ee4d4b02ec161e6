//! The matrix-level profiler: ordering, determinism, validation failures,
//! and the ported whole-matrix scenarios.
use rusty_data_profiler::histogram::compute_bins;
use rusty_data_profiler::matrix::Matrix;
use rusty_data_profiler::stats::{compute_2d_array_stats, DataProfiler};
use rusty_data_profiler::types::{BinPlan, ErrorKind, FeatureStat};

fn bits_of(xs: &[f64]) -> Vec<u64> {
    xs.iter().map(|x| x.to_bits()).collect()
}

fn edges_of_plan(plan: &BinPlan) -> Vec<f64> {
    let min = f64::from_bits(plan.min);
    let max = f64::from_bits(plan.max);
    let width = (max - min) / plan.num_bins as f64;
    (0..plan.num_bins).map(|i| min + width * i as f64).collect()
}

/// Auto-derives the default ten equal-width edges for every column, the
/// way the embedding resolves an unspecified bin specification.
fn default_bins(columns: &[Vec<u64>]) -> Vec<Vec<u64>> {
    columns
        .iter()
        .map(|c| bits_of(&edges_of_plan(&compute_bins(c, 10).unwrap())))
        .collect()
}

struct TestRng(u64);

impl TestRng {
    fn next_u64(&mut self) -> u64 {
        let mut x = self.0;
        x ^= x << 13;
        x ^= x >> 7;
        x ^= x << 17;
        self.0 = x;
        x
    }

    fn next_unit(&mut self) -> f64 {
        ((self.next_u64() >> 11) as f64 + 1.0) / (1u64 << 53) as f64
    }

    fn next_normal(&mut self) -> f64 {
        let u1 = self.next_unit();
        let u2 = self.next_unit();
        (-2.0 * u1.ln()).sqrt() * (2.0 * std::f64::consts::PI * u2).cos()
    }
}

fn assert_feature_stats_identical(a: &[FeatureStat], b: &[FeatureStat]) {
    assert_eq!(a.len(), b.len());
    for (x, y) in a.iter().zip(b.iter()) {
        assert_eq!(x.name, y.name);
        assert_eq!(x.bins.bins, y.bins.bins);
        assert_eq!(x.bins.bin_counts, y.bins.bin_counts);
        assert_eq!(x.stats.median_low, y.stats.median_low);
        assert_eq!(x.stats.median_high, y.stats.median_high);
        assert_eq!(x.stats.min, y.stats.min);
        assert_eq!(x.stats.max, y.stats.max);
        assert_eq!(x.stats.distinct, y.stats.distinct);
        assert_eq!(x.stats.infinity, y.stats.infinity);
        assert_eq!(x.stats.missing, y.stats.missing);
    }
}

#[test]
fn test_compute_2d_array() {
    // Three records over five features, one infinite value.
    let rows = [
        [1.0, 2.0, 3.0, 4.0, 5.0],
        [1.0, 2.0, 3.0, 4.0, 5.0],
        [1.0, f64::INFINITY, 3.0, 4.0, 5.0],
    ];
    let columns: Vec<Vec<u64>> = (0..5)
        .map(|c| rows.iter().map(|r| r[c].to_bits()).collect())
        .collect();
    let feature_names = vec![
        "a".to_string(),
        "b".to_string(),
        "c".to_string(),
        "d".to_string(),
        "e".to_string(),
    ];
    let matrix = Matrix::from_columns(columns.clone()).unwrap();
    let bins = default_bins(&columns);

    let features = compute_2d_array_stats(&feature_names, &matrix, &bins).unwrap();
    assert_eq!(features.len(), 5);
    assert_eq!(features[1].stats.infinity.count, 1);

    // A larger random matrix.
    let mut rng = TestRng(0x853c49e6748fea9b);
    let columns: Vec<Vec<u64>> = (0..10)
        .map(|_| (0..1_000).map(|_| rng.next_normal().to_bits()).collect())
        .collect();
    let feature_names: Vec<String> = (0..10).map(|x| x.to_string()).collect();
    let matrix = Matrix::from_columns(columns.clone()).unwrap();
    let bins = default_bins(&columns);
    let features = compute_2d_array_stats(&feature_names, &matrix, &bins).unwrap();
    assert_eq!(features.len(), 10);
}

#[test]
fn test_profile_is_idempotent() {
    let columns = vec![
        bits_of(&[1.0, 4.0, 2.5, -3.0, f64::NAN]),
        bits_of(&[0.0, -0.0, 5.0, f64::INFINITY, 1.0]),
    ];
    let names = vec!["left".to_string(), "right".to_string()];
    let matrix = Matrix::from_columns(columns.clone()).unwrap();
    let bins = default_bins(&columns);

    let first = compute_2d_array_stats(&names, &matrix, &bins).unwrap();
    let second = compute_2d_array_stats(&names, &matrix, &bins).unwrap();
    assert_feature_stats_identical(&first, &second);
}

#[test]
fn test_profile_preserves_column_order() {
    let columns = vec![
        bits_of(&[10.0, 20.0, 30.0]),
        bits_of(&[1.0, 2.0, 3.0]),
        bits_of(&[-5.0, 0.0, 5.0]),
    ];
    let names = vec!["A".to_string(), "B".to_string(), "C".to_string()];
    let matrix = Matrix::from_columns(columns).unwrap();
    let bins = vec![
        bits_of(&[10.0, 20.0]),
        bits_of(&[1.0, 2.0]),
        bits_of(&[-5.0, 0.0]),
    ];

    let features = compute_2d_array_stats(&names, &matrix, &bins).unwrap();
    let got: Vec<&str> = features.iter().map(|f| f.name.as_str()).collect();
    assert_eq!(got, vec!["A", "B", "C"]);
    assert_eq!(f64::from_bits(features[0].stats.min), 10.0);
    assert_eq!(f64::from_bits(features[1].stats.min), 1.0);
    assert_eq!(f64::from_bits(features[2].stats.min), -5.0);
}

#[test]
fn test_feature_name_mismatch() {
    // Three names supplied against a five-column matrix.
    let columns: Vec<Vec<u64>> = (0..5).map(|c| bits_of(&[c as f64, 1.0])).collect();
    let names = vec!["a".to_string(), "b".to_string(), "c".to_string()];
    let matrix = Matrix::from_columns(columns.clone()).unwrap();
    let bins = default_bins(&columns);

    let err = compute_2d_array_stats(&names, &matrix, &bins).unwrap_err();
    assert!(matches!(err.kind, ErrorKind::FeatureNameMismatch));
}

#[test]
fn test_bin_spec_mismatch() {
    let columns: Vec<Vec<u64>> = (0..3).map(|c| bits_of(&[c as f64, 1.0])).collect();
    let names = vec!["a".to_string(), "b".to_string(), "c".to_string()];
    let matrix = Matrix::from_columns(columns.clone()).unwrap();
    // Two edge sets against three columns.
    let bins = vec![bits_of(&[0.0, 1.0]), bits_of(&[0.0, 1.0])];

    let err = compute_2d_array_stats(&names, &matrix, &bins).unwrap_err();
    assert!(matches!(err.kind, ErrorKind::BinSpecMismatch));
}

#[test]
fn test_empty_matrix_column_names_failing_column() {
    let matrix = Matrix::from_columns(vec![Vec::new()]).unwrap();
    let names = vec!["only".to_string()];
    let bins = vec![bits_of(&[0.0, 1.0])];
    let err = compute_2d_array_stats(&names, &matrix, &bins).unwrap_err();
    assert!(matches!(err.kind, ErrorKind::EmptyColumn));
    assert_eq!(err.column_index, Some(0));
    assert_eq!(err.column_name.as_deref(), Some("only"));
}

#[test]
fn test_ragged_columns_make_no_matrix() {
    let columns = vec![bits_of(&[1.0, 2.0]), bits_of(&[1.0])];
    assert!(Matrix::from_columns(columns).is_none());
}

#[test]
fn test_data_profiler_extremes_and_stats() {
    let columns = vec![bits_of(&[3.0, 1.0, 2.0]), bits_of(&[-1.0, 0.5, 4.0])];
    let names = vec!["x".to_string(), "y".to_string()];
    let matrix = Matrix::from_columns(columns.clone()).unwrap();
    let profiler = DataProfiler::new(matrix, names.clone());

    let (mins, maxes) = profiler.compute_profile().unwrap();
    assert_eq!(mins, bits_of(&[1.0, -1.0]));
    assert_eq!(maxes, bits_of(&[3.0, 4.0]));

    let bins = default_bins(&columns);
    let features = profiler.compute_2d_array_stats(&names, &bins).unwrap();
    assert_eq!(features.len(), 2);
    assert_eq!(features[0].name, "x");
    assert_eq!(
        features[0].bins.bin_counts.iter().sum::<usize>(),
        3,
        "all three values land in some bin"
    );
}

#[test]
fn test_feature_bin_new_keeps_fields() {
    let fb = rusty_data_profiler::types::FeatureBin::new(
        "f".to_string(),
        bits_of(&[0.0, 1.0]),
        vec![2, 3],
    );
    assert_eq!(fb.name, "f");
    assert_eq!(fb.bins, bits_of(&[0.0, 1.0]));
    assert_eq!(fb.bin_counts, vec![2, 3]);
}
