//! Cross-validates the bit-pattern comparison and classification functions
//! against the host's own double-precision operators.
use rusty_data_profiler::ieee::{
    is_infinite_val, is_nan_val, le_val, lt_val, max2_val, min2_val, total_le_val, NEG_INF_BITS,
    POS_INF_BITS,
};

fn probe_values() -> Vec<f64> {
    vec![
        0.0,
        -0.0,
        1.0,
        -1.0,
        1.5,
        -1.5,
        0.5,
        -0.5,
        2.5e-308,
        -2.5e-308,
        5e-324,
        -5e-324,
        1e308,
        -1e308,
        f64::MAX,
        f64::MIN,
        f64::MIN_POSITIVE,
        f64::INFINITY,
        f64::NEG_INFINITY,
        f64::NAN,
        -f64::NAN,
        123.456,
        -123.456,
        1e16,
        1e-16,
    ]
}

#[test]
fn test_lt_le_match_host_comparisons() {
    let vals = probe_values();
    for &a in &vals {
        for &b in &vals {
            assert_eq!(lt_val(a.to_bits(), b.to_bits()), a < b, "lt {a} {b}");
            assert_eq!(le_val(a.to_bits(), b.to_bits()), a <= b, "le {a} {b}");
        }
    }
}

#[test]
fn test_total_le_matches_host_total_cmp() {
    let vals = probe_values();
    for &a in &vals {
        for &b in &vals {
            assert_eq!(
                total_le_val(a.to_bits(), b.to_bits()),
                a.total_cmp(&b).is_le(),
                "total_le {a} {b}"
            );
        }
    }
}

#[test]
fn test_classification_matches_host() {
    let vals = probe_values();
    for &a in &vals {
        assert_eq!(is_nan_val(a.to_bits()), a.is_nan(), "nan {a}");
        assert_eq!(is_infinite_val(a.to_bits()), a.is_infinite(), "inf {a}");
    }
    assert_eq!(POS_INF_BITS, f64::INFINITY.to_bits());
    assert_eq!(NEG_INF_BITS, f64::NEG_INFINITY.to_bits());
}

#[test]
fn test_min2_max2_fold_like_host_min_max() {
    let vals = probe_values();
    for &a in &vals {
        for &b in &vals {
            let m = f64::from_bits(min2_val(a.to_bits(), b.to_bits()));
            let host = a.min(b);
            // The host may return either zero on a min of the two zeroes;
            // compare as values, with NaN equal to NaN.
            assert!(m == host || (m.is_nan() && host.is_nan()), "min {a} {b}");
            let x = f64::from_bits(max2_val(a.to_bits(), b.to_bits()));
            let host = a.max(b);
            assert!(x == host || (x.is_nan() && host.is_nan()), "max {a} {b}");
        }
    }
}
