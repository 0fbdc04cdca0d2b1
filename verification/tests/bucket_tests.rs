//! Bucket validation and the bound generators.

use histogram::buckets::{check_and_adjust_buckets, check_bucket_label, default_buckets,
    exponential_buckets, linear_buckets};

fn bits(v: &[f64]) -> Vec<u64> {
    v.iter().map(|x| x.to_bits()).collect()
}

fn floats(v: &[u64]) -> Vec<f64> {
    v.iter().map(|x| f64::from_bits(*x)).collect()
}

#[test]
fn test_buckets_invalidation() {
    let table: Vec<(Vec<f64>, bool, usize)> = vec![
        (vec![], true, 11),
        (vec![-2.0, -1.0, -0.5, 0.0, 0.5, 1.0, 2.0], true, 7),
        (vec![-2.0, -1.0, -0.5, 10.0, 0.5, 1.0, 2.0], false, 7),
        (vec![-2.0, -1.0, -0.5, 0.0, 0.5, 1.0, f64::INFINITY], true, 6),
    ];

    for (buckets, is_ok, length) in table {
        let got = check_and_adjust_buckets(bits(&buckets));
        assert_eq!(got.is_ok(), is_ok);
        if is_ok {
            assert_eq!(got.unwrap().len(), length);
        }
    }
}

#[test]
fn test_buckets_functions() {
    let linear_table: Vec<(f64, f64, usize, bool, Vec<f64>)> = vec![
        (-15.0, 5.0, 6, true, vec![-15.0, -10.0, -5.0, 0.0, 5.0, 10.0]),
        (-15.0, 0.0, 6, false, vec![]),
        (-15.0, 5.0, 0, false, vec![]),
    ];

    for (param1, param2, param3, is_ok, expected) in linear_table {
        let got = linear_buckets(param1.to_bits(), param2.to_bits(), param3);
        assert_eq!(got.is_ok(), is_ok);
        if got.is_ok() {
            assert_eq!(floats(&got.unwrap()), expected);
        }
    }

    let exponential_table: Vec<(f64, f64, usize, bool, Vec<f64>)> = vec![
        (100.0, 1.2, 3, true, vec![100.0, 120.0, 144.0]),
        (100.0, 0.5, 3, false, vec![]),
        (100.0, 1.2, 0, false, vec![]),
    ];

    for (param1, param2, param3, is_ok, expected) in exponential_table {
        let got = exponential_buckets(param1.to_bits(), param2.to_bits(), param3);
        assert_eq!(got.is_ok(), is_ok);
        if got.is_ok() {
            assert_eq!(floats(&got.unwrap()), expected);
        }
    }
}

#[test]
fn test_generator_error_cases() {
    assert!(linear_buckets(0.0f64.to_bits(), (-1.0f64).to_bits(), 4).is_err());
    assert!(linear_buckets(0.0f64.to_bits(), (-0.0f64).to_bits(), 4).is_err());
    assert!(exponential_buckets((-3.0f64).to_bits(), 2.0f64.to_bits(), 4).is_err());
    assert!(exponential_buckets(0.0f64.to_bits(), 2.0f64.to_bits(), 4).is_err());
    assert!(exponential_buckets(3.0f64.to_bits(), 1.0f64.to_bits(), 4).is_err());
}

#[test]
fn test_default_buckets_values() {
    let expected: Vec<f64> = vec![0.005, 0.01, 0.025, 0.05, 0.1, 0.25, 0.5, 1.0, 2.5, 5.0, 10.0];
    assert_eq!(floats(&default_buckets()), expected);
}

#[test]
fn test_reserved_bucket_label() {
    assert!(check_bucket_label("le").is_err());
    assert!(check_bucket_label("get").is_ok());
    assert!(check_bucket_label("").is_ok());
}

#[test]
fn test_only_infinity_bucket_rejected() {
    // A list holding only the implicit-upper-bound marker would leave
    // no finite bucket at all: a bucket set needs at least one bound.
    assert!(check_and_adjust_buckets(bits(&[f64::INFINITY])).is_err());
    // With a finite bound in front, the trailing marker is dropped.
    let got = check_and_adjust_buckets(bits(&[1.0, f64::INFINITY])).unwrap();
    assert_eq!(got.len(), 1);
}

#[test]
fn test_nan_bound_rejected() {
    // No IEEE comparison orders a NaN, so a NaN bound can never stand
    // in a strictly increasing list: it is a configuration error.
    assert!(check_and_adjust_buckets(bits(&[f64::NAN])).is_err());
    assert!(check_and_adjust_buckets(bits(&[1.0, f64::NAN, 3.0])).is_err());

    let opts = histogram::histogram::HistogramOpts::new("nan".to_string(), "help".to_string())
        .buckets(bits(&[f64::NAN]));
    assert!(histogram::histogram::Histogram::with_opts(opts).is_err());
}
