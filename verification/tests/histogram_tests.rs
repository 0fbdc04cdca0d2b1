//! The shared histogram: construction, observation, snapshots, timers.

use histogram::clock::coarse_elapsed_millis;
use histogram::histogram::{Histogram, HistogramOpts};

fn bits(v: &[f64]) -> Vec<u64> {
    v.iter().map(|x| x.to_bits()).collect()
}

#[test]
fn test_histogram() {
    let opts = HistogramOpts::new("test1".to_string(), "test help".to_string())
        .const_label("a".to_string(), "1".to_string())
        .const_label("b".to_string(), "2".to_string());
    let histogram = Histogram::with_opts(opts).unwrap();
    histogram.observe(1.0f64.to_bits());

    let timer = histogram.start_timer();
    timer.observe_duration();

    let timer = histogram.start_timer();
    drop(timer);

    assert_eq!(histogram.label_pairs_ref().len(), 2);
    let proto_histogram = histogram.proto();
    assert_eq!(proto_histogram.sample_count, 3);
    assert!(f64::from_bits(proto_histogram.sample_sum) >= 1.0);
    assert_eq!(proto_histogram.buckets.len(), 11);

    let buckets = vec![1.0, 2.0, 3.0];
    let opts = HistogramOpts::new("test2".to_string(), "test help".to_string())
        .buckets(bits(&buckets));
    let histogram = Histogram::with_opts(opts).unwrap();
    let proto_histogram = histogram.proto();
    assert_eq!(histogram.label_pairs_ref().len(), 0);
    assert_eq!(proto_histogram.sample_count, 0);
    assert!((f64::from_bits(proto_histogram.sample_sum) - 0.0) < f64::EPSILON);
    assert_eq!(proto_histogram.buckets.len(), buckets.len());
}

#[test]
fn test_histogram_coarse_timer() {
    let opts = HistogramOpts::new("test1".to_string(), "test help".to_string());
    let histogram = Histogram::with_opts(opts).unwrap();

    let timer = histogram.start_coarse_timer();
    timer.observe_duration();

    let timer = histogram.start_coarse_timer();
    drop(timer);

    histogram.observe_closure_duration(|| ());

    let proto_histogram = histogram.proto();
    assert_eq!(proto_histogram.sample_count, 3);
    assert!(f64::from_bits(proto_histogram.sample_sum) >= 0.0);
}

#[test]
fn test_observe_distribution() {
    // Each observation advances exactly one finite bucket (the least
    // admitting bound), or none, and always the totals.
    let opts = HistogramOpts::new("dist".to_string(), "help".to_string())
        .buckets(bits(&[1.0, 2.0, 5.0]));
    let histogram = Histogram::with_opts(opts).unwrap();
    for v in [0.5, 1.0, 1.5, 2.0, 4.0, 100.0, -3.0, f64::NAN] {
        histogram.observe(v.to_bits());
    }
    let proto = histogram.proto();
    assert_eq!(proto.sample_count, 8);
    // cumulative: <=1: {0.5, 1.0, -3.0}; <=2: + {1.5, 2.0}; <=5: + {4.0}
    let cums: Vec<u64> = proto.buckets.iter().map(|b| b.cumulative_count).collect();
    assert_eq!(cums, vec![3, 5, 6]);
    let bounds: Vec<f64> = proto.buckets.iter().map(|b| f64::from_bits(b.upper_bound)).collect();
    assert_eq!(bounds, vec![1.0, 2.0, 5.0]);
    // NaN and 100.0 went only to the unbounded bucket: cumulative stays
    // non-decreasing and below the total count.
    assert!(cums[2] <= proto.sample_count);
}

#[test]
fn test_reserved_label_rejected() {
    let opts = HistogramOpts::new("bad".to_string(), "help".to_string())
        .const_label("le".to_string(), "x".to_string());
    assert!(Histogram::with_opts(opts).is_err());

    let opts = HistogramOpts::new("bad2".to_string(), "help".to_string())
        .variable_label("le".to_string());
    assert!(Histogram::with_opts(opts).is_err());

    let opts = HistogramOpts::new("good".to_string(), "help".to_string())
        .const_label("len".to_string(), "x".to_string());
    assert!(Histogram::with_opts(opts).is_ok());
}

#[test]
fn test_fq_name() {
    let opts = HistogramOpts::new("req".to_string(), "help".to_string())
        .namespace("ns".to_string())
        .subsystem("sub".to_string());
    assert_eq!(opts.fq_name(), "ns_sub_req");
    let opts = HistogramOpts::new("req".to_string(), "help".to_string());
    assert_eq!(opts.fq_name(), "req");
}

#[test]
fn test_duration_to_seconds() {
    let tbls: Vec<(u64, f64)> = vec![(1000, 1.0), (1100, 1.1), (100_111, 100.111)];
    for (millis, seconds) in tbls {
        let d = std::time::Duration::from_millis(millis);
        let v = histogram::clock::duration_to_seconds(d.as_secs(), d.subsec_nanos());
        assert!((f64::from_bits(v) - seconds).abs() < f64::EPSILON);
    }
}

#[test]
fn test_coarse_elapsed_millis() {
    assert_eq!(coarse_elapsed_millis(2, 500_000_000, 1, 250_000_000), 1250);
    assert_eq!(coarse_elapsed_millis(1, 0, 2, 0), 0);
    assert_eq!(coarse_elapsed_millis(5, 999_999, 5, 0), 0);
    assert_eq!(coarse_elapsed_millis(5, 1_000_000, 5, 0), 1);
}

#[test]
fn test_bounds_leaving_no_bucket_rejected() {
    // A bound list that would leave no finite bucket after the
    // implicit-upper-bound marker is dropped is a configuration error.
    let opts = HistogramOpts::new("emptyb".to_string(), "help".to_string())
        .buckets(vec![f64::INFINITY.to_bits()]);
    assert!(Histogram::with_opts(opts).is_err());
}
