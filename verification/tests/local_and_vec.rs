//! Local buffers (batching, flush, clear, auto-flush on drop) and the
//! label-keyed partitions.

use histogram::histogram::{Histogram, HistogramOpts};
use histogram::vec::HistogramVec;

fn bits(v: &[f64]) -> Vec<u64> {
    v.iter().map(|x| x.to_bits()).collect()
}

fn check(histogram: &Histogram, count: u64, sum: f64) {
    let proto = histogram.proto();
    assert_eq!(proto.sample_count, count);
    assert!((f64::from_bits(proto.sample_sum) - sum) < f64::EPSILON);
}

#[test]
fn test_histogram_local() {
    let buckets = vec![1.0, 2.0, 3.0];
    let opts = HistogramOpts::new(
        "test_histogram_local".to_string(),
        "test histogram local help".to_string(),
    )
    .buckets(bits(&buckets));
    let histogram = Histogram::with_opts(opts).unwrap();
    let mut local = histogram.local();

    local.observe(1.0f64.to_bits());
    local.observe(4.0f64.to_bits());
    check(&histogram, 0, 0.0);

    local.flush();
    check(&histogram, 2, 5.0);

    local.observe(2.0f64.to_bits());
    local.clear();
    check(&histogram, 2, 5.0);

    local.observe(2.0f64.to_bits());
    drop(local);
    check(&histogram, 3, 7.0);
}

#[test]
fn test_local_sample_accessors() {
    let histogram = Histogram::with_opts(HistogramOpts::new(
        "acc".to_string(),
        "help".to_string(),
    ))
    .unwrap();
    let mut local = histogram.local();
    assert_eq!(local.get_sample_count(), 0);
    local.observe(1.0f64.to_bits());
    local.observe(4.0f64.to_bits());
    assert_eq!(local.get_sample_count(), 2);
    assert_eq!(f64::from_bits(local.get_sample_sum()), 5.0);
    // Nothing merged yet.
    assert_eq!(histogram.get_sample_count(), 0);
    local.flush();
    assert_eq!(histogram.get_sample_count(), 2);
    assert_eq!(f64::from_bits(histogram.get_sample_sum()), 5.0);
    // Flush with nothing pending is a no-op.
    local.flush();
    assert_eq!(histogram.get_sample_count(), 2);
}

#[test]
fn test_histogram_vec_with_label_values() {
    let mut vec = HistogramVec::new(
        HistogramOpts::new(
            "test_histogram_vec".to_string(),
            "test histogram vec help".to_string(),
        ),
        &["l1", "l2"],
    )
    .unwrap();

    assert!(vec.remove_label_values(&["v1", "v2"]).is_err());
    vec.with_label_values(&["v1", "v2"]).observe(1.0f64.to_bits());
    assert!(vec.remove_label_values(&["v1", "v2"]).is_ok());

    assert!(vec.remove_label_values(&["v1"]).is_err());
    assert!(vec.remove_label_values(&["v1", "v3"]).is_err());
}

#[test]
fn test_histogram_vec_with_opts_buckets() {
    let labels = ["l1", "l2"];
    let buckets = vec![1.0, 2.0, 3.0];
    let mut vec = HistogramVec::new(
        HistogramOpts::new(
            "test_histogram_vec".to_string(),
            "test histogram vec help".to_string(),
        )
        .buckets(bits(&buckets)),
        &labels,
    )
    .unwrap();

    let histogram = vec.with_label_values(&["v1", "v2"]);
    histogram.observe(1.0f64.to_bits());

    assert_eq!(histogram.label_pairs_ref().len(), labels.len());

    let proto_histogram = histogram.proto();
    assert_eq!(proto_histogram.sample_count, 1);
    assert!((f64::from_bits(proto_histogram.sample_sum) - 1.0) < f64::EPSILON);
    assert_eq!(proto_histogram.buckets.len(), buckets.len());
}

#[test]
fn test_partition_reset_on_remove() {
    let mut vec = HistogramVec::new(
        HistogramOpts::new("partition".to_string(), "help".to_string()),
        &["l1", "l2"],
    )
    .unwrap();

    vec.with_label_values(&["v1", "v2"]).observe(1.0f64.to_bits());
    assert_eq!(vec.with_label_values(&["v1", "v2"]).get_sample_count(), 1);

    vec.remove_label_values(&["v1", "v2"]).unwrap();
    // A fresh child: its count starts at zero again.
    assert_eq!(vec.with_label_values(&["v1", "v2"]).get_sample_count(), 0);

    // Removal of a combination never created fails; wrong arity fails.
    assert!(vec.remove_label_values(&["x", "y"]).is_err());
    assert!(vec.remove_label_values(&["x"]).is_err());
}

#[test]
fn test_histogram_vec_local() {
    let vec = HistogramVec::new(
        HistogramOpts::new(
            "test_histogram_vec_local".to_string(),
            "test histogram vec help".to_string(),
        ),
        &["l1", "l2"],
    )
    .unwrap();
    let mut local_vec = vec.local();

    local_vec.remove_label_values(&["v1", "v2"]).unwrap_err();

    {
        // Flush a single local buffer.
        let h = local_vec.with_label_values(&["v1", "v2"]);
        let shared = h.histogram_handle();
        h.observe(1.0f64.to_bits());
        h.flush();
        check(&shared, 1, 1.0);
    }

    {
        // Flush through the whole local partition.
        let shared = local_vec.with_label_values(&["v1", "v2"]).histogram_handle();
        local_vec.with_label_values(&["v1", "v2"]).observe(4.0f64.to_bits());
        local_vec.flush();
        check(&shared, 2, 5.0);
    }
    {
        // Removing the combination resets it; dropping the local
        // partition flushes the pending observation.
        local_vec.remove_label_values(&["v1", "v2"]).unwrap();

        let shared = local_vec.with_label_values(&["v1", "v2"]).histogram_handle();
        local_vec.with_label_values(&["v1", "v2"]).observe(2.0f64.to_bits());
        drop(local_vec);
        check(&shared, 1, 2.0);
    }
}

#[test]
fn test_remove_wrong_arity_keeps_cache() {
    let vec = HistogramVec::new(
        HistogramOpts::new("keepcache".to_string(), "help".to_string()),
        &["l1", "l2"],
    )
    .unwrap();
    let mut local_vec = vec.local();

    local_vec.with_label_values(&["v1", "v2"]).observe(1.0f64.to_bits());
    // A wrong-arity tuple errors before anything is touched: the cached
    // buffer keeps its pending observation.
    assert!(local_vec.remove_label_values(&["v1"]).is_err());
    assert_eq!(local_vec.with_label_values(&["v1", "v2"]).get_sample_count(), 1);
}
