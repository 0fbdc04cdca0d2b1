//! Scoped timers: explicit consumption, discard, and auto-record on
//! drop, against both shared histograms and local buffers.

use histogram::histogram::{Histogram, HistogramOpts};

#[test]
fn test_timer_discard_records_nothing() {
    let histogram =
        Histogram::with_opts(HistogramOpts::new("t".to_string(), "help".to_string())).unwrap();
    let timer = histogram.start_timer();
    let elapsed = timer.stop_and_discard();
    assert!(f64::from_bits(elapsed) >= 0.0);
    assert_eq!(histogram.get_sample_count(), 0);
    assert_eq!(f64::from_bits(histogram.get_sample_sum()), 0.0);
}

#[test]
fn test_timer_drop_records_once() {
    let histogram =
        Histogram::with_opts(HistogramOpts::new("t".to_string(), "help".to_string())).unwrap();
    {
        let _timer = histogram.start_timer();
    }
    assert_eq!(histogram.get_sample_count(), 1);
    assert!(f64::from_bits(histogram.get_sample_sum()) >= 0.0);
}

#[test]
fn test_timer_no_double_record() {
    let histogram =
        Histogram::with_opts(HistogramOpts::new("t".to_string(), "help".to_string())).unwrap();
    {
        let timer = histogram.start_timer();
        let elapsed = timer.stop_and_record();
        assert!(f64::from_bits(elapsed) >= 0.0);
        // The timer was consumed; leaving the scope must not record a
        // second observation.
    }
    assert_eq!(histogram.get_sample_count(), 1);
}

#[test]
fn test_local_timer_discard_and_drop() {
    let histogram =
        Histogram::with_opts(HistogramOpts::new("t".to_string(), "help".to_string())).unwrap();
    let local = histogram.local();

    let timer = local.start_timer();
    let elapsed = timer.stop_and_discard();
    assert!(f64::from_bits(elapsed) >= 0.0);
    assert_eq!(histogram.get_sample_count(), 0);

    {
        let _timer = local.start_timer();
    }
    // The timer recorded into a fresh buffer which flushed when the
    // timer went out of scope.
    assert_eq!(histogram.get_sample_count(), 1);

    let timer = local.start_timer();
    timer.observe_duration();
    assert_eq!(histogram.get_sample_count(), 2);
}

#[test]
fn test_local_closure_duration() {
    let histogram =
        Histogram::with_opts(HistogramOpts::new("t".to_string(), "help".to_string())).unwrap();
    let mut local = histogram.local();
    let out = local.observe_closure_duration(|| 7u32);
    assert_eq!(out, 7);
    assert_eq!(local.get_sample_count(), 1);
    assert_eq!(histogram.get_sample_count(), 0);
    local.flush();
    assert_eq!(histogram.get_sample_count(), 1);
}
