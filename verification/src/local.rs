//! Thread-confined local buffers: a plain, non-atomic mirror of one
//! histogram's bucket counts, total count and total sum, merged into the
//! shared state only on an explicit or scope-exit flush.

use vstd::prelude::*;

use crate::binary64::{add_bits, POS_ZERO};
use crate::buckets::{
    bucket_index, find_bucket, lemma_seq_sum_nonneg, lemma_seq_sum_update, lemma_seq_sum_zero,
    sat_add, seq_sum,
};
use crate::clock::elapsed_seconds;
use crate::histogram::Histogram;

verus! {

/// The data of a local buffer: per-bucket deltas, a count delta and a
/// sum delta (a binary64 bit pattern), all plain values owned by one
/// execution context, plus the handle to the backing shared histogram.
pub struct LocalHistogramCore {
    histogram: Histogram,
    counts: Vec<u64>,
    count: u64,
    sum: u64,
}

impl LocalHistogramCore {
    /// Well-formedness: the buffer mirrors its histogram's buckets, and
    /// the bucket deltas never account for more than the count delta.
    pub closed spec fn wf(self) -> bool {
        &&& self.counts@.len() == self.histogram.spec_bounds().len()
        &&& (seq_sum(self.counts@) <= self.count || self.count == u64::MAX)
    }

    /// The backing shared histogram.
    pub closed spec fn spec_histogram(self) -> Histogram {
        self.histogram
    }

    /// The pending per-bucket deltas.
    pub closed spec fn spec_counts(self) -> Seq<u64> {
        self.counts@
    }

    /// The pending count delta.
    pub closed spec fn spec_count(self) -> u64 {
        self.count
    }

    /// The pending sum delta, as a binary64 bit pattern.
    pub closed spec fn spec_sum(self) -> u64 {
        self.sum
    }

    /// A fresh, empty buffer bound to the given histogram.
    pub fn new(histogram: Histogram) -> (r: LocalHistogramCore)
        ensures
            r.wf(),
            r.spec_histogram() == histogram,
            r.spec_count() == 0,
            r.spec_sum() == POS_ZERO,
            r.spec_counts().len() == histogram.spec_bounds().len(),
            forall|i: int| 0 <= i < r.spec_counts().len() ==> r.spec_counts()[i] == 0,
    {
        let n: usize = histogram.num_buckets();
        let mut counts: Vec<u64> = Vec::new();
        let mut i: usize = 0;
        while i < n
            invariant
                i <= n,
                counts@.len() == i,
                forall|j: int| 0 <= j < i ==> counts@[j] == 0,
            decreases n - i,
        {
            counts.push(0);
            i = i + 1;
        }
        proof {
            lemma_seq_sum_zero(counts@);
        }
        LocalHistogramCore { histogram, counts, count: 0, sum: POS_ZERO }
    }

    /// Records one observation into the plain local counters: the first
    /// bucket whose bound admits the value advances by one (none, if no
    /// finite bound admits it), the count delta advances by one and the
    /// observed value is added to the sum delta.  The counters stick at
    /// their maximum instead of overflowing.
    pub fn observe(&mut self, v: u64)
        ensures
            old(self).wf() ==> final (self).wf(),
            final (self).spec_histogram() == old(self).spec_histogram(),
            final (self).spec_count() == sat_add(old(self).spec_count(), 1),
            final (self).spec_sum() == add_bits(old(self).spec_sum(), v),
            match bucket_index(old(self).spec_histogram().spec_bounds(), v) {
                Some(i) => final (self).spec_counts() == (if i < old(self).spec_counts().len() {
                    old(self).spec_counts().update(i, sat_add(old(self).spec_counts()[i], 1))
                } else {
                    old(self).spec_counts()
                }),
                None => final (self).spec_counts() == old(self).spec_counts(),
            },
    {
        let r: Option<usize> = find_bucket(self.histogram.bounds_ref(), v);
        match r {
            Some(i) => {
                // A well-formed buffer mirrors its histogram's buckets,
                // so this guard never fails there; it keeps the hot
                // path total on any value of the type.
                if i < self.counts.len() {
                    let c: u64 = self.counts[i];
                    let c2: u64 = if c < u64::MAX {
                        c + 1
                    } else {
                        c
                    };
                    let slot: &mut u64 = &mut self.counts[i];
                    *slot = c2;
                    proof {
                        lemma_seq_sum_update(old(self).counts@, i as int, c2);
                    }
                }
            },
            None => {},
        }
        self.count = if self.count < u64::MAX {
            self.count + 1
        } else {
            self.count
        };
        self.sum = crate::binary64::b64_add(self.sum, v);
    }

    /// Discards the pending deltas without merging them.
    pub fn clear(&mut self)
        ensures
            old(self).wf() ==> final (self).wf(),
            final (self).spec_histogram() == old(self).spec_histogram(),
            final (self).spec_count() == 0,
            final (self).spec_sum() == POS_ZERO,
            final (self).spec_counts().len() == old(self).spec_counts().len(),
            forall|i: int|
                0 <= i < final (self).spec_counts().len() ==> final (self).spec_counts()[i] == 0,
    {
        let n: usize = self.counts.len();
        let mut i: usize = 0;
        while i < n
            invariant
                i <= n,
                n == self.counts@.len(),
                self.histogram == old(self).histogram,
                self.counts@.len() == old(self).counts@.len(),
                forall|j: int| 0 <= j < i ==> self.counts@[j] == 0,
            decreases n - i,
        {
            let slot: &mut u64 = &mut self.counts[i];
            *slot = 0;
            i = i + 1;
        }
        self.count = 0;
        self.sum = POS_ZERO;
        proof {
            lemma_seq_sum_zero(self.counts@);
        }
    }

    /// Merges the pending deltas into the backing histogram's shared
    /// cells (one atomic add per nonzero bucket delta, one for the
    /// count, one for the sum) and resets the local deltas; with no
    /// pending observations it does nothing at all.
    pub fn flush(&mut self)
        ensures
            old(self).wf() ==> final (self).wf(),
            final (self).spec_histogram() == old(self).spec_histogram(),
            old(self).spec_count() == 0 ==> *final (self) == *old(self),
            old(self).spec_count() != 0 ==> final (self).spec_count() == 0,
            old(self).spec_count() != 0 ==> final (self).spec_sum() == POS_ZERO,
            final (self).spec_counts().len() == old(self).spec_counts().len(),
            old(self).spec_count() != 0 ==> (forall|i: int|
                0 <= i < final (self).spec_counts().len() ==> final (self).spec_counts()[i] == 0),
    {
        if self.count == 0 {
            return ;
        }
        // A well-formed buffer mirrors its histogram's buckets, so the
        // guard never fails there; it keeps the merge total on any
        // value of the type.
        if self.counts.len() == self.histogram.num_buckets() {
            self.histogram.apply_deltas(&self.counts, self.count, self.sum);
        }
        self.clear();
    }

    /// The pending sum delta's bit pattern.
    pub fn sample_sum(&self) -> (r: u64)
        ensures
            r == self.spec_sum(),
    {
        self.sum
    }

    /// The pending count delta.
    pub fn sample_count(&self) -> (r: u64)
        ensures
            r == self.spec_count(),
    {
        self.count
    }
}

/// Law: a cumulative snapshot built from a buffer's counters never
/// exceeds the buffer's total count at its last entry, and reaches it
/// exactly when every observation fell under some finite bound (the
/// counters account for `seq_sum` of the total; the rest went only to
/// the implicit unbounded bucket).  The one state this cannot speak of
/// is a counter saturated at the maximum after 2^64 - 1 observations.
pub proof fn lemma_cumulative_within_count(c: LocalHistogramCore)
    requires
        c.wf(),
        c.spec_count() < u64::MAX,
    ensures
        crate::buckets::cum_count(c.spec_counts(), c.spec_counts().len() - 1) <= c.spec_count(),
        seq_sum(c.spec_counts()) == c.spec_count() ==> crate::buckets::cum_count(
            c.spec_counts(),
            c.spec_counts().len() - 1,
        ) == c.spec_count(),
{
    lemma_seq_sum_nonneg(c.spec_counts());
    crate::buckets::lemma_cumulative_last_exact(c.spec_counts());
}

/// A thread-confined histogram buffer.  Observations mutate plain
/// memory; `flush` merges them into the backing shared histogram, and a
/// buffer that goes out of scope flushes automatically.
pub struct LocalHistogram {
    core: LocalHistogramCore,
}

impl Histogram {
    /// A fresh local buffer bound to this histogram's shared state.
    pub fn local(&self) -> (r: LocalHistogram)
        ensures
            r.wf(),
            r.spec_core().spec_histogram() == *self,
            r.spec_core().spec_count() == 0,
            r.spec_core().spec_sum() == POS_ZERO,
            forall|i: int|
                0 <= i < r.spec_core().spec_counts().len() ==> r.spec_core().spec_counts()[i] == 0,
    {
        LocalHistogram { core: LocalHistogramCore::new(self.handle()) }
    }
}

impl LocalHistogram {
    /// The buffer's data.
    pub closed spec fn spec_core(self) -> LocalHistogramCore {
        self.core
    }

    /// Well-formedness, as `LocalHistogramCore::wf`.
    pub closed spec fn wf(self) -> bool {
        self.spec_core().wf()
    }

    /// Records one observation into the local buffer, as
    /// `LocalHistogramCore::observe`.
    pub fn observe(&mut self, v: u64)
        requires
            old(self).wf(),
        ensures
            final (self).wf(),
            final (self).spec_core().spec_histogram() == old(self).spec_core().spec_histogram(),
            final (self).spec_core().spec_count() == sat_add(old(self).spec_core().spec_count(), 1),
            final (self).spec_core().spec_sum() == add_bits(old(self).spec_core().spec_sum(), v),
            match bucket_index(old(self).spec_core().spec_histogram().spec_bounds(), v) {
                Some(i) => final (self).spec_core().spec_counts() == old(self).spec_core()
                    .spec_counts().update(i, sat_add(old(self).spec_core().spec_counts()[i], 1)),
                None => final (self).spec_core().spec_counts() == old(self).spec_core()
                    .spec_counts(),
            },
    {
        proof {
            crate::buckets::lemma_observe_targets_least_bucket(
                old(self).spec_core().spec_histogram().spec_bounds(),
                v,
            );
        }
        self.core.observe(v);
    }

    /// Starts a timer that records into a fresh buffer bound to the same
    /// shared histogram; the fresh buffer merges when the timer's buffer
    /// goes out of scope.
    pub fn start_timer(&self) -> (r: LocalHistogramTimer)
        ensures
            !r.spec_observed(),
            r.wf(),
            r.spec_local().spec_core().spec_histogram() == self.spec_core().spec_histogram(),
            r.spec_local().spec_core().spec_count() == 0,
    {
        LocalHistogramTimer::new(self.fresh())
    }

    /// As `start_timer`, on the coarse clock (which falls back to the
    /// regular monotonic clock here).
    pub fn start_coarse_timer(&self) -> (r: LocalHistogramTimer)
        ensures
            !r.spec_observed(),
            r.wf(),
            r.spec_local().spec_core().spec_histogram() == self.spec_core().spec_histogram(),
            r.spec_local().spec_core().spec_count() == 0,
    {
        LocalHistogramTimer::new(self.fresh())
    }

    /// Runs the closure and records its execution time in seconds into
    /// the local buffer.
    pub fn observe_closure_duration<F, T>(&mut self, f: F) -> (r: T) where F: FnOnce() -> T
        requires
            old(self).wf(),
            f.requires(()),
        ensures
            f.ensures((), r),
    {
        let start = crate::clock::now_monotonic();
        let res = f();
        let elapsed: u64 = elapsed_seconds(&start);
        self.observe(elapsed);
        res
    }

    /// As `observe_closure_duration`, on the coarse clock (which falls
    /// back to the regular clock here).
    pub fn observe_closure_duration_coarse<F, T>(&mut self, f: F) -> (r: T) where F: FnOnce() -> T
        requires
            old(self).wf(),
            f.requires(()),
        ensures
            f.ensures((), r),
    {
        let start = crate::clock::now_monotonic();
        let res = f();
        let elapsed: u64 = elapsed_seconds(&start);
        self.observe(elapsed);
        res
    }

    /// Discards the pending local observations.
    pub fn clear(&mut self)
        requires
            old(self).wf(),
        ensures
            final (self).wf(),
            final (self).spec_core().spec_count() == 0,
            final (self).spec_core().spec_sum() == POS_ZERO,
            final (self).spec_core().spec_histogram() == old(self).spec_core().spec_histogram(),
            forall|i: int|
                0 <= i < final (self).spec_core().spec_counts().len() ==> final (self)
                    .spec_core().spec_counts()[i] == 0,
    {
        self.core.clear();
    }

    /// Merges the pending local observations into the shared histogram,
    /// as `LocalHistogramCore::flush`.
    pub fn flush(&mut self)
        requires
            old(self).wf(),
        ensures
            final (self).wf(),
            final (self).spec_core().spec_histogram() == old(self).spec_core().spec_histogram(),
            old(self).spec_core().spec_count() == 0 ==> *final (self) == *old(self),
            old(self).spec_core().spec_count() != 0 ==> final (self).spec_core().spec_count() == 0
                && final (self).spec_core().spec_sum() == POS_ZERO,
    {
        self.core.flush();
    }

    /// The pending sum delta's bit pattern.
    pub fn get_sample_sum(&self) -> (r: u64)
        ensures
            r == self.spec_core().spec_sum(),
    {
        self.core.sample_sum()
    }

    /// The pending count delta.
    pub fn get_sample_count(&self) -> (r: u64)
        ensures
            r == self.spec_core().spec_count(),
    {
        self.core.sample_count()
    }

    /// A handle to the backing shared histogram.
    pub fn histogram_handle(&self) -> (r: Histogram)
        ensures
            r == self.spec_core().spec_histogram(),
    {
        self.core.histogram_handle()
    }

    /// A fresh, empty buffer bound to the same shared histogram: what
    /// cloning a local buffer means (a clone never copies pending data).
    pub fn fresh(&self) -> (r: LocalHistogram)
        ensures
            r.wf(),
            r.spec_core().spec_histogram() == self.spec_core().spec_histogram(),
            r.spec_core().spec_count() == 0,
            r.spec_core().spec_sum() == POS_ZERO,
            forall|i: int|
                0 <= i < r.spec_core().spec_counts().len() ==> r.spec_core().spec_counts()[i] == 0,
    {
        LocalHistogram { core: LocalHistogramCore::new(self.core.histogram_handle()) }
    }

    /// Flushes if observations are pending.  This is what dropping a
    /// buffer runs, so pending observations are never lost on scope
    /// exit.
    pub fn flush_on_drop(&mut self)
        ensures
            old(self).wf() ==> final (self).wf(),
            final (self).spec_core().spec_histogram() == old(self).spec_core().spec_histogram(),
            old(self).spec_core().spec_count() == 0 ==> *final (self) == *old(self),
            final (self).spec_core().spec_count() == 0,
            old(self).spec_core().spec_count() != 0 ==> final (self).spec_core().spec_sum()
                == POS_ZERO,
            old(self).spec_core().spec_count() != 0 ==> (forall|i: int|
                0 <= i < final (self).spec_core().spec_counts().len() ==> final (self).spec_core()
                    .spec_counts()[i] == 0),
    {
        self.core.flush();
    }
}

impl LocalHistogramCore {
    /// A handle to the backing shared histogram.
    pub fn histogram_handle(&self) -> (r: Histogram)
        ensures
            r == self.spec_histogram(),
    {
        self.histogram.handle()
    }
}

impl Drop for LocalHistogram {
    /// Relies on `LocalHistogram::flush_on_drop`, which is verified
    /// above and total.  Verus asks that a verified `drop` neither
    /// unwind nor open invariants, and the collection specifications it
    /// would call through do not declare that, so the one call stands
    /// behind an unchecked body.
    #[verifier::external_body]
    fn drop(&mut self)
        opens_invariants none
        no_unwind
    {
        self.flush_on_drop();
    }
}

/// How a buffer's bucket deltas change when the value `v` is recorded
/// into it: the bucket `bucket_index` picks for `v` advances by one
/// (none, if no finite bound admits `v`).
pub open spec fn timer_bucket_deltas(before: LocalHistogram, after: LocalHistogram, v: u64) -> bool {
    match bucket_index(before.spec_core().spec_histogram().spec_bounds(), v) {
        Some(i) => after.spec_core().spec_counts() == (if i < before.spec_core().spec_counts().len() {
            before.spec_core().spec_counts().update(
                i,
                sat_add(before.spec_core().spec_counts()[i], 1),
            )
        } else {
            before.spec_core().spec_counts()
        }),
        None => after.spec_core().spec_counts() == before.spec_core().spec_counts(),
    }
}

/// A scoped timer bound to a local buffer.  It can be consumed at most
/// once, explicitly; a timer dropped without being consumed records the
/// elapsed seconds exactly once on drop.
#[must_use]
pub struct LocalHistogramTimer {
    local: LocalHistogram,
    observed: bool,
    start: std::time::Instant,
}

impl LocalHistogramTimer {
    /// Whether the timer was already consumed.
    pub closed spec fn spec_observed(self) -> bool {
        self.observed
    }

    /// The local buffer this timer records into.
    pub closed spec fn spec_local(self) -> LocalHistogram {
        self.local
    }

    /// Well-formedness of the timer's buffer.
    pub closed spec fn wf(self) -> bool {
        self.local.wf()
    }

    fn new(local: LocalHistogram) -> (r: LocalHistogramTimer)
        ensures
            !r.spec_observed(),
            r.spec_local() == local,
            local.wf() ==> r.wf(),
    {
        LocalHistogramTimer { local, observed: false, start: crate::clock::now_monotonic() }
    }

    /// Stops the timer and records the elapsed seconds.
    pub fn observe_duration(self) {
        self.stop_and_record();
    }

    /// Stops the timer, records the elapsed seconds and returns them (as
    /// a binary64 bit pattern).
    pub fn stop_and_record(self) -> (r: u64)
        ensures
            exists|s: u64, n: u32| n < 1_000_000_000 && r == crate::clock::seconds_bits(s, n),
            !crate::binary64::sign_of(r),
            !crate::binary64::is_nan(r),
    {
        let mut timer = self;
        timer.observe(true)
    }

    /// Stops the timer and returns the elapsed seconds (as a binary64
    /// bit pattern) without recording them: the timer's buffer is left
    /// exactly as it was, so nothing ever reaches the shared histogram
    /// from this timer.
    pub fn stop_and_discard(self) -> (r: u64)
        ensures
            exists|s: u64, n: u32| n < 1_000_000_000 && r == crate::clock::seconds_bits(s, n),
            !crate::binary64::sign_of(r),
            !crate::binary64::is_nan(r),
    {
        let mut timer = self;
        timer.observe(false)
    }

    fn observe(&mut self, record: bool) -> (r: u64)
        ensures
            old(self).wf() ==> final (self).wf(),
            final (self).spec_observed(),
            exists|s: u64, n: u32| n < 1_000_000_000 && r == crate::clock::seconds_bits(s, n),
            !crate::binary64::sign_of(r),
            !crate::binary64::is_nan(r),
            final (self).spec_local().spec_core().spec_histogram() == old(
                self,
            ).spec_local().spec_core().spec_histogram(),
            !record ==> final (self).local.spec_core() == old(self).local.spec_core(),
            record ==> final (self).spec_local().spec_core().spec_count() == sat_add(
                old(self).spec_local().spec_core().spec_count(),
                1,
            ),
            record ==> final (self).spec_local().spec_core().spec_sum() == add_bits(
                old(self).spec_local().spec_core().spec_sum(),
                r,
            ),
            record ==> timer_bucket_deltas(old(self).spec_local(), final (self).spec_local(), r),
    {
        let v: u64 = elapsed_seconds(&self.start);
        self.observed = true;
        if record {
            self.local.core.observe(v);
        }
        v
    }

    /// Records the elapsed seconds if the timer was not consumed yet;
    /// does nothing on a consumed timer.  This is what dropping a timer
    /// runs, so a timer records exactly once on every exit path.
    pub fn record_if_unobserved(&mut self)
        ensures
            old(self).wf() ==> final (self).wf(),
            final (self).spec_observed(),
            old(self).spec_observed() ==> *final (self) == *old(self),
            !old(self).spec_observed() ==> final (self).spec_local().spec_core().spec_count()
                == sat_add(old(self).spec_local().spec_core().spec_count(), 1),
            !old(self).spec_observed() ==> (exists|v: u64|
                final (self).spec_local().spec_core().spec_sum() == add_bits(
                    old(self).spec_local().spec_core().spec_sum(),
                    v,
                ) && timer_bucket_deltas(old(self).spec_local(), final (self).spec_local(), v)),
    {
        if !self.observed {
            let v: u64 = self.observe(true);
            proof {
                assert(self.spec_local().spec_core().spec_sum() == add_bits(
                    old(self).spec_local().spec_core().spec_sum(),
                    v,
                ) && timer_bucket_deltas(old(self).spec_local(), self.spec_local(), v));
            }
        }
    }
}

impl Drop for LocalHistogramTimer {
    /// Relies on `LocalHistogramTimer::record_if_unobserved`, which is
    /// verified above and total.  Verus asks that a verified `drop`
    /// neither unwind nor open invariants, and the collection
    /// specifications it would call through do not declare that, so the
    /// one call stands behind an unchecked body.
    #[verifier::external_body]
    fn drop(&mut self)
        opens_invariants none
        no_unwind
    {
        self.record_if_unobserved();
    }
}

} // verus!
