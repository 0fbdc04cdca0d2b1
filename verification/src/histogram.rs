//! The shared histogram: configuration options, the shared atomic core,
//! the cheap cloneable handle, and the scoped timer.

use vstd::prelude::*;

use crate::binary64::{is_nan, lt_bits};
use crate::buckets::{
    bucket_index, buckets_acceptable, check_and_adjust_buckets, check_bucket_label, cum_count,
    cumulative_counts, default_buckets, drop_trailing_inf, effective_buckets, find_bucket,
};
use crate::cells::{AtomicCounter, AtomicSum};
use crate::clock::elapsed_seconds;
use crate::errors::Error;

verus! {

/// The options a histogram is built from: the metric's name and help
/// text, optional namespace and subsystem, fixed label pairs, declared
/// variable label names, and the bucket bounds (binary64 bit patterns;
/// an empty list stands for the default bounds).
pub struct HistogramOpts {
    pub name: String,
    pub help: String,
    pub namespace: String,
    pub subsystem: String,
    pub const_labels: Vec<(String, String)>,
    pub variable_labels: Vec<String>,
    pub buckets: Vec<u64>,
}

impl HistogramOpts {
    /// Options with the given name and help, the default buckets and no
    /// labels.
    pub fn new(name: String, help: String) -> (r: HistogramOpts)
        ensures
            r.name == name,
            r.help == help,
            r.namespace@ =~= Seq::<char>::empty(),
            r.subsystem@ =~= Seq::<char>::empty(),
            r.const_labels@ =~= Seq::<(String, String)>::empty(),
            r.variable_labels@ =~= Seq::<String>::empty(),
            r.buckets@ =~= crate::buckets::default_buckets_seq(),
    {
        HistogramOpts {
            name,
            help,
            namespace: String::new(),
            subsystem: String::new(),
            const_labels: Vec::new(),
            variable_labels: Vec::new(),
            buckets: default_buckets(),
        }
    }

    /// Sets the namespace.
    pub fn namespace(self, namespace: String) -> (r: HistogramOpts)
        ensures
            r == (HistogramOpts { namespace, ..self }),
    {
        HistogramOpts { namespace, ..self }
    }

    /// Sets the subsystem.
    pub fn subsystem(self, subsystem: String) -> (r: HistogramOpts)
        ensures
            r == (HistogramOpts { subsystem, ..self }),
    {
        HistogramOpts { subsystem, ..self }
    }

    /// Sets the fixed label pairs.
    pub fn const_labels(self, const_labels: Vec<(String, String)>) -> (r: HistogramOpts)
        ensures
            r == (HistogramOpts { const_labels, ..self }),
    {
        HistogramOpts { const_labels, ..self }
    }

    /// Adds one fixed label pair.
    pub fn const_label(self, name: String, value: String) -> (r: HistogramOpts)
        ensures
            r.const_labels@ == self.const_labels@.push((name, value)),
            r.name == self.name && r.help == self.help && r.namespace == self.namespace
                && r.subsystem == self.subsystem && r.variable_labels == self.variable_labels
                && r.buckets == self.buckets,
    {
        let mut s = self;
        s.const_labels.push((name, value));
        s
    }

    /// Sets the variable label names.
    pub fn variable_labels(self, variable_labels: Vec<String>) -> (r: HistogramOpts)
        ensures
            r == (HistogramOpts { variable_labels, ..self }),
    {
        HistogramOpts { variable_labels, ..self }
    }

    /// Adds one variable label name.
    pub fn variable_label(self, name: String) -> (r: HistogramOpts)
        ensures
            r.variable_labels@ == self.variable_labels@.push(name),
            r.name == self.name && r.help == self.help && r.namespace == self.namespace
                && r.subsystem == self.subsystem && r.const_labels == self.const_labels
                && r.buckets == self.buckets,
    {
        let mut s = self;
        s.variable_labels.push(name);
        s
    }

    /// Sets the bucket bounds.
    pub fn buckets(self, buckets: Vec<u64>) -> (r: HistogramOpts)
        ensures
            r == (HistogramOpts { buckets, ..self }),
    {
        HistogramOpts { buckets, ..self }
    }

    /// The fully qualified metric name: namespace, subsystem and name,
    /// joined by underscores, with empty parts left out.
    pub fn fq_name(&self) -> (r: String)
        ensures
            r@ == fq_name_seq(self.namespace@, self.subsystem@, self.name@),
    {
        let mut r: String = String::new();
        if self.namespace.unicode_len() > 0 {
            r.append(self.namespace.as_str());
            r.append("_");
        }
        if self.subsystem.unicode_len() > 0 {
            r.append(self.subsystem.as_str());
            r.append("_");
        }
        r.append(self.name.as_str());
        proof {
            assert(r@ =~= fq_name_seq(self.namespace@, self.subsystem@, self.name@));
        }
        r
    }
}

/// The fully qualified name: the non-empty parts of namespace, subsystem
/// and name, joined by underscores.
pub open spec fn fq_name_seq(ns: Seq<char>, ss: Seq<char>, name: Seq<char>) -> Seq<char> {
    (if ns.len() > 0 {
        ns + "_"@
    } else {
        Seq::<char>::empty()
    }) + (if ss.len() > 0 {
        ss + "_"@
    } else {
        Seq::<char>::empty()
    }) + name
}

/// Whether every label name declared by the options avoids the reserved
/// bucket label.
pub open spec fn labels_ok(opts: HistogramOpts) -> bool {
    (forall|i: int|
        0 <= i < opts.variable_labels@.len() ==> (#[trigger] opts.variable_labels@[i])@ != "le"@)
        && (forall|i: int|
        0 <= i < opts.const_labels@.len() ==> (#[trigger] opts.const_labels@[i]).0@ != "le"@)
}

/// One metric's shared state: an atomic counter per bucket, the shared
/// total count and total sum, the validated bucket bounds, and the
/// finalized label pairs of this time series.
pub struct HistogramCore {
    label_pairs: Vec<(String, String)>,
    sum: AtomicSum,
    count: AtomicCounter,
    upper_bounds: Vec<u64>,
    counts: Vec<AtomicCounter>,
}

/// One bucket of an exported snapshot: the cumulative count of
/// observations at or under `upper_bound` (a binary64 bit pattern).
pub struct Bucket {
    pub cumulative_count: u64,
    pub upper_bound: u64,
}

/// An exported snapshot: total sum (binary64 bit pattern), total count,
/// and the cumulative buckets in ascending bound order.
pub struct HistogramProto {
    pub sample_sum: u64,
    pub sample_count: u64,
    pub buckets: Vec<Bucket>,
}

impl HistogramCore {
    #[verifier::type_invariant]
    spec fn wf(self) -> bool {
        &&& self.counts@.len() == self.upper_bounds@.len()
        &&& self.upper_bounds@.len() >= 1
        &&& forall|i: int|
            0 <= i < self.upper_bounds@.len() ==> !is_nan(#[trigger] self.upper_bounds@[i])
        &&& forall|i: int|
            0 <= i < self.upper_bounds@.len() - 1 ==> lt_bits(
                #[trigger] self.upper_bounds@[i],
                self.upper_bounds@[i + 1],
            )
    }

    /// The validated bucket bounds.
    pub closed spec fn spec_bounds(self) -> Seq<u64> {
        self.upper_bounds@
    }

    /// The finalized label pairs.
    pub closed spec fn spec_label_pairs(self) -> Seq<(String, String)> {
        self.label_pairs@
    }

    /// Builds the shared state from options and this series' variable
    /// label values.  Rejects any label named like the reserved bucket
    /// label, and any bucket list that is not NaN-free and strictly
    /// increasing or that leaves no finite bucket; an empty bucket list
    /// is replaced by the default bounds and a trailing positive
    /// infinity is dropped.
    pub fn new(opts: &HistogramOpts, label_values: &[&str]) -> (r: Result<HistogramCore, Error>)
        ensures
            r is Ok <==> labels_ok(*opts) && buckets_acceptable(opts.buckets@),
            r matches Ok(c) ==> c.spec_bounds() == drop_trailing_inf(
                effective_buckets(opts.buckets@),
            ),
            r matches Ok(c) ==> c.spec_label_pairs().len() == opts.const_labels@.len() + spec_min(
                opts.variable_labels@.len() as int,
                label_values@.len() as int,
            ),
            r matches Ok(c) ==> (forall|i: int|
                0 <= i < opts.const_labels@.len() ==> (#[trigger] c.spec_label_pairs()[i])
                    == opts.const_labels@[i]),
            r matches Ok(c) ==> (forall|i: int|
                0 <= i < spec_min(opts.variable_labels@.len() as int, label_values@.len() as int)
                    ==> (#[trigger] c.spec_label_pairs()[opts.const_labels@.len() + i]).0
                    == opts.variable_labels@[i] && c.spec_label_pairs()[opts.const_labels@.len()
                    + i].1@ == label_values@[i]@),
    {
        let mut i: usize = 0;
        let n_var: usize = opts.variable_labels.len();
        while i < n_var
            invariant
                i <= n_var,
                n_var == opts.variable_labels@.len(),
                forall|j: int|
                    0 <= j < i ==> (#[trigger] opts.variable_labels@[j])@ != "le"@,
            decreases n_var - i,
        {
            match check_bucket_label(opts.variable_labels[i].as_str()) {
                Ok(_) => {},
                Err(e) => {
                    return Err(e);
                },
            }
            i = i + 1;
        }
        let n_const: usize = opts.const_labels.len();
        let mut i: usize = 0;
        while i < n_const
            invariant
                i <= n_const,
                n_const == opts.const_labels@.len(),
                labels_var_ok(*opts),
                forall|j: int| 0 <= j < i ==> (#[trigger] opts.const_labels@[j]).0@ != "le"@,
            decreases n_const - i,
        {
            match check_bucket_label(opts.const_labels[i].0.as_str()) {
                Ok(_) => {},
                Err(e) => {
                    return Err(e);
                },
            }
            i = i + 1;
        }
        let mut pairs: Vec<(String, String)> = Vec::new();
        let mut i: usize = 0;
        while i < n_const
            invariant
                i <= n_const,
                n_const == opts.const_labels@.len(),
                pairs@.len() == i,
                forall|j: int| 0 <= j < i ==> (#[trigger] pairs@[j]) == opts.const_labels@[j],
            decreases n_const - i,
        {
            let name: String = opts.const_labels[i].0.clone();
            let value: String = opts.const_labels[i].1.clone();
            pairs.push((name, value));
            i = i + 1;
        }
        let n_zip: usize = if label_values.len() < n_var {
            label_values.len()
        } else {
            n_var
        };
        let mut i: usize = 0;
        while i < n_zip
            invariant
                i <= n_zip,
                n_zip <= opts.variable_labels@.len(),
                n_zip <= label_values@.len(),
                pairs@.len() == n_const + i,
                n_const == opts.const_labels@.len(),
                forall|j: int| 0 <= j < n_const ==> (#[trigger] pairs@[j]) == opts.const_labels@[j],
                forall|j: int|
                    0 <= j < i ==> (#[trigger] pairs@[n_const + j]).0 == opts.variable_labels@[j]
                        && pairs@[n_const + j].1@ == label_values@[j]@,
            decreases n_zip - i,
        {
            let name: String = opts.variable_labels[i].clone();
            let value: String = label_values[i].to_owned();
            pairs.push((name, value));
            i = i + 1;
        }
        let buckets: Vec<u64> = match check_and_adjust_buckets(clone_bits(&opts.buckets)) {
            Ok(b) => b,
            Err(e) => {
                return Err(e);
            },
        };
        let n_buckets: usize = buckets.len();
        let mut counts: Vec<AtomicCounter> = Vec::new();
        let mut i: usize = 0;
        while i < n_buckets
            invariant
                i <= n_buckets,
                counts@.len() == i,
            decreases n_buckets - i,
        {
            counts.push(AtomicCounter::new(0));
            i = i + 1;
        }
        Ok(
            HistogramCore {
                label_pairs: pairs,
                sum: AtomicSum::new(0),
                count: AtomicCounter::new(0),
                upper_bounds: buckets,
                counts,
            },
        )
    }

    /// Records one observation (a binary64 bit pattern): the first
    /// bucket whose bound the value fits under is incremented (none, if
    /// the value exceeds every finite bound or is NaN), and the total
    /// count and total sum always advance.  The cells are shared, so the
    /// effect is visible only through later reads.
    pub fn observe(&self, v: u64) {
        proof {
            use_type_invariant(self);
        }
        let r: Option<usize> = find_bucket(&self.upper_bounds, v);
        match r {
            Some(i) => {
                self.counts[i].inc_by(1);
            },
            None => {},
        }
        self.count.inc_by(1);
        self.sum.inc_by(v);
    }

    /// Produces the exported snapshot shape.  The reads of the shared
    /// cells are not atomic as a group, so the values reflect some
    /// interleaving of concurrent observations; whatever was read, the
    /// cumulative bucket counts never decrease across the sequence.
    pub fn proto(&self) -> (r: HistogramProto)
        ensures
            r.buckets@.len() == self.spec_bounds().len(),
            r.buckets@.len() >= 1,
            forall|i: int|
                0 <= i < r.buckets@.len() ==> (#[trigger] r.buckets@[i]).upper_bound
                    == self.spec_bounds()[i],
            forall|i: int|
                0 <= i < r.buckets@.len() - 1 ==> lt_bits(
                    (#[trigger] r.buckets@[i]).upper_bound,
                    r.buckets@[i + 1].upper_bound,
                ),
            forall|i: int|
                0 <= i < r.buckets@.len() ==> !is_nan((#[trigger] r.buckets@[i]).upper_bound),
            forall|i: int, j: int|
                0 <= i <= j < r.buckets@.len() ==> (#[trigger] r.buckets@[i]).cumulative_count <= (
                #[trigger] r.buckets@[j]).cumulative_count,
    {
        proof {
            use_type_invariant(self);
        }
        let n: usize = self.upper_bounds.len();
        let mut loaded: Vec<u64> = Vec::new();
        let mut i: usize = 0;
        while i < n
            invariant
                i <= n,
                loaded@.len() == i,
                n == self.counts@.len(),
            decreases n - i,
        {
            loaded.push(self.counts[i].get());
            i = i + 1;
        }
        let cums: Vec<u64> = cumulative_counts(&loaded);
        let mut buckets: Vec<Bucket> = Vec::new();
        let mut i: usize = 0;
        while i < n
            invariant
                i <= n,
                n == self.upper_bounds@.len(),
                cums@.len() == n,
                buckets@.len() == i,
                forall|j: int|
                    0 <= j < i ==> (#[trigger] buckets@[j]).upper_bound == self.upper_bounds@[j]
                        && buckets@[j].cumulative_count == cums@[j],
                forall|j: int| 0 <= j < cums@.len() ==> cums@[j] == cum_count(loaded@, j),
            decreases n - i,
        {
            buckets.push(Bucket { cumulative_count: cums[i], upper_bound: self.upper_bounds[i] });
            i = i + 1;
        }
        proof {
            assert forall|x: int, y: int| 0 <= x <= y < buckets@.len() implies (
            #[trigger] buckets@[x]).cumulative_count <= (#[trigger] buckets@[y]).cumulative_count by {
                crate::buckets::lemma_cumulative_monotone(loaded@, x, y);
            }
        }
        HistogramProto {
            sample_sum: self.sum.get(),
            sample_count: self.count.get(),
            buckets,
        }
    }

    /// The shared total sum's current bit pattern.
    pub fn sample_sum(&self) -> u64 {
        self.sum.get()
    }

    /// The shared total count's current value.
    pub fn sample_count(&self) -> u64 {
        self.count.get()
    }

    /// Adds prepared deltas to the shared cells: each nonzero bucket
    /// delta, the count delta and the sum delta, each with one atomic
    /// add.  Used by local buffers when they merge.
    pub fn apply_deltas(&self, bucket_deltas: &Vec<u64>, count_delta: u64, sum_delta_bits: u64)
        requires
            bucket_deltas@.len() == self.spec_bounds().len(),
    {
        proof {
            use_type_invariant(self);
        }
        let n: usize = bucket_deltas.len();
        let mut i: usize = 0;
        while i < n
            invariant
                i <= n,
                n == self.counts@.len(),
                n == bucket_deltas@.len(),
            decreases n - i,
        {
            let d: u64 = bucket_deltas[i];
            if d > 0 {
                self.counts[i].inc_by(d);
            }
            i = i + 1;
        }
        self.count.inc_by(count_delta);
        self.sum.inc_by(sum_delta_bits);
    }

    /// How many buckets this histogram has.
    pub fn num_buckets(&self) -> (r: usize)
        ensures
            r == self.spec_bounds().len(),
    {
        self.upper_bounds.len()
    }

    /// The validated bucket bounds.
    pub fn bounds_ref(&self) -> (r: &Vec<u64>)
        ensures
            r@ == self.spec_bounds(),
    {
        &self.upper_bounds
    }

    /// The finalized label pairs of this time series.
    pub fn label_pairs_ref(&self) -> (r: &Vec<(String, String)>)
        ensures
            r@ == self.spec_label_pairs(),
    {
        &self.label_pairs
    }
}

/// The smaller of two lengths.
pub open spec fn spec_min(a: int, b: int) -> int {
    if a < b {
        a
    } else {
        b
    }
}

spec fn labels_var_ok(opts: HistogramOpts) -> bool {
    forall|i: int|
        0 <= i < opts.variable_labels@.len() ==> (#[trigger] opts.variable_labels@[i])@ != "le"@
}

/// Copies a vector of bit patterns.
pub fn clone_bits(v: &Vec<u64>) -> (r: Vec<u64>)
    ensures
        r@ == v@,
{
    let n: usize = v.len();
    let mut r: Vec<u64> = Vec::new();
    let mut i: usize = 0;
    while i < n
        invariant
            i <= n,
            n == v@.len(),
            r@.len() == i,
            forall|j: int| 0 <= j < i ==> r@[j] == v@[j],
        decreases n - i,
    {
        r.push(v[i]);
        i = i + 1;
    }
    proof {
        assert(r@ =~= v@);
    }
    r
}

/// A cheap, cloneable handle to one histogram's shared state.  Clones
/// share the same cells; observations through any clone are merged by
/// the atomic cells.
#[derive(Clone)]
pub struct Histogram {
    core: std::sync::Arc<HistogramCore>,
}

impl Histogram {
    /// The validated bucket bounds of the shared state.
    pub closed spec fn spec_bounds(self) -> Seq<u64> {
        self.core.spec_bounds()
    }

    /// Creates a histogram from options, with no variable label values.
    pub fn with_opts(opts: HistogramOpts) -> (r: Result<Histogram, Error>)
        ensures
            r is Ok <==> labels_ok(opts) && buckets_acceptable(opts.buckets@),
            r matches Ok(h) ==> h.spec_bounds() == drop_trailing_inf(
                effective_buckets(opts.buckets@),
            ),
    {
        Histogram::with_opts_and_label_values(&opts, &[])
    }

    /// Creates a histogram from options and this series' variable label
    /// values.
    pub fn with_opts_and_label_values(opts: &HistogramOpts, label_values: &[&str]) -> (r: Result<
        Histogram,
        Error,
    >)
        ensures
            r is Ok <==> labels_ok(*opts) && buckets_acceptable(opts.buckets@),
            r matches Ok(h) ==> h.spec_bounds() == drop_trailing_inf(
                effective_buckets(opts.buckets@),
            ),
    {
        let core = match HistogramCore::new(opts, label_values) {
            Ok(c) => c,
            Err(e) => {
                return Err(e);
            },
        };
        Ok(Histogram { core: std::sync::Arc::new(core) })
    }

    /// Records one observation, shared-state effect as
    /// `HistogramCore::observe`.
    pub fn observe(&self, v: u64) {
        self.core.observe(v)
    }

    /// Starts a timer that records into this histogram when consumed or
    /// dropped.
    pub fn start_timer(&self) -> (r: HistogramTimer)
        ensures
            !r.spec_observed(),
            r.spec_histogram() == *self,
    {
        HistogramTimer::new(self.handle())
    }

    /// Starts a timer on the coarse clock.  Reading the operating
    /// system's coarse clock needs an unsafe foreign call, so this falls
    /// back to the regular monotonic clock.
    pub fn start_coarse_timer(&self) -> (r: HistogramTimer)
        ensures
            !r.spec_observed(),
            r.spec_histogram() == *self,
    {
        HistogramTimer::new(self.handle())
    }

    /// Runs the closure and records its execution time in seconds.
    pub fn observe_closure_duration<F, T>(&self, f: F) -> (r: T) where F: FnOnce() -> T
        requires
            f.requires(()),
        ensures
            f.ensures((), r),
    {
        let start = crate::clock::now_monotonic();
        let res = f();
        let elapsed: u64 = elapsed_seconds(&start);
        self.observe(elapsed);
        res
    }

    /// As `observe_closure_duration`, on the coarse clock (which falls
    /// back to the regular clock here).
    pub fn observe_closure_duration_coarse<F, T>(&self, f: F) -> (r: T) where F: FnOnce() -> T
        requires
            f.requires(()),
        ensures
            f.ensures((), r),
    {
        let start = crate::clock::now_monotonic();
        let res = f();
        let elapsed: u64 = elapsed_seconds(&start);
        self.observe(elapsed);
        res
    }

    /// The shared total sum's current bit pattern.
    pub fn get_sample_sum(&self) -> u64 {
        self.core.sample_sum()
    }

    /// The shared total count's current value.
    pub fn get_sample_count(&self) -> u64 {
        self.core.sample_count()
    }

    /// The exported snapshot, as `HistogramCore::proto`: at least one
    /// bucket, bounds ascending and NaN-free, cumulative counts
    /// non-decreasing.
    pub fn proto(&self) -> (r: HistogramProto)
        ensures
            r.buckets@.len() == self.spec_bounds().len(),
            r.buckets@.len() >= 1,
            forall|i: int|
                0 <= i < r.buckets@.len() ==> (#[trigger] r.buckets@[i]).upper_bound
                    == self.spec_bounds()[i],
            forall|i: int|
                0 <= i < r.buckets@.len() - 1 ==> lt_bits(
                    (#[trigger] r.buckets@[i]).upper_bound,
                    r.buckets@[i + 1].upper_bound,
                ),
            forall|i: int|
                0 <= i < r.buckets@.len() ==> !is_nan((#[trigger] r.buckets@[i]).upper_bound),
            forall|i: int, j: int|
                0 <= i <= j < r.buckets@.len() ==> (#[trigger] r.buckets@[i]).cumulative_count <= (
                #[trigger] r.buckets@[j]).cumulative_count,
    {
        self.core.proto()
    }

    /// How many buckets this histogram has.
    pub fn num_buckets(&self) -> (r: usize)
        ensures
            r == self.spec_bounds().len(),
    {
        self.core.num_buckets()
    }

    /// Applies prepared deltas to the shared cells.
    pub fn apply_deltas(&self, bucket_deltas: &Vec<u64>, count_delta: u64, sum_delta_bits: u64)
        requires
            bucket_deltas@.len() == self.spec_bounds().len(),
    {
        self.core.apply_deltas(bucket_deltas, count_delta, sum_delta_bits)
    }

    /// Another handle to the same shared state.
    pub fn handle(&self) -> (r: Histogram)
        ensures
            r == *self,
    {
        Histogram { core: self.core.clone() }
    }

    /// The validated bucket bounds.
    pub fn bounds_ref(&self) -> (r: &Vec<u64>)
        ensures
            r@ == self.spec_bounds(),
    {
        self.core.bounds_ref()
    }

    /// The finalized label pairs of this time series.
    pub fn label_pairs_ref(&self) -> (r: &Vec<(String, String)>)
        ensures
            r@ == self.spec_label_pairs(),
    {
        self.core.label_pairs_ref()
    }

    /// The finalized label pairs of the shared state.
    pub closed spec fn spec_label_pairs(self) -> Seq<(String, String)> {
        self.core.spec_label_pairs()
    }
}

/// Whether the options' bucket bounds pass validation.
pub open spec fn buckets_acceptable_of(opts: HistogramOpts) -> bool {
    buckets_acceptable(opts.buckets@)
}

/// Builds one histogram per label-value combination for a partition.
pub struct HistogramVecBuilder {}

impl HistogramVecBuilder {
    /// Builds the histogram of one label-value combination.
    pub fn build(&self, opts: &HistogramOpts, vals: &[&str]) -> (r: Result<Histogram, Error>)
        ensures
            r is Ok <==> labels_ok(*opts) && buckets_acceptable_of(*opts),
            r matches Ok(h) ==> h.spec_bounds() == drop_trailing_inf(
                effective_buckets(opts.buckets@),
            ),
    {
        Histogram::with_opts_and_label_values(opts, vals)
    }
}

/// A scoped timer bound to one histogram.  It can be consumed at most
/// once, explicitly; a timer dropped without being consumed records the
/// elapsed seconds into its histogram exactly once on drop.
#[must_use]
pub struct HistogramTimer {
    histogram: Histogram,
    observed: bool,
    start: std::time::Instant,
}

impl HistogramTimer {
    /// Whether the timer was already consumed.
    pub closed spec fn spec_observed(self) -> bool {
        self.observed
    }

    /// The histogram this timer records into.
    pub closed spec fn spec_histogram(self) -> Histogram {
        self.histogram
    }

    fn new(histogram: Histogram) -> (r: HistogramTimer)
        ensures
            !r.spec_observed(),
            r.spec_histogram() == histogram,
    {
        HistogramTimer { histogram, observed: false, start: crate::clock::now_monotonic() }
    }

    /// Stops the timer and records the elapsed seconds.
    pub fn observe_duration(self) {
        self.stop_and_record();
    }

    /// Stops the timer, records the elapsed seconds and returns them (as
    /// a binary64 bit pattern).
    pub fn stop_and_record(self) -> (r: u64)
        ensures
            exists|s: u64, n: u32| n < 1_000_000_000 && r == crate::clock::seconds_bits(s, n),
            !crate::binary64::sign_of(r),
            !crate::binary64::is_nan(r),
    {
        let mut timer = self;
        timer.observe(true)
    }

    /// Stops the timer and returns the elapsed seconds (as a binary64
    /// bit pattern) without recording them.
    pub fn stop_and_discard(self) -> (r: u64)
        ensures
            exists|s: u64, n: u32| n < 1_000_000_000 && r == crate::clock::seconds_bits(s, n),
            !crate::binary64::sign_of(r),
            !crate::binary64::is_nan(r),
    {
        let mut timer = self;
        timer.observe(false)
    }

    fn observe(&mut self, record: bool) -> (r: u64)
        ensures
            final (self).spec_observed(),
            final (self).spec_histogram() == old(self).spec_histogram(),
            exists|s: u64, n: u32| n < 1_000_000_000 && r == crate::clock::seconds_bits(s, n),
            !crate::binary64::sign_of(r),
            !crate::binary64::is_nan(r),
    {
        let v: u64 = elapsed_seconds(&self.start);
        self.observed = true;
        if record {
            self.histogram.observe(v);
        }
        v
    }

    /// Records the elapsed seconds if the timer was not consumed yet;
    /// does nothing on a consumed timer.  This is what dropping a timer
    /// runs, so a timer records exactly once on every exit path.
    pub fn record_if_unobserved(&mut self)
        ensures
            final (self).spec_observed(),
            old(self).spec_observed() ==> *final (self) == *old(self),
    {
        if !self.observed {
            self.observe(true);
        }
    }
}

impl Drop for HistogramTimer {
    /// Relies on `HistogramTimer::record_if_unobserved`, which is
    /// verified above and total.  Verus asks that a verified `drop`
    /// neither unwind nor open invariants, and the collection
    /// specifications it would call through do not declare that, so the
    /// one call stands behind an unchecked body.
    #[verifier::external_body]
    fn drop(&mut self)
        opens_invariants none
        no_unwind
    {
        self.record_if_unobserved();
    }
}

} // verus!
