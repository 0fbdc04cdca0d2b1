//! The label-keyed partition: one metric definition split into many
//! independent time series, one per label-value combination, created
//! lazily on first use and removed on request; and its thread-confined
//! counterpart that caches local buffers per combination.
//!
//! Keys are a 64-bit FNV-1a hash of the ordered label values.  The
//! partition here owns its map and is driven through `&mut self`; an
//! embedding that shares one partition across threads puts it behind a
//! reader/writer lock at its edge.

use vstd::prelude::*;
use vstd::string::StringSliceAdditionalSpecFns;

use std::collections::HashMap;

use crate::errors::Error;
use crate::histogram::{
    buckets_acceptable_of, labels_ok, Histogram, HistogramOpts, HistogramVecBuilder,
};
use crate::local::LocalHistogram;

verus! {

broadcast use vstd::std_specs::hash::group_hash_axioms;

/// One step of the 64-bit FNV-1a hash: fold one byte in.
pub open spec fn fnv_step(h: u64, b: u8) -> u64 {
    (((h ^ (b as u64)) * 0x100_0000_01b3) % 0x1_0000_0000_0000_0000) as u64
}

/// The hash after folding in the bytes of `s` from position `i` on.
pub open spec fn fnv_bytes_from(h: u64, s: Seq<u8>, i: int) -> u64
    decreases s.len() - i,
{
    if i < 0 || i >= s.len() {
        h
    } else {
        fnv_bytes_from(fnv_step(h, s[i]), s, i + 1)
    }
}

/// The hash after folding in the values of `vals` from position `i` on,
/// each value as its bytes.
pub open spec fn fnv_vals_from(h: u64, vals: Seq<Seq<u8>>, i: int) -> u64
    decreases vals.len() - i,
{
    if i < 0 || i >= vals.len() {
        h
    } else {
        fnv_vals_from(fnv_bytes_from(h, vals[i], 0), vals, i + 1)
    }
}

/// The partition key of an ordered label-value tuple: the 64-bit FNV-1a
/// hash of the concatenation of the values' bytes.
pub open spec fn label_key(vals: Seq<Seq<u8>>) -> u64 {
    fnv_vals_from(0xcbf2_9ce4_8422_2325, vals, 0)
}

/// The byte sequences of a tuple of label values.
pub open spec fn bytes_of_vals(vals: Seq<&str>) -> Seq<Seq<u8>> {
    vals.map_values(|s: &str| s.spec_bytes())
}

/// Computes the partition key of an ordered label-value tuple.
pub fn hash_values(vals: &[&str]) -> (r: u64)
    ensures
        r == label_key(bytes_of_vals(vals@)),
{
    let n: usize = vals.len();
    let mut h: u64 = 0xcbf2_9ce4_8422_2325;
    let ghost bvals: Seq<Seq<u8>> = bytes_of_vals(vals@);
    let mut i: usize = 0;
    while i < n
        invariant
            i <= n,
            n == vals@.len(),
            bvals == bytes_of_vals(vals@),
            fnv_vals_from(h, bvals, i as int) == label_key(bvals),
        decreases n - i,
    {
        let bytes: &[u8] = vals[i].as_bytes();
        proof {
            assert(bvals[i as int] == vals@[i as int].spec_bytes());
        }
        let m: usize = bytes.len();
        let mut j: usize = 0;
        while j < m
            invariant
                j <= m,
                i < n,
                n == vals@.len(),
                m == bytes@.len(),
                bytes@ == bvals[i as int],
                bvals == bytes_of_vals(vals@),
                fnv_vals_from(fnv_bytes_from(h, bvals[i as int], j as int), bvals, i + 1)
                    == label_key(bvals),
            decreases m - j,
        {
            let b: u8 = bytes[j];
            h = ((h ^ (b as u64)) as u64).wrapping_mul(0x100_0000_01b3);
            j = j + 1;
        }
        i = i + 1;
    }
    h
}

/// A partition of histograms: a map from the key of each label-value
/// combination to the lazily created histogram of that combination.
pub struct HistogramVec {
    opts: HistogramOpts,
    builder: HistogramVecBuilder,
    children: HashMap<u64, Histogram>,
}

impl HistogramVec {
    /// The live children, by key.
    pub closed spec fn spec_children(self) -> Map<u64, Histogram> {
        self.children@
    }

    /// The declared number of variable labels: every tuple handed to
    /// the partition must have exactly this many values.
    pub closed spec fn spec_arity(self) -> int {
        self.opts.variable_labels@.len() as int
    }

    /// The partition's configuration is valid: it was vetted when the
    /// partition was created, so creating a child cannot fail.
    pub closed spec fn wf(self) -> bool {
        labels_ok(self.opts) && buckets_acceptable_of(self.opts)
    }

    /// Creates a partition from options and the variable label names
    /// that every tuple of label values must match, one for one.
    /// Rejects a reserved label name (among the fixed labels or the
    /// given names) and invalid bucket bounds.
    pub fn new(opts: HistogramOpts, label_names: &[&str]) -> (r: Result<HistogramVec, Error>)
        ensures
            r is Ok <==> (forall|i: int|
                0 <= i < label_names@.len() ==> (#[trigger] label_names@[i])@ != "le"@) && (
            forall|i: int|
                0 <= i < opts.const_labels@.len() ==> (#[trigger] opts.const_labels@[i]).0@
                    != "le"@) && buckets_acceptable_of(opts),
            r matches Ok(v) ==> v.wf() && v.spec_children() == Map::<u64, Histogram>::empty()
                && v.spec_arity() == label_names@.len(),
    {
        let ghost opts0: HistogramOpts = opts;
        let mut variable_names: Vec<String> = Vec::new();
        let n: usize = label_names.len();
        let mut i: usize = 0;
        while i < n
            invariant
                i <= n,
                n == label_names@.len(),
                variable_names@.len() == i,
                forall|j: int|
                    0 <= j < i ==> (#[trigger] variable_names@[j])@ == label_names@[j]@,
            decreases n - i,
        {
            variable_names.push(label_names[i].to_owned());
            i = i + 1;
        }
        let opts = opts.variable_labels(variable_names);
        proof {
            assert forall|i: int| 0 <= i < label_names@.len() implies (
            #[trigger] label_names@[i])@ == opts.variable_labels@[i]@ by {
                assert(opts.variable_labels@[i] == variable_names@[i]);
            }
            assert forall|i: int|
                0 <= i < opts.variable_labels@.len() implies (
            #[trigger] opts.variable_labels@[i])@ == label_names@[i]@ by {
                assert(opts.variable_labels@[i] == variable_names@[i]);
            }
            assert(opts.const_labels == opts0.const_labels);
            assert forall|i: int|
                0 <= i < opts0.const_labels@.len() implies (#[trigger] opts0.const_labels@[i])
                == opts.const_labels@[i] by {}
        }
        // Vet the configuration once, so that creating a child later
        // cannot fail: build and discard one histogram with no values.
        match Histogram::with_opts_and_label_values(&opts, &[]) {
            Ok(_) => {},
            Err(e) => {
                return Err(e);
            },
        }
        Ok(HistogramVec { opts, builder: HistogramVecBuilder {  }, children: HashMap::new() })
    }

    /// Computes the key for a tuple of label values, rejecting a tuple
    /// whose length does not match the declared variable labels.
    pub fn hash_label_values(&self, vals: &[&str]) -> (r: Result<u64, Error>)
        ensures
            r is Ok <==> vals@.len() == self.spec_arity(),
            r matches Ok(k) ==> k == label_key(bytes_of_vals(vals@)),
            r is Err ==> r matches Err(Error::InconsistentCardinality { expect: _, got: _ }),
    {
        if vals.len() != self.opts.variable_labels.len() {
            return Err(
                Error::InconsistentCardinality {
                    expect: self.opts.variable_labels.len(),
                    got: vals.len(),
                },
            );
        }
        Ok(hash_values(vals))
    }

    /// The histogram of the given label-value combination, created and
    /// installed on first use: at most one child ever exists per key.
    pub fn with_label_values(&mut self, vals: &[&str]) -> (r: Histogram)
        requires
            old(self).wf(),
            vals@.len() == old(self).spec_arity(),
        ensures
            final (self).wf(),
            final (self).spec_arity() == old(self).spec_arity(),
            ({
                let k = label_key(bytes_of_vals(vals@));
                &&& old(self).spec_children().contains_key(k) ==> final (self).spec_children()
                    == old(self).spec_children() && r == old(self).spec_children()[k]
                &&& !old(self).spec_children().contains_key(k) ==> final (self).spec_children()
                    == old(self).spec_children().insert(k, r)
            }),
    {
        let k: u64 = hash_values(vals);
        let existing = self.children.get(&k);
        match existing {
            Some(h) => h.handle(),
            None => {
                let h: Histogram = match self.builder.build(&self.opts, vals) {
                    Ok(h) => h,
                    Err(_) => {
                        // Unreachable: `wf` says the configuration was
                        // vetted when the partition was created.
                        proof {
                            assert(false);
                        }
                        vstd::pervasive::unreached()
                    },
                };
                let r: Histogram = h.handle();
                self.children.insert(k, h);
                r
            },
        }
    }

    /// Removes the histogram of the given label-value combination.
    /// Errors on a tuple of the wrong length and on a combination that
    /// has no live child.
    pub fn remove_label_values(&mut self, vals: &[&str]) -> (r: Result<(), Error>)
        ensures
            final (self).wf() == old(self).wf(),
            final (self).spec_arity() == old(self).spec_arity(),
            r is Ok <==> vals@.len() == old(self).spec_arity() && old(
                self,
            ).spec_children().contains_key(label_key(bytes_of_vals(vals@))),
            r is Ok ==> final (self).spec_children() == old(self).spec_children().remove(
                label_key(bytes_of_vals(vals@)),
            ),
            r is Err ==> final (self).spec_children() == old(self).spec_children(),
    {
        if vals.len() != self.opts.variable_labels.len() {
            return Err(
                Error::InconsistentCardinality {
                    expect: self.opts.variable_labels.len(),
                    got: vals.len(),
                },
            );
        }
        let k: u64 = hash_values(vals);
        let removed = self.children.remove(&k);
        match removed {
            Some(_) => Ok(()),
            None => Err(Error::Msg(String::from_str("missing label values"))),
        }
    }

    /// The declared number of variable labels.
    pub fn arity(&self) -> (r: usize)
        ensures
            r == self.spec_arity(),
    {
        self.opts.variable_labels.len()
    }

    /// Turns the partition into its thread-confined counterpart, with
    /// an empty local-buffer cache.
    pub fn local(self) -> (r: LocalHistogramVec)
        ensures
            r.spec_vec() == self,
            r.spec_cache().len() == 0,
            self.wf() ==> r.wf(),
    {
        LocalHistogramVec { vec: self, local: Vec::new() }
    }
}

/// The position of the cached buffer for key `k` at position `i` or
/// later, if any.
pub open spec fn cache_find_from(s: Seq<(u64, LocalHistogram)>, k: u64, i: int) -> Option<int>
    decreases s.len() - i,
{
    if i < 0 || i >= s.len() {
        None
    } else if s[i].0 == k {
        Some(i)
    } else {
        cache_find_from(s, k, i + 1)
    }
}

/// The position of the cached buffer for key `k`: the one entry with
/// that key, if cached.
pub open spec fn cache_find(s: Seq<(u64, LocalHistogram)>, k: u64) -> Option<int> {
    cache_find_from(s, k, 0)
}

/// `cache_find` names the unique position with key `k`, or none exactly
/// when no entry has it.
pub proof fn lemma_cache_find(s: Seq<(u64, LocalHistogram)>, k: u64, i: int)
    requires
        0 <= i <= s.len(),
        forall|j: int| 0 <= j < i ==> (#[trigger] s[j]).0 != k,
    ensures
        cache_find(s, k) == cache_find_from(s, k, i),
        cache_find_from(s, k, i) matches Some(j) ==> i <= j < s.len() && s[j].0 == k,
        cache_find_from(s, k, i) is None ==> forall|j: int| 0 <= j < s.len() ==> (#[trigger] s[j]).0 != k,
    decreases i,
{
    if i > 0 {
        lemma_cache_find(s, k, i - 1);
        lemma_cache_find_step(s, k, i);
    } else {
        lemma_cache_find_step(s, k, 0);
    }
}

proof fn lemma_cache_find_step(s: Seq<(u64, LocalHistogram)>, k: u64, i: int)
    requires
        0 <= i <= s.len(),
    ensures
        cache_find_from(s, k, i) matches Some(j) ==> i <= j < s.len() && s[j].0 == k,
        cache_find_from(s, k, i) is None ==> forall|j: int| i <= j < s.len() ==> (#[trigger] s[j]).0 != k,
    decreases s.len() - i,
{
    if i < s.len() && s[i].0 != k {
        lemma_cache_find_step(s, k, i + 1);
    }
}

/// A thread-confined partition: the shared partition plus a cache of
/// one local buffer per label-value combination seen so far.  Removing
/// a combination evicts its cached buffer, so a later lookup re-creates
/// it against a fresh child.
pub struct LocalHistogramVec {
    vec: HistogramVec,
    local: Vec<(u64, LocalHistogram)>,
}

impl LocalHistogramVec {
    /// The underlying shared partition.
    pub closed spec fn spec_vec(self) -> HistogramVec {
        self.vec
    }

    /// The cached local buffers, in the order first used.
    pub closed spec fn spec_cache(self) -> Seq<(u64, LocalHistogram)> {
        self.local@
    }

    /// Well-formedness: the partition is valid; every cached buffer is,
    /// each under a distinct key; and every cached key has a live child
    /// in the shared partition.
    pub closed spec fn wf(self) -> bool {
        &&& self.vec.wf()
        &&& forall|i: int| 0 <= i < self.local@.len() ==> (#[trigger] self.local@[i]).1.wf()
        &&& forall|i: int, j: int|
            0 <= i < j < self.local@.len() ==> (#[trigger] self.local@[i]).0 != (
            #[trigger] self.local@[j]).0
        &&& forall|i: int|
            0 <= i < self.local@.len() ==> self.vec.spec_children().contains_key(
                (#[trigger] self.local@[i]).0,
            )
    }

    /// The local buffer of the given label-value combination.  On a
    /// cache hit the cached buffer itself is handed out and nothing
    /// else changes; on a miss a fresh, empty buffer is cached under
    /// the combination's key, bound to the combination's shared child
    /// (created now if it did not exist yet, as
    /// `HistogramVec::with_label_values`): at most one buffer and one
    /// child ever exist per key.
    pub fn with_label_values(&mut self, vals: &[&str]) -> (r: &mut LocalHistogram)
        requires
            old(self).wf(),
            vals@.len() == old(self).spec_vec().spec_arity(),
        ensures
            r.wf(),
            final (r).wf() ==> final (self).wf(),
            final (self).spec_vec().spec_arity() == old(self).spec_vec().spec_arity(),
            ({
                let k = label_key(bytes_of_vals(vals@));
                match cache_find(old(self).spec_cache(), k) {
                    Some(j) => {
                        &&& *r == old(self).spec_cache()[j].1
                        &&& final (self).spec_cache() == old(self).spec_cache().update(
                            j,
                            (k, *final (r)),
                        )
                        &&& final (self).spec_vec() == old(self).spec_vec()
                    },
                    None => {
                        &&& r.spec_core().spec_count() == 0
                        &&& r.spec_core().spec_sum() == crate::binary64::POS_ZERO
                        &&& final (self).spec_cache() == old(self).spec_cache().push(
                            (k, *final (r)),
                        )
                        &&& old(self).spec_vec().spec_children().contains_key(k)
                            ==> r.spec_core().spec_histogram() == old(self).spec_vec()
                            .spec_children()[k] && final (self).spec_vec().spec_children()
                            == old(self).spec_vec().spec_children()
                        &&& !old(self).spec_vec().spec_children().contains_key(k)
                            ==> final (self).spec_vec().spec_children() == old(self).spec_vec()
                            .spec_children().insert(k, r.spec_core().spec_histogram())
                    },
                }
            }),
    {
        let k: u64 = hash_values(vals);
        let n: usize = self.local.len();
        let mut i: usize = 0;
        while i < n && self.local[i].0 != k
            invariant
                i <= n,
                n == self.local@.len(),
                self == old(self),
                forall|j: int| 0 <= j < i ==> (#[trigger] self.local@[j]).0 != k,
            decreases n - i,
        {
            i = i + 1;
        }
        proof {
            lemma_cache_find(old(self).local@, k, i as int);
        }
        let idx: usize = if i < n {
            i
        } else {
            let h: Histogram = self.vec.with_label_values(vals);
            let buf: LocalHistogram = h.local();
            self.local.push((k, buf));
            self.local.len() - 1
        };
        let entry = &mut self.local[idx];
        &mut entry.1
    }

    /// Removes the combination's shared child, as
    /// `HistogramVec::remove_label_values`, and evicts its cached local
    /// buffer; an error changes nothing.
    pub fn remove_label_values(&mut self, vals: &[&str]) -> (r: Result<(), Error>)
        requires
            old(self).wf(),
        ensures
            final (self).wf(),
            final (self).spec_vec().spec_arity() == old(self).spec_vec().spec_arity(),
            r is Ok <==> vals@.len() == old(self).spec_vec().spec_arity() && old(
                self,
            ).spec_vec().spec_children().contains_key(label_key(bytes_of_vals(vals@))),
            r is Ok ==> final (self).spec_vec().spec_children() == old(
                self,
            ).spec_vec().spec_children().remove(label_key(bytes_of_vals(vals@))),
            r is Ok ==> final (self).spec_cache() == (match cache_find(
                old(self).spec_cache(),
                label_key(bytes_of_vals(vals@)),
            ) {
                Some(j) => old(self).spec_cache().remove(j),
                None => old(self).spec_cache(),
            }),
            r is Ok ==> (forall|i: int|
                0 <= i < final (self).spec_cache().len() ==> (#[trigger] final (self)
                    .spec_cache()[i]).0 != label_key(bytes_of_vals(vals@))),
            r is Err ==> final (self).spec_cache() == old(self).spec_cache(),
            r is Err ==> final (self).spec_vec().spec_children() == old(
                self,
            ).spec_vec().spec_children(),
    {
        // The arity check comes first: a tuple of the wrong length
        // changes nothing, even when its key collides with a cached one.
        if vals.len() != self.vec.arity() {
            proof {
                lemma_cache_find(old(self).local@, label_key(bytes_of_vals(vals@)), 0);
            }
            return Err(
                Error::InconsistentCardinality { expect: self.vec.arity(), got: vals.len() },
            );
        }
        let k: u64 = hash_values(vals);
        let n: usize = self.local.len();
        let mut i: usize = 0;
        while i < n && self.local[i].0 != k
            invariant
                i <= n,
                n == self.local@.len(),
                self == old(self),
                forall|j: int| 0 <= j < i ==> (#[trigger] self.local@[j]).0 != k,
            decreases n - i,
        {
            i = i + 1;
        }
        proof {
            lemma_cache_find(old(self).local@, k, i as int);
        }
        let idx: usize = i;
        if idx < n {
            self.local.remove(idx);
        }
        proof {
            assert forall|x: int, y: int|
                0 <= x < y < self.local@.len() implies (#[trigger] self.local@[x]).0 != (
            #[trigger] self.local@[y]).0 by {
                if idx < n {
                    assert(old(self).local@[if x < idx {
                        x
                    } else {
                        x + 1
                    }] == self.local@[x]);
                    assert(old(self).local@[if y < idx {
                        y
                    } else {
                        y + 1
                    }] == self.local@[y]);
                }
            }
        }
        self.vec.remove_label_values(vals)
    }

    /// Flushes every cached local buffer into its shared child.  The
    /// cache keeps its entries: same keys, same backing children, all
    /// pending counts now zero; the shared partition's map is unchanged.
    pub fn flush(&mut self)
        requires
            old(self).wf(),
        ensures
            final (self).wf(),
            final (self).spec_vec() == old(self).spec_vec(),
            final (self).spec_cache().len() == old(self).spec_cache().len(),
            forall|i: int|
                0 <= i < final (self).spec_cache().len() ==> (#[trigger] final (self)
                    .spec_cache()[i]).0 == old(self).spec_cache()[i].0,
            forall|i: int|
                0 <= i < final (self).spec_cache().len() ==> (#[trigger] final (self)
                    .spec_cache()[i]).1.spec_core().spec_histogram() == old(
                    self,
                ).spec_cache()[i].1.spec_core().spec_histogram(),
            forall|i: int|
                0 <= i < final (self).spec_cache().len() ==> (#[trigger] final (self)
                    .spec_cache()[i]).1.spec_core().spec_count() == 0,
    {
        let n: usize = self.local.len();
        let mut i: usize = 0;
        while i < n
            invariant
                i <= n,
                n == self.local@.len(),
                self.vec == old(self).vec,
                forall|j: int| 0 <= j < n ==> (#[trigger] self.local@[j]).1.wf(),
                forall|x: int, y: int|
                    0 <= x < y < n ==> (#[trigger] self.local@[x]).0 != (
                    #[trigger] self.local@[y]).0,
                forall|j: int| 0 <= j < n ==> (#[trigger] self.local@[j]).0 == old(self).local@[j].0,
                forall|j: int|
                    0 <= j < n ==> (#[trigger] self.local@[j]).1.spec_core().spec_histogram()
                        == old(self).local@[j].1.spec_core().spec_histogram(),
                forall|j: int|
                    0 <= j < i ==> (#[trigger] self.local@[j]).1.spec_core().spec_count() == 0,
            decreases n - i,
        {
            let entry = &mut self.local[i];
            entry.1.flush();
            i = i + 1;
        }
    }
}

} // verus!
