//! Bucket bounds: validation and adjustment, the default bound set, the
//! linear and exponential bound generators, bucket selection for an
//! observed value, and the cumulative snapshot computation.

use vstd::prelude::*;

use crate::binary64::{
    add_bits, b64_add, b64_from_u64, b64_is_nan, b64_le, b64_mul, from_u64_bits, is_nan, le_bits,
    lt_bits, mul_bits, ONE_BITS, POS_INF, POS_ZERO,
};
use crate::errors::Error;

verus! {

/// The label name reserved for the upper bound of a bucket in exported
/// form ("le": less or equal).
pub const BUCKET_LABEL: &'static str = "le";

/// Rejects the reserved bucket label name.
pub fn check_bucket_label(label: &str) -> (r: Result<(), Error>)
    ensures
        r is Ok <==> label@ != BUCKET_LABEL@,
        r is Err ==> r->Err_0 is Msg,
{
    if label.to_owned() == String::from_str(BUCKET_LABEL) {
        Err(Error::Msg(String::from_str("`le` is not allowed as label name in histograms")))
    } else {
        Ok(())
    }
}

/// IEEE `a >= b` on bit patterns.
pub open spec fn ge_bits(a: u64, b: u64) -> bool {
    le_bits(b, a)
}

/// The default bucket bounds, as bit patterns: the eleven values
/// 0.005, 0.01, 0.025, 0.05, 0.1, 0.25, 0.5, 1.0, 2.5, 5.0 and 10.0,
/// tuned for measuring sub-10-second response times in seconds.
pub open spec fn default_buckets_seq() -> Seq<u64> {
    seq![
        0x3F74_7AE1_47AE_147Bu64,
        0x3F84_7AE1_47AE_147Bu64,
        0x3F99_9999_9999_999Au64,
        0x3FA9_9999_9999_999Au64,
        0x3FB9_9999_9999_999Au64,
        0x3FD0_0000_0000_0000u64,
        0x3FE0_0000_0000_0000u64,
        0x3FF0_0000_0000_0000u64,
        0x4004_0000_0000_0000u64,
        0x4014_0000_0000_0000u64,
        0x4024_0000_0000_0000u64,
    ]
}

/// The default bucket bounds used when a histogram is configured with an
/// empty bound list.
pub fn default_buckets() -> (r: Vec<u64>)
    ensures
        r@ == default_buckets_seq(),
{
    let r: Vec<u64> = vec![
        0x3F74_7AE1_47AE_147Bu64,
        0x3F84_7AE1_47AE_147Bu64,
        0x3F99_9999_9999_999Au64,
        0x3FA9_9999_9999_999Au64,
        0x3FB9_9999_9999_999Au64,
        0x3FD0_0000_0000_0000u64,
        0x3FE0_0000_0000_0000u64,
        0x3FF0_0000_0000_0000u64,
        0x4004_0000_0000_0000u64,
        0x4014_0000_0000_0000u64,
        0x4024_0000_0000_0000u64,
    ];
    proof {
        assert(r@ =~= default_buckets_seq());
    }
    r
}

/// Whether some adjacent pair of bounds fails the strictly-increasing
/// requirement.
pub open spec fn bounds_violation(b: Seq<u64>) -> bool {
    exists|i: int| 0 <= i < b.len() - 1 && #[trigger] ge_bits(b[i], b[i + 1])
}

/// Whether some bound is a NaN.  A NaN bound cannot stand in a strictly
/// increasing list (no IEEE comparison orders it), so it is rejected.
pub open spec fn has_nan_bound(b: Seq<u64>) -> bool {
    exists|i: int| 0 <= i < b.len() && is_nan(#[trigger] b[i])
}

/// Whether a configured bound list is acceptable: after the empty list
/// is replaced by the default bounds, no bound is NaN, every bound is
/// below its successor, and at least one finite bound remains once a
/// trailing positive infinity is dropped.
pub open spec fn buckets_acceptable(b: Seq<u64>) -> bool {
    &&& !has_nan_bound(effective_buckets(b))
    &&& !bounds_violation(effective_buckets(b))
    &&& drop_trailing_inf(effective_buckets(b)).len() >= 1
}

/// The bound list with a trailing explicit positive infinity removed:
/// the unbounded bucket is implicit.
pub open spec fn drop_trailing_inf(b: Seq<u64>) -> Seq<u64> {
    if b.len() > 0 && b.last() == POS_INF {
        b.drop_last()
    } else {
        b
    }
}

/// An empty bound list stands for the default bounds.
pub open spec fn effective_buckets(b: Seq<u64>) -> Seq<u64> {
    if b.len() == 0 {
        default_buckets_seq()
    } else {
        b
    }
}

/// Validates and adjusts a bucket bound list: an empty list is replaced
/// by the default bounds; a NaN bound or a bound that is not below its
/// successor is a configuration error; a trailing positive infinity is
/// dropped, and a list with no finite bound left is a configuration
/// error too, so an accepted bound set is a nonempty, strictly
/// increasing, NaN-free list.
#[verifier::loop_isolation(false)]
pub fn check_and_adjust_buckets(buckets: Vec<u64>) -> (r: Result<Vec<u64>, Error>)
    ensures
        r is Ok <==> buckets_acceptable(buckets@),
        r is Ok ==> r->Ok_0@ == drop_trailing_inf(effective_buckets(buckets@)),
        r is Ok ==> r->Ok_0@.len() >= 1,
        r is Ok ==> (forall|i: int| 0 <= i < r->Ok_0@.len() ==> !is_nan(#[trigger] r->Ok_0@[i])),
        r is Ok ==> (forall|i: int|
            0 <= i < r->Ok_0@.len() - 1 ==> lt_bits(#[trigger] r->Ok_0@[i], r->Ok_0@[i + 1])),
        r is Err ==> r->Err_0 is Msg,
{
    let ghost orig: Seq<u64> = buckets@;
    let mut buckets: Vec<u64> = buckets;
    if buckets.len() == 0 {
        buckets = default_buckets();
    }
    assert(buckets@ == effective_buckets(orig));
    let n: usize = buckets.len();
    assert(n >= 1);
    let mut i: usize = 0;
    while i < n
        invariant
            n == buckets@.len(),
            n >= 1,
            buckets@ == effective_buckets(orig),
            i <= n,
            forall|j: int| 0 <= j < i ==> !is_nan(#[trigger] buckets@[j]),
        decreases n - i,
    {
        if b64_is_nan(buckets[i]) {
            return Err(Error::Msg(String::from_str("histogram buckets must not be NaN")));
        }
        i = i + 1;
    }
    let mut i: usize = 0;
    while i < n - 1
        invariant
            n == buckets@.len(),
            n >= 1,
            buckets@ == effective_buckets(orig),
            i <= n - 1,
            forall|j: int| 0 <= j < i ==> !(#[trigger] ge_bits(buckets@[j], buckets@[j + 1])),
        decreases n - i,
    {
        if b64_le(buckets[i + 1], buckets[i]) {
            proof {
                assert(ge_bits(effective_buckets(orig)[i as int], effective_buckets(orig)[i as int
                    + 1]));
            }
            return Err(
                Error::Msg(String::from_str("histogram buckets must be in increasing order")),
            );
        }
        i = i + 1;
    }
    let tail: u64 = buckets[n - 1];
    if tail == POS_INF {
        buckets.pop();
        assert(buckets@ =~= drop_trailing_inf(effective_buckets(orig)));
    }
    if buckets.len() == 0 {
        return Err(
            Error::Msg(String::from_str("histogram needs at least one finite bucket bound")),
        );
    }
    proof {
        assert forall|j: int| 0 <= j < buckets@.len() - 1 implies lt_bits(
            #[trigger] buckets@[j],
            buckets@[j + 1],
        ) by {
            assert(buckets@[j] == effective_buckets(orig)[j]);
            assert(buckets@[j + 1] == effective_buckets(orig)[j + 1]);
            assert(!ge_bits(effective_buckets(orig)[j], effective_buckets(orig)[j + 1]));
            assert(!is_nan(effective_buckets(orig)[j]) && !is_nan(effective_buckets(orig)[j + 1]));
        }
    }
    Ok(buckets)
}

/// The index of the first bound at position `i` or later that the value
/// `v` fits under, if any.
pub open spec fn bucket_index_from(bounds: Seq<u64>, v: u64, i: int) -> Option<int>
    decreases bounds.len() - i,
{
    if i < 0 || i >= bounds.len() {
        None
    } else if le_bits(v, bounds[i]) {
        Some(i)
    } else {
        bucket_index_from(bounds, v, i + 1)
    }
}

/// The bucket an observed value is counted in: the first (least) bound
/// the value is less than or equal to, or none if the value fits under
/// no finite bound and is credited only to the implicit unbounded bucket.
pub open spec fn bucket_index(bounds: Seq<u64>, v: u64) -> Option<int> {
    bucket_index_from(bounds, v, 0)
}

/// Law: an observed value is counted in exactly one finite bucket, the
/// least whose bound admits it; it is counted in none exactly when no
/// finite bound admits it (as for NaN, or a value above every bound).
/// `observe` updates the bucket `bucket_index` names, so this pins the
/// bucket every observation lands in.
pub proof fn lemma_observe_targets_least_bucket(bounds: Seq<u64>, v: u64)
    ensures
        match bucket_index(bounds, v) {
            Some(i) => 0 <= i < bounds.len() && le_bits(v, bounds[i]) && (forall|j: int|
                0 <= j < i ==> !le_bits(v, bounds[j])),
            None => forall|j: int| 0 <= j < bounds.len() ==> !le_bits(v, bounds[j]),
        },
{
    lemma_bucket_index_characterization(bounds, v, 0);
}

/// `bucket_index` picks exactly the least index whose bound admits the
/// value, and picks none exactly when no bound admits it.
pub proof fn lemma_bucket_index_characterization(bounds: Seq<u64>, v: u64, i: int)
    requires
        0 <= i <= bounds.len(),
        forall|j: int| 0 <= j < i ==> !le_bits(v, bounds[j]),
    ensures
        bucket_index(bounds, v) == bucket_index_from(bounds, v, i),
        bucket_index_from(bounds, v, i) matches Some(k) ==> i <= k < bounds.len() && le_bits(
            v,
            bounds[k],
        ) && (forall|j: int| 0 <= j < k ==> !le_bits(v, bounds[j])),
        bucket_index_from(bounds, v, i) is None ==> forall|j: int|
            0 <= j < bounds.len() ==> !le_bits(v, bounds[j]),
    decreases i,
{
    if i > 0 {
        lemma_bucket_index_characterization(bounds, v, i - 1);
        lemma_bucket_index_step(bounds, v, i);
    } else {
        lemma_bucket_index_step(bounds, v, 0);
    }
}

proof fn lemma_bucket_index_step(bounds: Seq<u64>, v: u64, i: int)
    requires
        0 <= i <= bounds.len(),
    ensures
        bucket_index_from(bounds, v, i) matches Some(k) ==> i <= k < bounds.len() && le_bits(
            v,
            bounds[k],
        ) && (forall|j: int| i <= j < k ==> !le_bits(v, bounds[j])),
        bucket_index_from(bounds, v, i) is None ==> forall|j: int|
            i <= j < bounds.len() ==> !le_bits(v, bounds[j]),
    decreases bounds.len() - i,
{
    if i < bounds.len() && !le_bits(v, bounds[i]) {
        lemma_bucket_index_step(bounds, v, i + 1);
    }
}

/// Finds the bucket for an observed value: the least index whose bound
/// the value is less than or equal to.
pub fn find_bucket(bounds: &Vec<u64>, v: u64) -> (r: Option<usize>)
    ensures
        r matches Some(u) ==> u < bounds@.len() && bucket_index(bounds@, v) == Some(u as int),
        r is None ==> bucket_index(bounds@, v) is None,
{
    let n: usize = bounds.len();
    let mut i: usize = 0;
    while i < n
        invariant
            n == bounds@.len(),
            i <= n,
            forall|j: int| 0 <= j < i ==> !le_bits(v, bounds@[j]),
        decreases n - i,
    {
        if b64_le(v, bounds[i]) {
            proof {
                lemma_bucket_index_characterization(bounds@, v, i as int);
            }
            return Some(i);
        }
        i = i + 1;
    }
    proof {
        lemma_bucket_index_characterization(bounds@, v, n as int);
    }
    None
}

/// The sequence of linear bucket bounds: `start + width * i`.
pub open spec fn linear_bucket(start: u64, width: u64, i: int) -> u64 {
    add_bits(start, mul_bits(width, from_u64_bits(i as u64)))
}

/// Creates `count` bucket bounds, each `width` apart, the lowest at
/// `start`.  Errors when `count` is zero or `width` is not positive.
pub fn linear_buckets(start: u64, width: u64, count: usize) -> (r: Result<Vec<u64>, Error>)
    ensures
        r is Ok <==> count >= 1 && !le_bits(width, POS_ZERO),
        r is Ok ==> r->Ok_0@.len() == count && (forall|i: int|
            0 <= i < count ==> r->Ok_0@[i] == linear_bucket(start, width, i)),
        r is Err ==> r->Err_0 is Msg,
{
    if count < 1 {
        return Err(Error::Msg(String::from_str("LinearBuckets needs a positive count")));
    }
    if b64_le(width, POS_ZERO) {
        return Err(Error::Msg(String::from_str("LinearBuckets needs a width greater then 0")));
    }
    let mut buckets: Vec<u64> = Vec::new();
    let mut i: usize = 0;
    while i < count
        invariant
            i <= count,
            buckets@.len() == i,
            forall|j: int| 0 <= j < i ==> buckets@[j] == linear_bucket(start, width, j),
        decreases count - i,
    {
        let step: u64 = b64_from_u64(i as u64);
        buckets.push(b64_add(start, b64_mul(width, step)));
        i = i + 1;
    }
    Ok(buckets)
}

/// The sequence of exponential bucket bounds: `start * factor^i`,
/// accumulated by repeated multiplication as the bounds are produced.
pub open spec fn exponential_bucket(start: u64, factor: u64, i: int) -> u64
    decreases i,
{
    if i <= 0 {
        start
    } else {
        mul_bits(exponential_bucket(start, factor, i - 1), factor)
    }
}

/// Creates `count` bucket bounds, the lowest at `start`, each the
/// previous times `factor`.  Errors when `count` is zero, `start` is not
/// positive, or `factor` is not above one.
pub fn exponential_buckets(start: u64, factor: u64, count: usize) -> (r: Result<Vec<u64>, Error>)
    ensures
        r is Ok <==> count >= 1 && !le_bits(start, POS_ZERO) && !le_bits(factor, ONE_BITS),
        r is Ok ==> r->Ok_0@.len() == count && (forall|i: int|
            0 <= i < count ==> r->Ok_0@[i] == exponential_bucket(start, factor, i)),
        r is Err ==> r->Err_0 is Msg,
{
    if count < 1 {
        return Err(Error::Msg(String::from_str("exponential_buckets needs a positive count")));
    }
    if b64_le(start, POS_ZERO) {
        return Err(
            Error::Msg(String::from_str("exponential_buckets needs a positive start value")),
        );
    }
    if b64_le(factor, ONE_BITS) {
        return Err(
            Error::Msg(String::from_str("exponential_buckets needs a factor greater than 1")),
        );
    }
    let mut next: u64 = start;
    let mut buckets: Vec<u64> = Vec::new();
    let mut i: usize = 0;
    while i < count
        invariant
            i <= count,
            buckets@.len() == i,
            next == exponential_bucket(start, factor, i as int),
            forall|j: int| 0 <= j < i ==> buckets@[j] == exponential_bucket(start, factor, j),
        decreases count - i,
    {
        buckets.push(next);
        next = b64_mul(next, factor);
        i = i + 1;
    }
    Ok(buckets)
}

/// Addition on `u64` counters that sticks at the maximum instead of
/// wrapping, so that counts never move backwards.
pub open spec fn sat_add(a: u64, b: u64) -> u64 {
    if a + b > u64::MAX {
        u64::MAX
    } else {
        (a + b) as u64
    }
}

/// The cumulative count at bucket `i`: the saturating sum of the
/// per-bucket counts up to and including `i`.
pub open spec fn cum_count(counts: Seq<u64>, i: int) -> u64
    decreases i + 1,
{
    if i < 0 || i >= counts.len() {
        0
    } else {
        sat_add(cum_count(counts, i - 1), counts[i])
    }
}

/// The mathematical sum of a sequence of counters.
pub open spec fn seq_sum(counts: Seq<u64>) -> int
    decreases counts.len(),
{
    if counts.len() == 0 {
        0
    } else {
        seq_sum(counts.drop_last()) + counts.last()
    }
}

/// Turns per-bucket counts into the exported cumulative form: entry `i`
/// is the running prefix sum of the counts up to and including bucket
/// `i`.
pub fn cumulative_counts(counts: &Vec<u64>) -> (r: Vec<u64>)
    ensures
        r@.len() == counts@.len(),
        forall|i: int| 0 <= i < r@.len() ==> r@[i] == cum_count(counts@, i),
{
    let n: usize = counts.len();
    let mut r: Vec<u64> = Vec::new();
    let mut acc: u64 = 0;
    let mut i: usize = 0;
    while i < n
        invariant
            n == counts@.len(),
            i <= n,
            r@.len() == i,
            acc == cum_count(counts@, i - 1),
            forall|j: int| 0 <= j < i ==> r@[j] == cum_count(counts@, j),
        decreases n - i,
    {
        let c: u64 = counts[i];
        acc = if acc <= u64::MAX - c {
            acc + c
        } else {
            u64::MAX
        };
        r.push(acc);
        i = i + 1;
    }
    r
}

/// Updating one counter changes the sum by exactly the difference.
pub proof fn lemma_seq_sum_update(s: Seq<u64>, i: int, x: u64)
    requires
        0 <= i < s.len(),
    ensures
        seq_sum(s.update(i, x)) == seq_sum(s) - s[i] + x,
    decreases s.len(),
{
    if i == s.len() - 1 {
        assert(s.update(i, x).drop_last() =~= s.drop_last());
        assert(s.update(i, x).last() == x);
    } else {
        lemma_seq_sum_update(s.drop_last(), i, x);
        assert(s.update(i, x).drop_last() =~= s.drop_last().update(i, x));
        assert(s.update(i, x).last() == s.last());
    }
}

/// A sequence of zeros sums to zero.
pub proof fn lemma_seq_sum_zero(s: Seq<u64>)
    requires
        forall|i: int| 0 <= i < s.len() ==> s[i] == 0,
    ensures
        seq_sum(s) == 0,
    decreases s.len(),
{
    if s.len() > 0 {
        lemma_seq_sum_zero(s.drop_last());
    }
}

/// Every counter contributes non-negatively.
pub proof fn lemma_seq_sum_nonneg(s: Seq<u64>)
    ensures
        seq_sum(s) >= 0,
    decreases s.len(),
{
    if s.len() > 0 {
        lemma_seq_sum_nonneg(s.drop_last());
    }
}

/// Cumulative counts never decrease from one bucket to the next.
pub proof fn lemma_cumulative_monotone(counts: Seq<u64>, i: int, j: int)
    requires
        0 <= i <= j < counts.len(),
    ensures
        cum_count(counts, i) <= cum_count(counts, j),
    decreases j - i,
{
    if i < j {
        lemma_cumulative_monotone(counts, i, j - 1);
    }
}

/// When the per-bucket counts do not overflow, the last cumulative count
/// is exactly their sum.
pub proof fn lemma_cumulative_last_exact(counts: Seq<u64>)
    requires
        seq_sum(counts) <= u64::MAX,
    ensures
        cum_count(counts, counts.len() - 1) == seq_sum(counts),
        seq_sum(counts) >= 0,
    decreases counts.len(),
{
    if counts.len() > 0 {
        lemma_cumulative_last_exact(counts.drop_last());
        assert(cum_count(counts, counts.len() - 1) == sat_add(
            cum_count(counts, counts.len() - 2),
            counts.last(),
        ));
        assert(cum_count(counts.drop_last(), counts.len() - 2) == cum_count(
            counts,
            counts.len() - 2,
        )) by {
            lemma_cum_drop_last(counts, counts.len() - 2);
        }
    }
}

proof fn lemma_cum_drop_last(counts: Seq<u64>, i: int)
    requires
        i < counts.len() - 1,
    ensures
        cum_count(counts.drop_last(), i) == cum_count(counts, i),
    decreases i + 1,
{
    if i >= 0 {
        lemma_cum_drop_last(counts, i - 1);
    }
}

/// Law: the last cumulative snapshot value never exceeds the total
/// count, and equals it exactly when every observation fell under some
/// finite bound.  `total` is the total observation count and
/// `seq_sum(counts)` the number of observations credited to finite
/// buckets.
pub proof fn lemma_cumulative_le_total(counts: Seq<u64>, total: u64)
    requires
        seq_sum(counts) <= total,
    ensures
        cum_count(counts, counts.len() - 1) <= total,
        seq_sum(counts) == total ==> cum_count(counts, counts.len() - 1) == total,
{
    lemma_seq_sum_nonneg(counts);
    lemma_cumulative_last_exact(counts);
}

} // verus!
