//! Lock-free shared numeric cells: a `u64` counter with an atomic add,
//! and a binary64 accumulator simulated with a compare-and-swap retry
//! loop over the bit pattern.
//!
//! A cell may be written by any number of threads at once, so nothing can
//! be promised about the value a read returns; every function that
//! consumes a value read from a cell is verified for all possible values.
//! The three wrappers at the top each hold one atomic operation of std;
//! they restate, beyond what vstd's specifications carry, only that the
//! operation neither panics nor unwinds, so that the scope-exit actions
//! that run inside `drop` can call them.

use vstd::prelude::*;

use std::sync::atomic::AtomicU64;
use std::sync::atomic::Ordering;

use crate::binary64::b64_add;

verus! {

/// Relies on `AtomicU64::load` (acquire ordering), which std documents
/// as infallible; the value depends on concurrent writers.
#[verifier::external_body]
fn atomic_load(a: &AtomicU64) -> u64
    opens_invariants none
    no_unwind
{
    a.load(Ordering::Acquire)
}

/// Relies on `AtomicU64::fetch_add` (relaxed ordering), which std
/// documents as an infallible wrapping atomic add.
#[verifier::external_body]
fn atomic_fetch_add(a: &AtomicU64, delta: u64)
    opens_invariants none
    no_unwind
{
    a.fetch_add(delta, Ordering::Relaxed);
}

/// Relies on `AtomicU64::compare_exchange_weak` (acquire-release on
/// success, acquire on failure), which std documents as infallible: the
/// result tells whether the stored value was `cur` and got replaced by
/// `next`, and carries the value seen.
#[verifier::external_body]
fn atomic_compare_exchange_weak(a: &AtomicU64, cur: u64, next: u64) -> Result<u64, u64>
    opens_invariants none
    no_unwind
{
    a.compare_exchange_weak(cur, next, Ordering::AcqRel, Ordering::Acquire)
}

/// A shared monotone `u64` counter.
pub struct AtomicCounter {
    inner: AtomicU64,
}

impl AtomicCounter {
    /// A fresh counter holding `v`.
    pub fn new(v: u64) -> AtomicCounter {
        AtomicCounter { inner: AtomicU64::new(v) }
    }

    /// The current value; concurrent writers may change it at any time.
    pub fn get(&self) -> u64
        opens_invariants none
        no_unwind
    {
        atomic_load(&self.inner)
    }

    /// Atomically adds `delta` (wrapping on overflow, as the underlying
    /// atomic add does): no update is ever lost.
    pub fn inc_by(&self, delta: u64)
        opens_invariants none
        no_unwind
    {
        atomic_fetch_add(&self.inner, delta);
    }
}

/// A shared binary64 accumulator: the cell holds the bit pattern of the
/// running sum.  No native atomic add exists for binary64 values, so the
/// add is a compare-and-swap retry loop that recomputes the sum from the
/// latest value until the swap wins; every committed add is reflected
/// exactly once.
pub struct AtomicSum {
    inner: AtomicU64,
}

impl AtomicSum {
    /// A fresh accumulator holding the value whose bit pattern is `bits`.
    pub fn new(bits: u64) -> AtomicSum {
        AtomicSum { inner: AtomicU64::new(bits) }
    }

    /// The bit pattern of the current sum; concurrent writers may change
    /// it at any time.
    pub fn get(&self) -> u64
        opens_invariants none
        no_unwind
    {
        atomic_load(&self.inner)
    }

    /// Atomically adds the value whose bit pattern is `v` to the sum.
    /// The retry loop is bounded only by contention; the loop counter
    /// exists to satisfy the termination lint and cannot run out under
    /// any realistic schedule.
    pub fn inc_by(&self, v: u64)
        opens_invariants none
        no_unwind
    {
        let mut cur: u64 = atomic_load(&self.inner);
        let mut tries: u64 = 0;
        while tries < u64::MAX
            decreases u64::MAX - tries,
        {
            let next: u64 = b64_add(cur, v);
            let swapped = atomic_compare_exchange_weak(&self.inner, cur, next);
            match swapped {
                Ok(_) => {
                    return ;
                },
                Err(now) => {
                    cur = now;
                },
            }
            tries = tries + 1;
        }
    }
}

} // verus!
