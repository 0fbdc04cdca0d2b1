//! The monotonic clock behind scoped timers, and the conversion from an
//! elapsed duration to seconds.
//!
//! The operating system's coarse monotonic clock needs an unsafe foreign
//! call, so it cannot be read here; timers started in coarse mode fall
//! back to the regular monotonic clock.  The pure millisecond arithmetic
//! for coarse readings taken elsewhere is `coarse_elapsed_millis`.

use vstd::prelude::*;

use crate::binary64::{
    add_bits, b64_add, b64_div, b64_from_u64, div_bits, from_u64_bits, is_nan,
    lemma_add_bits_nonneg, lemma_add_bits_not_nan, lemma_div_bits_nonneg, lemma_div_bits_not_nan,
    lemma_from_u64_encodes_number, lemma_from_u64_nonneg, sign_of,
};

verus! {

#[verifier::external_type_specification]
#[verifier::external_body]
pub struct ExInstant(std::time::Instant);

/// Relies on std's `Instant::now`: a reading of the monotonic clock.
/// Nothing can be promised about the value.
#[verifier::external_body]
fn read_clock() -> std::time::Instant {
    std::time::Instant::now()
}

/// Relies on std's `Instant::elapsed`: the time since the reading was
/// taken.  Nothing can be promised about the value; std documents no
/// panic (a reading older than the clock saturates to zero), so timers
/// may call this while they are dropped.
#[verifier::external_body]
fn read_elapsed(start: &std::time::Instant) -> std::time::Duration
    opens_invariants none
    no_unwind
{
    start.elapsed()
}

/// Relies on std's `Duration::as_secs`: the whole-second part; a pure
/// accessor that cannot panic.
#[verifier::external_body]
fn whole_seconds(d: &std::time::Duration) -> u64
    opens_invariants none
    no_unwind
{
    d.as_secs()
}

/// Relies on std's `Duration::subsec_nanos`: the fractional part in
/// nanoseconds, which std documents to be below one billion; a pure
/// accessor that cannot panic.
#[verifier::external_body]
fn fractional_nanos(d: &std::time::Duration) -> (r: u32)
    ensures
        r < 1_000_000_000,
    opens_invariants none
    no_unwind
{
    d.subsec_nanos()
}

/// A reading of the monotonic clock, for a timer's start.
pub fn now_monotonic() -> std::time::Instant {
    read_clock()
}

/// The number of seconds a duration of `secs` whole seconds and `nanos`
/// fractional nanoseconds spans, as a binary64 bit pattern: the nanosecond
/// part divided by one billion, added to the whole seconds.
pub open spec fn seconds_bits(secs: u64, nanos: u32) -> u64 {
    add_bits(
        from_u64_bits(secs),
        div_bits(from_u64_bits(nanos as u64), from_u64_bits(1_000_000_000)),
    )
}

/// Law: an elapsed time converted to seconds never carries the sign
/// bit — it is never below positive zero — and is never a NaN.
pub proof fn lemma_seconds_nonneg(secs: u64, nanos: u32)
    ensures
        !sign_of(seconds_bits(secs, nanos)),
        !is_nan(seconds_bits(secs, nanos)),
{
    lemma_from_u64_nonneg(secs);
    lemma_from_u64_nonneg(nanos as u64);
    lemma_from_u64_nonneg(1_000_000_000);
    lemma_from_u64_encodes_number(secs);
    lemma_from_u64_encodes_number(nanos as u64);
    lemma_from_u64_encodes_number(1_000_000_000);
    lemma_div_bits_nonneg(from_u64_bits(nanos as u64), from_u64_bits(1_000_000_000));
    lemma_div_bits_not_nan(from_u64_bits(nanos as u64), from_u64_bits(1_000_000_000));
    lemma_add_bits_nonneg(
        from_u64_bits(secs),
        div_bits(from_u64_bits(nanos as u64), from_u64_bits(1_000_000_000)),
    );
    lemma_add_bits_not_nan(
        from_u64_bits(secs),
        div_bits(from_u64_bits(nanos as u64), from_u64_bits(1_000_000_000)),
    );
}

/// Converts an elapsed duration, split into whole seconds and fractional
/// nanoseconds, to seconds as a binary64 bit pattern.
pub fn duration_to_seconds(secs: u64, nanos: u32) -> (r: u64)
    ensures
        r == seconds_bits(secs, nanos),
        !sign_of(r),
        !is_nan(r),
    opens_invariants none
    no_unwind
{
    proof {
        lemma_seconds_nonneg(secs, nanos);
    }
    let frac: u64 = b64_div(b64_from_u64(nanos as u64), b64_from_u64(1_000_000_000));
    b64_add(b64_from_u64(secs), frac)
}

/// The seconds elapsed since the instant `start` was taken, as a
/// binary64 bit pattern.  The value depends on the clock, so all that
/// holds of every outcome is its shape: the seconds of some duration,
/// never an arbitrary bit pattern.
pub fn elapsed_seconds(start: &std::time::Instant) -> (r: u64)
    ensures
        exists|s: u64, n: u32| n < 1_000_000_000 && r == seconds_bits(s, n),
        !sign_of(r),
        !is_nan(r),
    opens_invariants none
    no_unwind
{
    let d: std::time::Duration = read_elapsed(start);
    let s: u64 = whole_seconds(&d);
    let n: u32 = fractional_nanos(&d);
    let r: u64 = duration_to_seconds(s, n);
    proof {
        assert(n < 1_000_000_000 && r == seconds_bits(s, n));
        lemma_seconds_nonneg(s, n);
    }
    r
}

/// A coarse clock reading in whole milliseconds, from the seconds and
/// nanoseconds fields of an operating-system timespec.
pub open spec fn coarse_millis(sec: i64, nsec: i64) -> int {
    sec * 1_000 + nsec / 1_000_000
}

/// The elapsed milliseconds between two coarse clock readings, each a
/// (seconds, nanoseconds) pair: millisecond resolution absorbs the
/// offsets between processor timers, and a reading that appears to go
/// backwards counts as no elapsed time.
pub fn coarse_elapsed_millis(now_sec: i64, now_nsec: i64, start_sec: i64, start_nsec: i64) -> (r:
    u64)
    requires
        0 <= now_sec < 0x4000_0000_0000,
        0 <= start_sec < 0x4000_0000_0000,
        0 <= now_nsec < 1_000_000_000,
        0 <= start_nsec < 1_000_000_000,
    ensures
        coarse_millis(now_sec, now_nsec) >= coarse_millis(start_sec, start_nsec) ==> r
            == coarse_millis(now_sec, now_nsec) - coarse_millis(start_sec, start_nsec),
        coarse_millis(now_sec, now_nsec) < coarse_millis(start_sec, start_nsec) ==> r == 0,
{
    let now_ms: i128 = (now_sec as i128) * 1_000 + (now_nsec as i128) / 1_000_000;
    let start_ms: i128 = (start_sec as i128) * 1_000 + (start_nsec as i128) / 1_000_000;
    if now_ms >= start_ms {
        (now_ms - start_ms) as u64
    } else {
        0
    }
}

} // verus!
