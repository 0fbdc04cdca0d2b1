//! Arithmetic and ordering for IEEE 754 binary64 values, carried as their
//! raw bit patterns in `u64`.
//!
//! Observed values and bucket bounds are binary64 numbers.  This crate keeps
//! them as bit patterns so that every step of the histogram logic can be
//! verified; the few arithmetic operations the histogram needs (comparison,
//! addition, multiplication, division, conversion from an unsigned integer)
//! are implemented here directly on the bit patterns, with round-to-nearest,
//! ties-to-even rounding, and proved equal to their specification functions.

use vstd::prelude::*;
use vstd::std_specs::bits::u64_leading_zeros;

verus! {

/// Mask of the sign bit.
pub const SIGN_MASK: u64 = 0x8000_0000_0000_0000;
/// Mask of the 52 fraction bits.
pub const FRAC_MASK: u64 = 0x000F_FFFF_FFFF_FFFF;
/// Bit pattern of positive infinity.
pub const POS_INF: u64 = 0x7FF0_0000_0000_0000;
/// The quiet NaN this module returns for invalid operations.
pub const QNAN: u64 = 0x7FF8_0000_0000_0000;
/// The implicit leading significand bit of a normal number.
pub const IMPLICIT_BIT: u64 = 0x0010_0000_0000_0000;
/// Bit pattern of positive zero.
pub const POS_ZERO: u64 = 0;
/// Bit pattern of 1.0.
pub const ONE_BITS: u64 = 0x3FF0_0000_0000_0000;

/// The raw (biased) exponent field.
pub open spec fn raw_exp(b: u64) -> u64 {
    (b >> 52) & 0x7FF
}

/// The raw fraction field.
pub open spec fn frac_of(b: u64) -> u64 {
    b & FRAC_MASK
}

/// Whether the sign bit is set.
pub open spec fn sign_of(b: u64) -> bool {
    b & SIGN_MASK == SIGN_MASK
}

/// Whether the bit pattern encodes a NaN.
pub open spec fn is_nan(b: u64) -> bool {
    raw_exp(b) == 0x7FF && frac_of(b) != 0
}

/// Whether the bit pattern encodes an infinity of either sign.
pub open spec fn is_inf(b: u64) -> bool {
    raw_exp(b) == 0x7FF && frac_of(b) == 0
}

/// Whether the bit pattern encodes a zero of either sign.
pub open spec fn is_zero(b: u64) -> bool {
    b & 0x7FFF_FFFF_FFFF_FFFF == 0
}

/// An order-preserving key: for non-NaN values, the IEEE order of two
/// values equals the unsigned order of their keys, and the two zeros get
/// the same key.
pub open spec fn order_key(b: u64) -> u64 {
    let c = if b == SIGN_MASK {
        0u64
    } else {
        b
    };
    if c & SIGN_MASK == SIGN_MASK {
        !c
    } else {
        (c + SIGN_MASK) as u64
    }
}

/// IEEE `a <= b`.  False whenever either side is NaN.
pub open spec fn le_bits(a: u64, b: u64) -> bool {
    !is_nan(a) && !is_nan(b) && order_key(a) <= order_key(b)
}

/// IEEE `a < b`.  False whenever either side is NaN.
pub open spec fn lt_bits(a: u64, b: u64) -> bool {
    !is_nan(a) && !is_nan(b) && order_key(a) < order_key(b)
}

proof fn lemma_sign_two(a: u64)
    ensures
        a & SIGN_MASK == 0 || a & SIGN_MASK == SIGN_MASK,
{
    assert(a & 0x8000_0000_0000_0000 == 0 || a & 0x8000_0000_0000_0000 == 0x8000_0000_0000_0000)
        by (bit_vector);
}

/// Whether `b` encodes a NaN.
pub fn b64_is_nan(b: u64) -> (r: bool)
    ensures
        r == is_nan(b),
    opens_invariants none
    no_unwind
{
    (b >> 52) & 0x7FF == 0x7FF && b & FRAC_MASK != 0
}

fn exec_order_key(b: u64) -> (r: u64)
    ensures
        r == order_key(b),
    opens_invariants none
    no_unwind
{
    let c: u64 = if b == SIGN_MASK {
        0
    } else {
        b
    };
    proof {
        assert(c & 0x8000_0000_0000_0000 != 0x8000_0000_0000_0000 ==> c < 0x8000_0000_0000_0000)
            by (bit_vector);
    }
    if c & SIGN_MASK == SIGN_MASK {
        !c
    } else {
        c + SIGN_MASK
    }
}

/// IEEE `a <= b` on bit patterns.
pub fn b64_le(a: u64, b: u64) -> (r: bool)
    ensures
        r == le_bits(a, b),
    opens_invariants none
    no_unwind
{
    !b64_is_nan(a) && !b64_is_nan(b) && exec_order_key(a) <= exec_order_key(b)
}

/// IEEE `a < b` on bit patterns.
pub fn b64_lt(a: u64, b: u64) -> (r: bool)
    ensures
        r == lt_bits(a, b),
    opens_invariants none
    no_unwind
{
    !b64_is_nan(a) && !b64_is_nan(b) && exec_order_key(a) < exec_order_key(b)
}

/// The number of leading zero bits of `x`, counted by repeated halving.
fn exec_leading_zeros(x: u64) -> (r: u32)
    ensures
        r == u64_leading_zeros(x),
    opens_invariants none
    no_unwind
{
    proof {
        vstd::std_specs::bits::axiom_u64_leading_zeros(x);
        reveal(u64_leading_zeros);
    }
    let mut y: u64 = x;
    let mut count: u32 = 0;
    while y != 0
        invariant
            u64_leading_zeros(y) == u64_leading_zeros(x) + count,
            0 <= u64_leading_zeros(x) <= 64,
            count <= 64,
        decreases y,
    {
        proof {
            reveal(u64_leading_zeros);
            vstd::std_specs::bits::axiom_u64_leading_zeros(y);
            vstd::std_specs::bits::axiom_u64_leading_zeros((y / 2) as u64);
            assert(y >> 1 == y / 2) by (bit_vector);
        }
        y = y >> 1;
        count = count + 1;
    }
    64 - count
}

/// The position of the most significant set bit of a nonzero `u128`.
pub open spec fn u128_top(s: u128) -> int {
    if (s >> 64) != 0 {
        127 - u64_leading_zeros((s >> 64) as u64)
    } else {
        63 - u64_leading_zeros(s as u64)
    }
}

fn exec_u128_top(s: u128) -> (r: u64)
    requires
        s != 0,
    ensures
        r == u128_top(s),
        r <= 127,
    opens_invariants none
    no_unwind
{
    let hi: u64 = #[verifier::truncate] ((s >> 64) as u64);
    let lo: u64 = #[verifier::truncate] (s as u64);
    proof {
        assert(s >> 64 <= 0xFFFF_FFFF_FFFF_FFFF) by (bit_vector);
        assert(hi == 0 ==> lo != 0) by (bit_vector)
            requires
                hi == (s >> 64) as u64,
                lo == s as u64,
                s != 0,
        ;
        vstd::std_specs::bits::axiom_u64_leading_zeros(hi);
        vstd::std_specs::bits::axiom_u64_leading_zeros(lo);
    }
    if hi != 0 {
        127 - exec_leading_zeros(hi) as u64
    } else {
        63 - exec_leading_zeros(lo) as u64
    }
}

/// Compress an exact value whose top bit is at position `top` into the
/// 56-bit rounding form (52 significand bits, a guard, a round and a
/// sticky bit), collecting every lost bit into the sticky bit.
pub open spec fn norm_sig(s: u128, top: int) -> u64 {
    if top > 55 {
        let sh = (top - 55) as u128;
        let lost = s & (((1u128 << sh) - 1) as u128);
        ((s >> sh) as u64) | (if lost != 0 {
            1u64
        } else {
            0u64
        })
    } else {
        (s << ((55 - top) as u128)) as u64
    }
}

fn exec_norm_sig(s: u128, top: u64) -> (r: u64)
    requires
        top == u128_top(s),
        top <= 127,
        s != 0,
    ensures
        r == norm_sig(s, top as int),
    opens_invariants none
    no_unwind
{
    if top > 55 {
        let sh: u128 = (top - 55) as u128;
        proof {
            assert(1u128 << sh >= 1) by (bit_vector)
                requires
                    sh <= 72,
            ;
        }
        let lost: u128 = s & ((1u128 << sh) - 1);
        let shifted: u64 = #[verifier::truncate] ((s >> sh) as u64);
        shifted | (if lost != 0 {
            1u64
        } else {
            0u64
        })
    } else {
        let shifted: u64 = #[verifier::truncate] ((s << ((55 - top) as u128)) as u64);
        shifted
    }
}

/// The significand after the pre-shift that brings a result whose biased
/// exponent would be zero or below into subnormal range.
pub open spec fn presub_sig(exp: int, sig: u64) -> u64 {
    if exp <= 0 {
        let sh = 1 - exp;
        if sh > 63 {
            if sig != 0 {
                1u64
            } else {
                0u64
            }
        } else {
            let lost = sig & (((1u64 << (sh as u64)) - 1) as u64);
            (sig >> (sh as u64)) | (if lost != 0 {
                1u64
            } else {
                0u64
            })
        }
    } else {
        sig
    }
}

/// Round a 56-bit form to 53 significand bits, to nearest, ties to even.
pub open spec fn round_sig(sig: u64) -> u64 {
    let low = sig & 7;
    let m = sig >> 3;
    if low > 4 || (low == 4 && m & 1 == 1) {
        (m + 1) as u64
    } else {
        m
    }
}

/// Assemble a rounded result from a sign, a biased exponent and a 56-bit
/// rounding form whose top bit is at position 55 for normal values.
/// Handles overflow to infinity and underflow to subnormals and zero.
pub open spec fn round_pack(sign: bool, exp: int, sig: u64) -> u64 {
    let sgn = if sign {
        SIGN_MASK
    } else {
        0u64
    };
    if exp >= 2047 {
        sgn | POS_INF
    } else {
        let e1 = if exp <= 0 {
            1int
        } else {
            exp
        };
        let m = round_sig(presub_sig(exp, sig));
        let m2 = if m >= 0x20_0000_0000_0000 {
            (m >> 1) as u64
        } else {
            m
        };
        let e2 = if m >= 0x20_0000_0000_0000 {
            e1 + 1
        } else {
            e1
        };
        if e2 >= 2047 {
            sgn | POS_INF
        } else if m2 >= IMPLICIT_BIT {
            sgn | ((e2 as u64) << 52) | (m2 & FRAC_MASK)
        } else {
            sgn | m2
        }
    }
}

fn exec_round_pack(sign: bool, exp: i64, sig: u64) -> (r: u64)
    requires
        -100_000 <= exp <= 100_000,
    ensures
        r == round_pack(sign, exp as int, sig),
    opens_invariants none
    no_unwind
{
    let sgn: u64 = if sign {
        SIGN_MASK
    } else {
        0
    };
    if exp >= 2047 {
        sgn | POS_INF
    } else {
        let e1: i64 = if exp <= 0 {
            1
        } else {
            exp
        };
        let s1: u64 = if exp <= 0 {
            let sh: i64 = 1 - exp;
            if sh > 63 {
                if sig != 0 {
                    1
                } else {
                    0
                }
            } else {
                let shu: u64 = sh as u64;
                proof {
                    assert(1u64 << shu >= 1) by (bit_vector)
                        requires
                            shu <= 63,
                    ;
                }
                let lost: u64 = sig & ((1u64 << shu) - 1);
                (sig >> shu) | (if lost != 0 {
                    1u64
                } else {
                    0u64
                })
            }
        } else {
            sig
        };
        assert(s1 == presub_sig(exp as int, sig));
        let low: u64 = s1 & 7;
        let m0: u64 = s1 >> 3;
        proof {
            assert(s1 >> 3 <= 0x1FFF_FFFF_FFFF_FFFF) by (bit_vector);
        }
        let m: u64 = if low > 4 || (low == 4 && m0 & 1 == 1) {
            m0 + 1
        } else {
            m0
        };
        assert(m == round_sig(s1));
        let m2: u64 = if m >= 0x20_0000_0000_0000 {
            m >> 1
        } else {
            m
        };
        let e2: i64 = if m >= 0x20_0000_0000_0000 {
            e1 + 1
        } else {
            e1
        };
        if e2 >= 2047 {
            sgn | POS_INF
        } else if m2 >= IMPLICIT_BIT {
            sgn | ((e2 as u64) << 52) | (m2 & FRAC_MASK)
        } else {
            sgn | m2
        }
    }
}

/// The effective significand of a finite value: the fraction field with
/// the implicit bit added for normal values.
pub open spec fn mant_of(b: u64) -> u64 {
    if raw_exp(b) > 0 {
        (frac_of(b) + IMPLICIT_BIT) as u64
    } else {
        frac_of(b)
    }
}

/// The effective biased exponent of a finite value; subnormals share the
/// exponent of the smallest normals.
pub open spec fn exp_of(b: u64) -> int {
    if raw_exp(b) == 0 {
        1int
    } else {
        raw_exp(b) as int
    }
}

/// The sum of two finite, nonzero values whose significand/exponent pairs
/// are ordered so that `(e1, m1)` is the larger magnitude; `sign` is the
/// sign of that larger magnitude and `same` tells whether the two signs
/// agree.
pub open spec fn add_mag(sign: bool, m1: u64, e1: int, m2: u64, e2: int, same: bool) -> u64 {
    let d0 = e1 - e2;
    let d = if d0 > 56 {
        56u128
    } else {
        d0 as u128
    };
    let big = (m1 as u128) << d;
    let small = m2 as u128;
    let s = if same {
        (big + small) as u128
    } else {
        (big - small) as u128
    };
    if s == 0 {
        POS_ZERO
    } else {
        let top = u128_top(s);
        round_pack(sign, e1 - (d as int) + top - 52, norm_sig(s, top))
    }
}

/// The IEEE 754 binary64 sum of the two values encoded by `a` and `b`,
/// with round-to-nearest, ties-to-even rounding.  Invalid operations
/// return a quiet NaN.
pub open spec fn add_bits(a: u64, b: u64) -> u64 {
    if is_nan(a) || is_nan(b) {
        QNAN
    } else if is_inf(a) {
        if is_inf(b) && sign_of(a) != sign_of(b) {
            QNAN
        } else {
            a
        }
    } else if is_inf(b) {
        b
    } else if is_zero(a) {
        if is_zero(b) {
            a & b
        } else {
            b
        }
    } else if is_zero(b) {
        a
    } else {
        let m1 = mant_of(a);
        let e1 = exp_of(a);
        let m2 = mant_of(b);
        let e2 = exp_of(b);
        let same = sign_of(a) == sign_of(b);
        if e1 > e2 || (e1 == e2 && m1 >= m2) {
            add_mag(sign_of(a), m1, e1, m2, e2, same)
        } else {
            add_mag(sign_of(b), m2, e2, m1, e1, same)
        }
    }
}

fn exec_mant(b: u64) -> (r: u64)
    ensures
        r == mant_of(b),
        r < 0x20_0000_0000_0000,
    opens_invariants none
    no_unwind
{
    let f: u64 = b & FRAC_MASK;
    proof {
        assert(b & 0x000F_FFFF_FFFF_FFFF <= 0x000F_FFFF_FFFF_FFFF) by (bit_vector);
    }
    if (b >> 52) & 0x7FF > 0 {
        f + IMPLICIT_BIT
    } else {
        f
    }
}

fn exec_exp(b: u64) -> (r: i64)
    ensures
        r == exp_of(b),
        1 <= r <= 0x7FF,
    opens_invariants none
    no_unwind
{
    let e: u64 = (b >> 52) & 0x7FF;
    proof {
        assert((b >> 52) & 0x7FF <= 0x7FF) by (bit_vector);
    }
    if e == 0 {
        1
    } else {
        e as i64
    }
}

fn exec_add_mag(sign: bool, m1: u64, e1: i64, m2: u64, e2: i64, same: bool) -> (r: u64)
    requires
        e1 >= e2,
        1 <= e2 && e1 <= 0x7FF,
        m1 < 0x20_0000_0000_0000,
        m2 < 0x20_0000_0000_0000,
        e1 == e2 ==> m1 >= m2,
        e1 > e2 ==> m1 >= 0x10_0000_0000_0000,
        m2 > 0,
    ensures
        r == add_mag(sign, m1, e1 as int, m2, e2 as int, same),
    opens_invariants none
    no_unwind
{
    let d0: i64 = e1 - e2;
    let d: u128 = if d0 > 56 {
        56
    } else {
        d0 as u128
    };
    let big: u128 = (m1 as u128) << d;
    let small: u128 = m2 as u128;
    proof {
        assert(big <= 0x2000_0000_0000_0000_0000_0000_0000) by (bit_vector)
            requires
                big == (m1 as u128) << d,
                m1 < 0x20_0000_0000_0000,
                d <= 56,
        ;
        if !same {
            if d == 0 {
                assert(big == m1 as u128) by (bit_vector)
                    requires
                        big == (m1 as u128) << d,
                        d == 0,
                ;
                assert(big >= small);
            } else {
                assert(big >= small) by (bit_vector)
                    requires
                        big == (m1 as u128) << d,
                        small == m2 as u128,
                        m1 >= 0x10_0000_0000_0000,
                        m2 < 0x20_0000_0000_0000,
                        1 <= d <= 56,
                ;
            }
        }
    }
    let s: u128 = if same {
        big + small
    } else {
        big - small
    };
    if s == 0 {
        POS_ZERO
    } else {
        let top: u64 = exec_u128_top(s);
        let sig: u64 = exec_norm_sig(s, top);
        exec_round_pack(sign, e1 - d as i64 + top as i64 - 52, sig)
    }
}

/// IEEE 754 binary64 addition on bit patterns.
pub fn b64_add(a: u64, b: u64) -> (r: u64)
    ensures
        r == add_bits(a, b),
    opens_invariants none
    no_unwind
{
    proof {
        lemma_sign_two(a);
        lemma_sign_two(b);
    }
    if b64_is_nan(a) || b64_is_nan(b) {
        QNAN
    } else if (a >> 52) & 0x7FF == 0x7FF {
        if (b >> 52) & 0x7FF == 0x7FF && (a & SIGN_MASK != b & SIGN_MASK) {
            QNAN
        } else {
            a
        }
    } else if (b >> 52) & 0x7FF == 0x7FF {
        b
    } else if a & 0x7FFF_FFFF_FFFF_FFFF == 0 {
        if b & 0x7FFF_FFFF_FFFF_FFFF == 0 {
            a & b
        } else {
            b
        }
    } else if b & 0x7FFF_FFFF_FFFF_FFFF == 0 {
        a
    } else {
        let m1: u64 = exec_mant(a);
        let e1: i64 = exec_exp(a);
        let m2: u64 = exec_mant(b);
        let e2: i64 = exec_exp(b);
        let sa: bool = a & SIGN_MASK == SIGN_MASK;
        let sb: bool = b & SIGN_MASK == SIGN_MASK;
        proof {
            assert(a & 0x000F_FFFF_FFFF_FFFF <= 0x000F_FFFF_FFFF_FFFF) by (bit_vector);
            assert(b & 0x000F_FFFF_FFFF_FFFF <= 0x000F_FFFF_FFFF_FFFF) by (bit_vector);
            assert((a >> 52) & 0x7FF == 0 && a & 0x7FFF_FFFF_FFFF_FFFF != 0 ==> a
                & 0x000F_FFFF_FFFF_FFFF != 0) by (bit_vector);
            assert((b >> 52) & 0x7FF == 0 && b & 0x7FFF_FFFF_FFFF_FFFF != 0 ==> b
                & 0x000F_FFFF_FFFF_FFFF != 0) by (bit_vector);
            assert(exp_of(a) > 1 ==> raw_exp(a) > 0);
            assert(exp_of(b) > 1 ==> raw_exp(b) > 0);
            assert(raw_exp(a) > 0 ==> mant_of(a) >= IMPLICIT_BIT);
            assert(raw_exp(b) > 0 ==> mant_of(b) >= IMPLICIT_BIT);
        }
        if e1 > e2 || (e1 == e2 && m1 >= m2) {
            exec_add_mag(sa, m1, e1, m2, e2, sa == sb)
        } else {
            exec_add_mag(sb, m2, e2, m1, e1, sa == sb)
        }
    }
}

/// The significand of a finite nonzero value, normalized so that the
/// implicit bit position is set even for subnormal inputs.
pub open spec fn norm_mant(b: u64) -> u64 {
    if raw_exp(b) > 0 {
        (frac_of(b) + IMPLICIT_BIT) as u64
    } else {
        (frac_of(b) << ((u64_leading_zeros(frac_of(b)) - 11) as u64)) as u64
    }
}

/// The biased exponent matching `norm_mant`.
pub open spec fn norm_exp(b: u64) -> int {
    if raw_exp(b) > 0 {
        raw_exp(b) as int
    } else {
        12 - u64_leading_zeros(frac_of(b))
    }
}

fn exec_norm_mant_exp(b: u64) -> (r: (u64, i64))
    requires
        !is_nan(b),
        !is_inf(b),
        !is_zero(b),
    ensures
        r.0 == norm_mant(b),
        r.1 == norm_exp(b),
        0x10_0000_0000_0000 <= r.0 < 0x20_0000_0000_0000,
        -100 <= r.1 <= 0x7FF,
    opens_invariants none
    no_unwind
{
    let f: u64 = b & FRAC_MASK;
    let e: u64 = (b >> 52) & 0x7FF;
    proof {
        assert((b >> 52) & 0x7FF <= 0x7FF) by (bit_vector);
    }
    if e > 0 {
        proof {
            assert(b & 0x000F_FFFF_FFFF_FFFF <= 0x000F_FFFF_FFFF_FFFF) by (bit_vector);
        }
        (f + IMPLICIT_BIT, e as i64)
    } else {
        proof {
            assert(f != 0) by (bit_vector)
                requires
                    f == b & 0x000F_FFFF_FFFF_FFFF,
                    b & 0x7FFF_FFFF_FFFF_FFFF != 0,
                    (b >> 52) & 0x7FF == 0,
            ;
            assert(f >> 52 == 0) by (bit_vector)
                requires
                    f == b & 0x000F_FFFF_FFFF_FFFF,
            ;
            vstd::std_specs::bits::axiom_u64_leading_zeros(f);
            let lzs = u64_leading_zeros(f);
            assert(0 <= lzs < 64);
            let p: u64 = (63 - lzs) as u64;
            assert((f >> p) & 1u64 != 0);
            assert(lzs >= 12) by {
                if lzs < 12 {
                    assert((f >> p) & 1u64 != 0 && p >= 52 ==> f >> 52 != 0) by (bit_vector);
                }
            }
        }
        let lz: u32 = exec_leading_zeros(f);
        let lzu: u64 = lz as u64;
        let k: u64 = lzu - 11;
        let m: u64 = f << k;
        proof {
            let p1: u64 = (63 - lzu) as u64;
            let p2: u64 = (64 - lzu) as u64;
            assert(p1 == 63 - u64_leading_zeros(f) && p2 == 64 - u64_leading_zeros(f));
            assert((f >> p1) & 1u64 != 0 && f >> p2 == 0 && 12 <= lzu <= 63 && p1 == 63 - lzu && p2
                == 64 - lzu && k == lzu - 11 && m == f << k ==> (0x10_0000_0000_0000 <= m
                < 0x20_0000_0000_0000)) by (bit_vector)
                requires
                    12 <= lzu <= 63,
                    p1 == 63 - lzu,
                    p2 == 64 - lzu,
                    k == lzu - 11,
                    m == f << k,
                    (f >> p1) & 1u64 != 0,
                    f >> p2 == 0,
            ;
        }
        (m, 12 - lz as i64)
    }
}

/// The IEEE 754 binary64 product of the two values encoded by `a` and
/// `b`, with round-to-nearest, ties-to-even rounding.
pub open spec fn mul_bits(a: u64, b: u64) -> u64 {
    let sgn = sign_of(a) != sign_of(b);
    if is_nan(a) || is_nan(b) {
        QNAN
    } else if is_inf(a) {
        if is_zero(b) {
            QNAN
        } else {
            if sgn {
                SIGN_MASK | POS_INF
            } else {
                POS_INF
            }
        }
    } else if is_inf(b) {
        if is_zero(a) {
            QNAN
        } else {
            if sgn {
                SIGN_MASK | POS_INF
            } else {
                POS_INF
            }
        }
    } else if is_zero(a) || is_zero(b) {
        if sgn {
            SIGN_MASK
        } else {
            POS_ZERO
        }
    } else {
        let p: u128 = ((norm_mant(a) as u128) * (norm_mant(b) as u128)) as u128;
        let top = u128_top(p);
        round_pack(sgn, norm_exp(a) + norm_exp(b) - 1023 + top - 104, norm_sig(p, top))
    }
}

/// IEEE 754 binary64 multiplication on bit patterns.
pub fn b64_mul(a: u64, b: u64) -> (r: u64)
    ensures
        r == mul_bits(a, b),
    opens_invariants none
    no_unwind
{
    proof {
        lemma_sign_two(a);
        lemma_sign_two(b);
    }
    let sgn: bool = (a & SIGN_MASK) != (b & SIGN_MASK);
    let inf_bits: u64 = if sgn {
        SIGN_MASK | POS_INF
    } else {
        POS_INF
    };
    if b64_is_nan(a) || b64_is_nan(b) {
        QNAN
    } else if (a >> 52) & 0x7FF == 0x7FF {
        if b & 0x7FFF_FFFF_FFFF_FFFF == 0 {
            QNAN
        } else {
            inf_bits
        }
    } else if (b >> 52) & 0x7FF == 0x7FF {
        if a & 0x7FFF_FFFF_FFFF_FFFF == 0 {
            QNAN
        } else {
            inf_bits
        }
    } else if a & 0x7FFF_FFFF_FFFF_FFFF == 0 || b & 0x7FFF_FFFF_FFFF_FFFF == 0 {
        if sgn {
            SIGN_MASK
        } else {
            POS_ZERO
        }
    } else {
        let (m1, e1): (u64, i64) = exec_norm_mant_exp(a);
        let (m2, e2): (u64, i64) = exec_norm_mant_exp(b);
        proof {
            assert((m1 as int) * (m2 as int) >= 0x10_0000_0000_0000 * 0x10_0000_0000_0000 && (
            m1 as int) * (m2 as int) < 0x20_0000_0000_0000 * 0x20_0000_0000_0000)
                by (nonlinear_arith)
                requires
                    0x10_0000_0000_0000 <= m1 < 0x20_0000_0000_0000,
                    0x10_0000_0000_0000 <= m2 < 0x20_0000_0000_0000,
            ;
        }
        let p: u128 = (m1 as u128) * (m2 as u128);
        let top: u64 = exec_u128_top(p);
        let sig: u64 = exec_norm_sig(p, top);
        exec_round_pack(sgn, e1 + e2 - 1023 + top as i64 - 104, sig)
    }
}

/// The IEEE 754 binary64 quotient of the two values encoded by `a` and
/// `b`, with round-to-nearest, ties-to-even rounding.
pub open spec fn div_bits(a: u64, b: u64) -> u64 {
    let sgn = sign_of(a) != sign_of(b);
    if is_nan(a) || is_nan(b) {
        QNAN
    } else if is_inf(a) {
        if is_inf(b) {
            QNAN
        } else {
            if sgn {
                SIGN_MASK | POS_INF
            } else {
                POS_INF
            }
        }
    } else if is_inf(b) {
        if sgn {
            SIGN_MASK
        } else {
            POS_ZERO
        }
    } else if is_zero(a) {
        if is_zero(b) {
            QNAN
        } else {
            if sgn {
                SIGN_MASK
            } else {
                POS_ZERO
            }
        }
    } else if is_zero(b) {
        if sgn {
            SIGN_MASK | POS_INF
        } else {
            POS_INF
        }
    } else {
        let m1 = norm_mant(a);
        let m2 = norm_mant(b);
        let sh = if m1 >= m2 {
            55u128
        } else {
            56u128
        };
        let num = (m1 as u128) << sh;
        let q = num / (m2 as u128);
        let rem = num % (m2 as u128);
        let sig = ((q as u64) | (if rem != 0 {
            1u64
        } else {
            0u64
        }));
        let eadj = if m1 >= m2 {
            0int
        } else {
            1int
        };
        round_pack(sgn, norm_exp(a) - norm_exp(b) + 1023 - eadj, sig)
    }
}

/// IEEE 754 binary64 division on bit patterns.
pub fn b64_div(a: u64, b: u64) -> (r: u64)
    ensures
        r == div_bits(a, b),
    opens_invariants none
    no_unwind
{
    proof {
        lemma_sign_two(a);
        lemma_sign_two(b);
    }
    let sgn: bool = (a & SIGN_MASK) != (b & SIGN_MASK);
    let inf_bits: u64 = if sgn {
        SIGN_MASK | POS_INF
    } else {
        POS_INF
    };
    let zero_bits: u64 = if sgn {
        SIGN_MASK
    } else {
        POS_ZERO
    };
    if b64_is_nan(a) || b64_is_nan(b) {
        QNAN
    } else if (a >> 52) & 0x7FF == 0x7FF {
        if (b >> 52) & 0x7FF == 0x7FF {
            QNAN
        } else {
            inf_bits
        }
    } else if (b >> 52) & 0x7FF == 0x7FF {
        zero_bits
    } else if a & 0x7FFF_FFFF_FFFF_FFFF == 0 {
        if b & 0x7FFF_FFFF_FFFF_FFFF == 0 {
            QNAN
        } else {
            zero_bits
        }
    } else if b & 0x7FFF_FFFF_FFFF_FFFF == 0 {
        inf_bits
    } else {
        let (m1, e1): (u64, i64) = exec_norm_mant_exp(a);
        let (m2, e2): (u64, i64) = exec_norm_mant_exp(b);
        let sh: u128 = if m1 >= m2 {
            55
        } else {
            56
        };
        let num: u128 = (m1 as u128) << sh;
        let q: u128 = num / (m2 as u128);
        let rem: u128 = num % (m2 as u128);
        proof {
            assert(num <= (0x20_0000_0000_0000 as u128) << 56) by (bit_vector)
                requires
                    num == (m1 as u128) << sh,
                    m1 < 0x20_0000_0000_0000,
                    sh == 55 || sh == 56,
            ;
        }
        let qt: u64 = #[verifier::truncate] (q as u64);
        let sig: u64 = qt | (if rem != 0 {
            1u64
        } else {
            0u64
        });
        let eadj: i64 = if m1 >= m2 {
            0
        } else {
            1
        };
        exec_round_pack(sgn, e1 - e2 + 1023 - eadj, sig)
    }
}

/// The IEEE 754 binary64 value nearest to the unsigned integer `n`
/// (round-to-nearest, ties-to-even), as a bit pattern.
pub open spec fn from_u64_bits(n: u64) -> u64 {
    if n == 0 {
        POS_ZERO
    } else {
        let top = (63 - u64_leading_zeros(n)) as int;
        round_pack(false, 1023 + top, norm_sig(n as u128, top))
    }
}

/// Conversion from `u64` to a binary64 bit pattern.
pub fn b64_from_u64(n: u64) -> (r: u64)
    ensures
        r == from_u64_bits(n),
    opens_invariants none
    no_unwind
{
    if n == 0 {
        POS_ZERO
    } else {
        proof {
            vstd::std_specs::bits::axiom_u64_leading_zeros(n);
            assert((n as u128) >> 64 == 0) by (bit_vector);
            assert(u64_leading_zeros(n as u128 as u64) == u64_leading_zeros(n));
        }
        let top: u64 = 63 - exec_leading_zeros(n) as u64;
        assert(top == u128_top(n as u128));
        let sig: u64 = exec_norm_sig(n as u128, top);
        exec_round_pack(false, 1023 + top as i64, sig)
    }
}

/// A packed result with a clear sign never has the sign bit set.
proof fn lemma_round_pack_nonneg(exp: int, sig: u64)
    ensures
        !sign_of(round_pack(false, exp, sig)),
{
    lemma_fixed_patterns();
    if exp < 2047 {
        let e1: int = if exp <= 0 {
            1int
        } else {
            exp
        };
        let m = round_sig(presub_sig(exp, sig));
        let m2: u64 = if m >= 0x20_0000_0000_0000 {
            (m >> 1) as u64
        } else {
            m
        };
        let e2: int = if m >= 0x20_0000_0000_0000 {
            e1 + 1
        } else {
            e1
        };
        if e2 < 2047 {
            if m2 >= IMPLICIT_BIT {
                let e2u: u64 = e2 as u64;
                assert(e2u <= 2046 ==> (0u64 | (e2u << 52) | (m2 & 0x000F_FFFF_FFFF_FFFF))
                    & 0x8000_0000_0000_0000 != 0x8000_0000_0000_0000) by (bit_vector);
            } else {
                assert(m2 < 0x0010_0000_0000_0000 ==> (0u64 | m2) & 0x8000_0000_0000_0000
                    != 0x8000_0000_0000_0000) by (bit_vector);
            }
        }
    }
}

/// Law: the sum of two values whose sign bits are clear has a clear
/// sign bit (it is never below negative zero).
pub proof fn lemma_add_bits_nonneg(a: u64, b: u64)
    requires
        !sign_of(a),
        !sign_of(b),
    ensures
        !sign_of(add_bits(a, b)),
{
    lemma_fixed_patterns();
    assert(a & 0x8000_0000_0000_0000 != 0x8000_0000_0000_0000 && b & 0x8000_0000_0000_0000
        != 0x8000_0000_0000_0000 ==> (a & b) & 0x8000_0000_0000_0000 != 0x8000_0000_0000_0000)
        by (bit_vector);
    if !is_nan(a) && !is_nan(b) && !is_inf(a) && !is_inf(b) && !is_zero(a) && !is_zero(b) {
        let m1 = mant_of(a);
        let e1 = exp_of(a);
        let m2 = mant_of(b);
        let e2 = exp_of(b);
        if e1 > e2 || (e1 == e2 && m1 >= m2) {
            lemma_add_mag_nonneg(m1, e1, m2, e2, true);
        } else {
            lemma_add_mag_nonneg(m2, e2, m1, e1, true);
        }
    }
}

proof fn lemma_add_mag_nonneg(m1: u64, e1: int, m2: u64, e2: int, same: bool)
    ensures
        !sign_of(add_mag(false, m1, e1, m2, e2, same)),
{
    lemma_fixed_patterns();
    let d0 = e1 - e2;
    let d: u128 = if d0 > 56 {
        56u128
    } else {
        d0 as u128
    };
    let big: u128 = (m1 as u128) << d;
    let s: u128 = if same {
        (big + (m2 as u128)) as u128
    } else {
        (big - (m2 as u128)) as u128
    };
    if s != 0 {
        lemma_round_pack_nonneg(e1 - (d as int) + u128_top(s) - 52, norm_sig(s, u128_top(s)));
    }
}

/// Law: the quotient of two values whose sign bits are clear has a
/// clear sign bit.
pub proof fn lemma_div_bits_nonneg(a: u64, b: u64)
    requires
        !sign_of(a),
        !sign_of(b),
    ensures
        !sign_of(div_bits(a, b)),
{
    lemma_fixed_patterns();
    if !is_nan(a) && !is_nan(b) && !is_inf(a) && !is_inf(b) && !is_zero(a) && !is_zero(b) {
        let m1 = norm_mant(a);
        let m2 = norm_mant(b);
        let sh: u128 = if m1 >= m2 {
            55u128
        } else {
            56u128
        };
        let num: u128 = (m1 as u128) << sh;
        let q = num / (m2 as u128);
        let rem = num % (m2 as u128);
        let sig = ((q as u64) | (if rem != 0 {
            1u64
        } else {
            0u64
        }));
        let eadj: int = if m1 >= m2 {
            0int
        } else {
            1int
        };
        lemma_round_pack_nonneg(norm_exp(a) - norm_exp(b) + 1023 - eadj, sig);
    }
}

/// Law: a value converted from an unsigned integer has a clear sign
/// bit.
pub proof fn lemma_from_u64_nonneg(n: u64)
    ensures
        !sign_of(from_u64_bits(n)),
{
    lemma_fixed_patterns();
    if n != 0 {
        let top = (63 - u64_leading_zeros(n)) as int;
        lemma_round_pack_nonneg(1023 + top, norm_sig(n as u128, top));
    }
}

/// The handful of fixed bit patterns the packing lemmas reason about:
/// the quiet NaN and the infinities carry no sign bit beyond their own,
/// and their exponent and fraction fields are what their names say.
proof fn lemma_fixed_patterns()
    ensures
        0x7FF8_0000_0000_0000u64 & 0x8000_0000_0000_0000 == 0,
        0x7FF0_0000_0000_0000u64 & 0x8000_0000_0000_0000 == 0,
        0u64 & 0x8000_0000_0000_0000 == 0,
        (0u64 | 0x7FF0_0000_0000_0000u64) & 0x8000_0000_0000_0000 != 0x8000_0000_0000_0000,
        (0x7FF8_0000_0000_0000u64 >> 52) & 0x7FF == 0x7FF,
        (0u64 >> 52) & 0x7FF == 0,
        (0x8000_0000_0000_0000u64 >> 52) & 0x7FF == 0,
        (0x7FF0_0000_0000_0000u64 >> 52) & 0x7FF == 0x7FF,
        0x7FF0_0000_0000_0000u64 & 0x000F_FFFF_FFFF_FFFF == 0,
        ((0x8000_0000_0000_0000u64 | 0x7FF0_0000_0000_0000u64) >> 52) & 0x7FF == 0x7FF,
        (0x8000_0000_0000_0000u64 | 0x7FF0_0000_0000_0000u64) & 0x000F_FFFF_FFFF_FFFF == 0,
{
    assert(0x7FF8_0000_0000_0000u64 & 0x8000_0000_0000_0000 == 0
        && 0x7FF0_0000_0000_0000u64 & 0x8000_0000_0000_0000 == 0
        && 0u64 & 0x8000_0000_0000_0000 == 0
        && (0u64 | 0x7FF0_0000_0000_0000u64) & 0x8000_0000_0000_0000 != 0x8000_0000_0000_0000
        && (0x7FF8_0000_0000_0000u64 >> 52) & 0x7FF == 0x7FF
        && (0u64 >> 52) & 0x7FF == 0
        && (0x8000_0000_0000_0000u64 >> 52) & 0x7FF == 0
        && (0x7FF0_0000_0000_0000u64 >> 52) & 0x7FF == 0x7FF
        && 0x7FF0_0000_0000_0000u64 & 0x000F_FFFF_FFFF_FFFF == 0
        && ((0x8000_0000_0000_0000u64 | 0x7FF0_0000_0000_0000u64) >> 52) & 0x7FF == 0x7FF
        && (0x8000_0000_0000_0000u64 | 0x7FF0_0000_0000_0000u64) & 0x000F_FFFF_FFFF_FFFF == 0)
        by (bit_vector);
}

/// A packed result is an infinity, a normal or a subnormal encoding:
/// never a NaN.
proof fn lemma_round_pack_not_nan(sign: bool, exp: int, sig: u64)
    ensures
        !is_nan(round_pack(sign, exp, sig)),
{
    let sgn: u64 = if sign {
        SIGN_MASK
    } else {
        0u64
    };
    assert(((sgn | 0x7FF0_0000_0000_0000u64) >> 52) & 0x7FF == 0x7FF && (sgn
        | 0x7FF0_0000_0000_0000u64) & 0x000F_FFFF_FFFF_FFFF == 0) by (bit_vector)
        requires
            sgn == 0 || sgn == 0x8000_0000_0000_0000u64,
    ;
    if exp < 2047 {
        let e1: int = if exp <= 0 {
            1int
        } else {
            exp
        };
        let m = round_sig(presub_sig(exp, sig));
        let m2: u64 = if m >= 0x20_0000_0000_0000 {
            (m >> 1) as u64
        } else {
            m
        };
        let e2: int = if m >= 0x20_0000_0000_0000 {
            e1 + 1
        } else {
            e1
        };
        if e2 < 2047 {
            if m2 >= IMPLICIT_BIT {
                let e2u: u64 = e2 as u64;
                assert(e2u <= 2046 ==> ((sgn | (e2u << 52) | (m2 & 0x000F_FFFF_FFFF_FFFF)) >> 52)
                    & 0x7FF != 0x7FF) by (bit_vector)
                    requires
                        sgn == 0 || sgn == 0x8000_0000_0000_0000u64,
                ;
            } else {
                assert(m2 < 0x0010_0000_0000_0000 ==> ((sgn | m2) >> 52) & 0x7FF != 0x7FF)
                    by (bit_vector)
                    requires
                        sgn == 0 || sgn == 0x8000_0000_0000_0000u64,
                ;
            }
        }
    }
}

/// A packed result whose biased exponent stays below the top of the
/// range never encodes an infinity.
proof fn lemma_round_pack_not_inf(sign: bool, exp: int, sig: u64)
    requires
        exp <= 2045,
    ensures
        !is_inf(round_pack(sign, exp, sig)),
{
    let sgn: u64 = if sign {
        SIGN_MASK
    } else {
        0u64
    };
    let e1: int = if exp <= 0 {
        1int
    } else {
        exp
    };
    let m = round_sig(presub_sig(exp, sig));
    let m2: u64 = if m >= 0x20_0000_0000_0000 {
        (m >> 1) as u64
    } else {
        m
    };
    let e2: int = if m >= 0x20_0000_0000_0000 {
        e1 + 1
    } else {
        e1
    };
    assert(e2 <= 2046);
    if m2 >= IMPLICIT_BIT {
        let e2u: u64 = e2 as u64;
        assert(1 <= e2u <= 2046 ==> ((sgn | (e2u << 52) | (m2 & 0x000F_FFFF_FFFF_FFFF)) >> 52)
            & 0x7FF != 0x7FF) by (bit_vector)
            requires
                sgn == 0 || sgn == 0x8000_0000_0000_0000u64,
        ;
    } else {
        assert(m2 < 0x0010_0000_0000_0000 ==> ((sgn | m2) >> 52) & 0x7FF != 0x7FF) by (bit_vector)
            requires
                sgn == 0 || sgn == 0x8000_0000_0000_0000u64,
        ;
    }
}

/// Law: converting an unsigned integer never yields a NaN or an
/// infinity; a nonzero integer never yields a zero.
pub proof fn lemma_from_u64_encodes_number(n: u64)
    ensures
        !is_nan(from_u64_bits(n)),
        !is_inf(from_u64_bits(n)),
        n >= 1 ==> !is_zero(from_u64_bits(n)),
{
    lemma_fixed_patterns();
    if n >= 1 {
        vstd::std_specs::bits::axiom_u64_leading_zeros(n);
        let lz = u64_leading_zeros(n);
        let topu: u64 = (63 - lz) as u64;
        let top = topu as int;
        let s: u128 = n as u128;
        assert((s >> 64) == 0) by (bit_vector)
            requires
                s == n as u128,
        ;
        assert(s as u64 == n) by (bit_vector)
            requires
                s == n as u128,
        ;
        assert(u128_top(s) == top);
        let sig = norm_sig(s, top);
        let tu: u128 = topu as u128;
        assert((s >> tu) & 1 != 0) by (bit_vector)
            requires
                s == n as u128,
                tu == topu as u128,
                topu <= 63,
                (n >> topu) & 1 != 0,
        ;
        assert(s >> (tu + 1) == 0) by (bit_vector)
            requires
                s == n as u128,
                tu == topu as u128,
                topu <= 63,
                n >> ((topu + 1) as u64) == 0,
        ;
        assert(sig >= 8) by {
            if top > 55 {
                let sh: u128 = (top - 55) as u128;
                let st: u64 = if s & ((1u128 << sh) - 1) as u128 != 0 {
                    1u64
                } else {
                    0u64
                };
                assert((((s >> sh) as u64) | st) >= 0x0080_0000_0000_0000) by (bit_vector)
                    requires
                        (s >> tu) & 1 != 0,
                        sh == tu - 55,
                        56 <= tu <= 63,
                        s >> 64 == 0,
                        st == 0 || st == 1,
                ;
            } else {
                let k: u128 = (55 - top) as u128;
                assert((s << k) as u64 >= 0x0080_0000_0000_0000) by (bit_vector)
                    requires
                        (s >> tu) & 1 != 0,
                        s >> (tu + 1) == 0,
                        k == 55 - tu,
                        tu <= 55,
                ;
            }
        }
        lemma_round_pack_not_nan(false, 1023 + top, sig);
        lemma_round_pack_not_inf(false, 1023 + top, sig);
        lemma_round_pack_normal_nonzero(1023 + top, sig);
    }
}

/// A packed result with a positive exponent and a nonempty rounding
/// form is not a zero.
proof fn lemma_round_pack_normal_nonzero(exp: int, sig: u64)
    requires
        1 <= exp <= 2045,
        sig >= 8,
    ensures
        !is_zero(round_pack(false, exp, sig)),
{
    let m = round_sig(sig);
    assert(m >= 1) by {
        assert(sig >= 8 ==> (1 <= sig >> 3 <= 0x1FFF_FFFF_FFFF_FFFF)) by (bit_vector);
    }
    let m2: u64 = if m >= 0x20_0000_0000_0000 {
        (m >> 1) as u64
    } else {
        m
    };
    assert(m2 >= 1) by {
        assert(m >= 0x20_0000_0000_0000 ==> m >> 1 >= 1) by (bit_vector);
    }
    let e2: int = if m >= 0x20_0000_0000_0000 {
        exp + 1
    } else {
        exp
    };
    if m2 >= IMPLICIT_BIT {
        let e2u: u64 = e2 as u64;
        assert(1 <= e2u <= 2046 ==> (0u64 | (e2u << 52) | (m2 & 0x000F_FFFF_FFFF_FFFF))
            & 0x7FFF_FFFF_FFFF_FFFF != 0) by (bit_vector);
    } else {
        assert(1 <= m2 < 0x0010_0000_0000_0000 ==> (0u64 | m2) & 0x7FFF_FFFF_FFFF_FFFF != 0)
            by (bit_vector)
            requires
                m2 >= 1,
        ;
    }
}

/// Law: the sum of two non-NaN values of equal sign is never a NaN (an
/// invalid sum needs two infinities of opposite sign).
pub proof fn lemma_add_bits_not_nan(a: u64, b: u64)
    requires
        !is_nan(a),
        !is_nan(b),
        sign_of(a) == sign_of(b),
    ensures
        !is_nan(add_bits(a, b)),
{
    lemma_fixed_patterns();
    if is_zero(a) && is_zero(b) {
        assert(a & 0x7FFF_FFFF_FFFF_FFFF == 0 && b & 0x7FFF_FFFF_FFFF_FFFF == 0 ==> (((a & b) >> 52)
            & 0x7FF) == 0) by (bit_vector);
    }
    if !is_inf(a) && !is_inf(b) && !is_zero(a) && !is_zero(b) {
        let m1 = mant_of(a);
        let e1 = exp_of(a);
        let m2 = mant_of(b);
        let e2 = exp_of(b);
        if e1 > e2 || (e1 == e2 && m1 >= m2) {
            lemma_add_mag_not_nan(m1, e1, m2, e2, true);
        } else {
            lemma_add_mag_not_nan(m2, e2, m1, e1, true);
        }
        lemma_fixed_patterns();
    }
}

proof fn lemma_add_mag_not_nan(m1: u64, e1: int, m2: u64, e2: int, same: bool)
    ensures
        !is_nan(add_mag(false, m1, e1, m2, e2, same)),
        !is_nan(add_mag(true, m1, e1, m2, e2, same)),
{
    lemma_fixed_patterns();
    let d0 = e1 - e2;
    let d: u128 = if d0 > 56 {
        56u128
    } else {
        d0 as u128
    };
    let big: u128 = (m1 as u128) << d;
    let s: u128 = if same {
        (big + (m2 as u128)) as u128
    } else {
        (big - (m2 as u128)) as u128
    };
    if s != 0 {
        lemma_round_pack_not_nan(false, e1 - (d as int) + u128_top(s) - 52, norm_sig(s, u128_top(s)));
        lemma_round_pack_not_nan(true, e1 - (d as int) + u128_top(s) - 52, norm_sig(s, u128_top(s)));
    }
}

/// Law: a quotient is never a NaN when the dividend is a non-NaN
/// finite value and the divisor is a non-NaN nonzero value.
pub proof fn lemma_div_bits_not_nan(a: u64, b: u64)
    requires
        !is_nan(a),
        !is_nan(b),
        !is_inf(a),
        !is_zero(b),
    ensures
        !is_nan(div_bits(a, b)),
{
    lemma_fixed_patterns();
    if !is_inf(b) && !is_zero(a) {
        let m1 = norm_mant(a);
        let m2 = norm_mant(b);
        let sh: u128 = if m1 >= m2 {
            55u128
        } else {
            56u128
        };
        let num: u128 = (m1 as u128) << sh;
        let q = num / (m2 as u128);
        let rem = num % (m2 as u128);
        let sig = ((q as u64) | (if rem != 0 {
            1u64
        } else {
            0u64
        }));
        let eadj: int = if m1 >= m2 {
            0int
        } else {
            1int
        };
        lemma_round_pack_not_nan(sign_of(a) != sign_of(b), norm_exp(a) - norm_exp(b) + 1023 - eadj, sig);
    }
}

} // verus!
