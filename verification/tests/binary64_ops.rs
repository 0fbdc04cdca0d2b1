//! The bit-level binary64 arithmetic must agree with the hardware
//! operations on every kind of operand: normals, subnormals, zeros,
//! infinities, NaNs, and values that exercise rounding and ties.

use histogram::binary64::{b64_add, b64_div, b64_from_u64, b64_is_nan, b64_le, b64_lt, b64_mul};

fn sample_values() -> Vec<f64> {
    vec![
        0.0,
        -0.0,
        1.0,
        -1.0,
        0.5,
        -0.5,
        2.0,
        100.0,
        120.0,
        144.0,
        1.2,
        0.1,
        0.005,
        10.0,
        -15.0,
        5.0,
        1e-300,
        -1e-300,
        1e300,
        -1e300,
        4.9e-324,
        -4.9e-324,
        2.2250738585072014e-308,
        1.0000000000000002,
        0.9999999999999999,
        3.141592653589793,
        -2.718281828459045,
        1e9,
        1e-9,
        6.25e-2,
        f64::INFINITY,
        f64::NEG_INFINITY,
        f64::NAN,
        f64::MAX,
        f64::MIN,
        f64::MIN_POSITIVE,
        1.5,
        -1.5,
        123456789.123456789,
        -987654321.987654321,
        0.30000000000000004,
        7.0,
        1.0 / 3.0,
        2.0f64.powi(52),
        2.0f64.powi(53),
        2.0f64.powi(53) + 2.0,
        -2.0f64.powi(60),
    ]
}

fn same_bits_or_both_nan(mine: u64, real: f64) -> bool {
    if real.is_nan() {
        b64_is_nan(mine)
    } else {
        mine == real.to_bits()
    }
}

#[test]
fn test_add_matches_hardware() {
    let vals = sample_values();
    for &a in &vals {
        for &b in &vals {
            let mine = b64_add(a.to_bits(), b.to_bits());
            let real = a + b;
            assert!(
                same_bits_or_both_nan(mine, real),
                "add {a:e} {b:e}: mine {mine:#x} real {:#x}",
                real.to_bits()
            );
        }
    }
}

#[test]
fn test_mul_matches_hardware() {
    let vals = sample_values();
    for &a in &vals {
        for &b in &vals {
            let mine = b64_mul(a.to_bits(), b.to_bits());
            let real = a * b;
            assert!(
                same_bits_or_both_nan(mine, real),
                "mul {a:e} {b:e}: mine {mine:#x} real {:#x}",
                real.to_bits()
            );
        }
    }
}

#[test]
fn test_div_matches_hardware() {
    let vals = sample_values();
    for &a in &vals {
        for &b in &vals {
            let mine = b64_div(a.to_bits(), b.to_bits());
            let real = a / b;
            assert!(
                same_bits_or_both_nan(mine, real),
                "div {a:e} {b:e}: mine {mine:#x} real {:#x}",
                real.to_bits()
            );
        }
    }
}

#[test]
fn test_compare_matches_hardware() {
    let vals = sample_values();
    for &a in &vals {
        for &b in &vals {
            assert_eq!(b64_le(a.to_bits(), b.to_bits()), a <= b, "le {a:e} {b:e}");
            assert_eq!(b64_lt(a.to_bits(), b.to_bits()), a < b, "lt {a:e} {b:e}");
        }
    }
}

#[test]
fn test_from_u64_matches_hardware() {
    let ns: Vec<u64> = vec![
        0,
        1,
        2,
        3,
        10,
        999,
        1_000_000_000,
        u64::MAX,
        u64::MAX - 1,
        (1u64 << 53) - 1,
        1u64 << 53,
        (1u64 << 53) + 1,
        (1u64 << 53) + 2,
        (1u64 << 53) + 3,
        0xDEAD_BEEF_CAFE_F00D,
        1u64 << 63,
    ];
    for &n in &ns {
        let mine = b64_from_u64(n);
        let real = n as f64;
        assert_eq!(mine, real.to_bits(), "from_u64 {n}");
    }
}

#[test]
fn test_arithmetic_on_generated_patterns() {
    // A deterministic congruential generator yields raw bit patterns of
    // every flavor; the bit-level operations must agree with the
    // hardware on each pair.
    let mut x: u64 = 0x1234_5678_9ABC_DEF0;
    let mut vals: Vec<u64> = Vec::new();
    for _ in 0..300 {
        x = x.wrapping_mul(6364136223846793005).wrapping_add(1442695040888963407);
        vals.push(x);
    }
    for i in 0..vals.len() {
        let a = f64::from_bits(vals[i]);
        let b = f64::from_bits(vals[(i * 7 + 3) % vals.len()]);
        assert!(same_bits_or_both_nan(b64_add(a.to_bits(), b.to_bits()), a + b));
        assert!(same_bits_or_both_nan(b64_mul(a.to_bits(), b.to_bits()), a * b));
        assert!(same_bits_or_both_nan(b64_div(a.to_bits(), b.to_bits()), a / b));
        assert_eq!(b64_le(a.to_bits(), b.to_bits()), a <= b);
        assert_eq!(b64_lt(a.to_bits(), b.to_bits()), a < b);
    }
}
