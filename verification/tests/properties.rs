//! Concrete checks of the stated properties: commutativity, identity
//! with zero, idempotence under equal inputs, exact values, and the
//! boundary behaviour of each kind, the signed minimum above all.

use gcd_engine::binary_gcd;
use gcd_engine::conformance::algorithms_agree_i16;
use gcd_engine::conformance::algorithms_agree_i32;
use gcd_engine::conformance::algorithms_agree_i64;
use gcd_engine::conformance::algorithms_agree_i8;
use gcd_engine::conformance::algorithms_agree_isize;
use gcd_engine::conformance::algorithms_agree_u16;
use gcd_engine::conformance::algorithms_agree_u32;
use gcd_engine::conformance::algorithms_agree_u64;
use gcd_engine::conformance::algorithms_agree_u8;
use gcd_engine::conformance::algorithms_agree_usize;
use gcd_engine::gcd;

#[test]
fn exact_values_unsigned() {
    assert_eq!(gcd(12u8, 8u8), 4);
    assert_eq!(binary_gcd(12u8, 8u8), 4);
    assert_eq!(gcd(48u16, 18u16), 6);
    assert_eq!(binary_gcd(48u16, 18u16), 6);
    assert_eq!(gcd(270u32, 192u32), 6);
    assert_eq!(binary_gcd(270u32, 192u32), 6);
    assert_eq!(gcd(1071u64, 462u64), 21);
    assert_eq!(binary_gcd(1071u64, 462u64), 21);
    assert_eq!(gcd(1071usize, 462usize), 21);
    assert_eq!(binary_gcd(1071usize, 462usize), 21);
}

#[test]
fn exact_values_signed() {
    assert_eq!(gcd(-6i8, 9i8), 3);
    assert_eq!(binary_gcd(-6i8, 9i8), 3);
    assert_eq!(gcd(-48i16, -18i16), 6);
    assert_eq!(binary_gcd(-48i16, -18i16), 6);
    assert_eq!(gcd(270i32, -192i32), 6);
    assert_eq!(binary_gcd(270i32, -192i32), 6);
    assert_eq!(gcd(-1071i64, -462i64), 21);
    assert_eq!(binary_gcd(-1071i64, -462i64), 21);
    assert_eq!(gcd(-1071isize, 462isize), 21);
    assert_eq!(binary_gcd(-1071isize, 462isize), 21);
}

#[test]
fn powers_of_two() {
    let big: u64 = 1 << 40;
    let small: u64 = 1 << 20;
    assert_eq!(gcd(big, small), small);
    assert_eq!(binary_gcd(big, small), small);
    assert_eq!(binary_gcd(96u32, 36u32), 12);
}

#[test]
fn commutativity() {
    assert_eq!(gcd(12u8, 18u8), gcd(18u8, 12u8));
    assert_eq!(binary_gcd(12u8, 18u8), binary_gcd(18u8, 12u8));
    assert_eq!(gcd(-35i32, 21i32), gcd(21i32, -35i32));
    assert_eq!(binary_gcd(-35i32, 21i32), binary_gcd(21i32, -35i32));
    assert_eq!(gcd(i64::MIN, 6i64), gcd(6i64, i64::MIN));
    assert_eq!(binary_gcd(i64::MIN, 6i64), binary_gcd(6i64, i64::MIN));
}

#[test]
fn identity_with_zero() {
    assert_eq!(gcd(0u8, 0u8), 0);
    assert_eq!(binary_gcd(0u8, 0u8), 0);
    assert_eq!(gcd(0u64, u64::MAX), u64::MAX);
    assert_eq!(binary_gcd(u64::MAX, 0u64), u64::MAX);
    assert_eq!(gcd(-7i32, 0i32), 7);
    assert_eq!(gcd(0i32, -7i32), 7);
    assert_eq!(binary_gcd(-7i32, 0i32), 7);
    assert_eq!(binary_gcd(0i32, -7i32), 7);
    // The signed minimum has no positive counterpart: it comes back
    // unchanged.
    assert_eq!(gcd(i8::MIN, 0i8), i8::MIN);
    assert_eq!(gcd(0i8, i8::MIN), i8::MIN);
    assert_eq!(binary_gcd(i8::MIN, 0i8), i8::MIN);
    assert_eq!(binary_gcd(0i8, i8::MIN), i8::MIN);
    assert_eq!(binary_gcd(i64::MIN, 0i64), i64::MIN);
}

#[test]
fn idempotence_under_equal_inputs() {
    assert_eq!(gcd(9u16, 9u16), 9);
    assert_eq!(binary_gcd(9u16, 9u16), 9);
    assert_eq!(gcd(-9i16, -9i16), 9);
    assert_eq!(binary_gcd(-9i16, -9i16), 9);
    assert_eq!(gcd(i64::MIN, i64::MIN), i64::MIN);
    assert_eq!(binary_gcd(i64::MIN, i64::MIN), i64::MIN);
    assert_eq!(gcd(isize::MIN, isize::MIN), isize::MIN);
    assert_eq!(binary_gcd(isize::MIN, isize::MIN), isize::MIN);
}

#[test]
fn wide_kind_border_cases() {
    assert_eq!(binary_gcd(i64::MIN, i64::MAX), 1);
    assert_eq!(gcd(i64::MIN, i64::MAX), 1);
    assert_eq!(binary_gcd(i64::MIN, 6i64), 2);
    assert_eq!(gcd(i64::MIN, 6i64), 2);
    assert_eq!(binary_gcd(u64::MAX, u64::MAX), u64::MAX);
    assert_eq!(gcd(u64::MAX, u64::MAX), u64::MAX);
    assert_eq!(binary_gcd(usize::MAX, usize::MAX), usize::MAX);
    assert_eq!(binary_gcd(isize::MIN, isize::MAX), 1);
}

#[test]
fn conformance_harness_boundaries() {
    // The four boundary combinations of every kind, through the
    // verified per-kind agreement checks.
    for &(a, b) in &[
        (u8::MIN, u8::MIN),
        (u8::MIN, u8::MAX),
        (u8::MAX, u8::MIN),
        (u8::MAX, u8::MAX),
    ] {
        assert!(algorithms_agree_u8(a, b));
    }
    assert!(algorithms_agree_u16(u16::MAX, u16::MIN));
    assert!(algorithms_agree_u32(u32::MAX, u32::MAX));
    assert!(algorithms_agree_u64(u64::MAX, u64::MAX - 1));
    assert!(algorithms_agree_usize(usize::MAX, 2));
    for &(a, b) in &[
        (i8::MIN, i8::MIN),
        (i8::MIN, i8::MAX),
        (i8::MAX, i8::MIN),
        (i8::MAX, i8::MAX),
    ] {
        assert!(algorithms_agree_i8(a, b));
    }
    assert!(algorithms_agree_i16(i16::MIN, i16::MAX));
    assert!(algorithms_agree_i32(i32::MIN, -2));
    assert!(algorithms_agree_i64(i64::MIN, i64::MIN));
    assert!(algorithms_agree_isize(isize::MIN, isize::MAX));
}

#[test]
fn agreement_sampled_wide() {
    // A coarse walk across i64, minimum and maximum included.
    let samples: [i64; 9] = [i64::MIN, i64::MIN + 1, -1024, -3, 0, 5, 4096, i64::MAX - 1, i64::MAX];
    for &a in samples.iter() {
        for &b in samples.iter() {
            assert_eq!(gcd(a, b), binary_gcd(a, b), "a: {}, b: {}", a, b);
        }
    }
}
