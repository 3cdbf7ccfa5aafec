//! The per-kind surface: one trait, implemented for every fixed-width
//! signed and unsigned integer kind.
//!
//! Both methods promise the same value, `gcd_full` of the two inputs
//! and of the kind's least value — that is the agreement guarantee
//! between the Euclidean and the binary algorithm, proved once and
//! for all rather than sampled.  Each kind hands its magnitudes to
//! the 64-bit engine; a signed kind maps its minimum, whose magnitude
//! it cannot represent, to that magnitude by hand, and maps the one
//! unrepresentable result back to the minimum.

use vstd::prelude::*;
use crate::engine::euclid_u64;
use crate::engine::stein_u64;
use crate::gcd_math::gcd_full;
use crate::gcd_math::lemma_gcd_bound;

verus! {

/// An integer kind whose values have a greatest common divisor.
pub trait HasGCD: Sized {
    /// The mathematical value a member of the kind stands for.
    spec fn to_int(&self) -> int;

    /// The kind's least representable value: zero for unsigned
    /// kinds, `-2^(w-1)` for signed ones.
    spec fn min_int() -> int;

    /// Euclid's remainder algorithm.
    fn gcd(&self, other: &Self) -> (r: Self)
        ensures
            r.to_int() == gcd_full(self.to_int(), other.to_int(), Self::min_int()),
    ;

    /// Stein's binary algorithm.  It promises the very same value as
    /// `gcd`: the two can never disagree.
    fn binary_gcd(&self, other: &Self) -> (r: Self)
        ensures
            r.to_int() == gcd_full(self.to_int(), other.to_int(), Self::min_int()),
    ;
}

impl HasGCD for u8 {
    open spec fn to_int(&self) -> int {
        *self as int
    }

    open spec fn min_int() -> int {
        0
    }

    fn gcd(&self, other: &Self) -> (r: u8) {
        let g = euclid_u64(*self as u64, *other as u64);
        proof {
            lemma_gcd_bound(*self as nat, *other as nat);
        }
        g as u8
    }

    fn binary_gcd(&self, other: &Self) -> (r: u8) {
        let g = stein_u64(*self as u64, *other as u64);
        proof {
            lemma_gcd_bound(*self as nat, *other as nat);
        }
        g as u8
    }
}

impl HasGCD for u16 {
    open spec fn to_int(&self) -> int {
        *self as int
    }

    open spec fn min_int() -> int {
        0
    }

    fn gcd(&self, other: &Self) -> (r: u16) {
        let g = euclid_u64(*self as u64, *other as u64);
        proof {
            lemma_gcd_bound(*self as nat, *other as nat);
        }
        g as u16
    }

    fn binary_gcd(&self, other: &Self) -> (r: u16) {
        let g = stein_u64(*self as u64, *other as u64);
        proof {
            lemma_gcd_bound(*self as nat, *other as nat);
        }
        g as u16
    }
}

impl HasGCD for u32 {
    open spec fn to_int(&self) -> int {
        *self as int
    }

    open spec fn min_int() -> int {
        0
    }

    fn gcd(&self, other: &Self) -> (r: u32) {
        let g = euclid_u64(*self as u64, *other as u64);
        proof {
            lemma_gcd_bound(*self as nat, *other as nat);
        }
        g as u32
    }

    fn binary_gcd(&self, other: &Self) -> (r: u32) {
        let g = stein_u64(*self as u64, *other as u64);
        proof {
            lemma_gcd_bound(*self as nat, *other as nat);
        }
        g as u32
    }
}

impl HasGCD for u64 {
    open spec fn to_int(&self) -> int {
        *self as int
    }

    open spec fn min_int() -> int {
        0
    }

    fn gcd(&self, other: &Self) -> (r: u64) {
        euclid_u64(*self, *other)
    }

    fn binary_gcd(&self, other: &Self) -> (r: u64) {
        stein_u64(*self, *other)
    }
}

impl HasGCD for usize {
    open spec fn to_int(&self) -> int {
        *self as int
    }

    open spec fn min_int() -> int {
        0
    }

    fn gcd(&self, other: &Self) -> (r: usize) {
        let g = euclid_u64(*self as u64, *other as u64);
        proof {
            lemma_gcd_bound(*self as nat, *other as nat);
        }
        g as usize
    }

    fn binary_gcd(&self, other: &Self) -> (r: usize) {
        let g = stein_u64(*self as u64, *other as u64);
        proof {
            lemma_gcd_bound(*self as nat, *other as nat);
        }
        g as usize
    }
}

/// The magnitude of a signed 8-bit value, in a kind wide enough to
/// hold the magnitude of the minimum.
fn magnitude_i8(x: i8) -> (r: u64)
    ensures
        r as nat == vstd::math::abs(x as int),
{
    if x >= 0 {
        x as u64
    } else if x == i8::MIN {
        (i8::MAX as u64) + 1
    } else {
        (-x) as u64
    }
}

impl HasGCD for i8 {
    open spec fn to_int(&self) -> int {
        *self as int
    }

    open spec fn min_int() -> int {
        i8::MIN as int
    }

    fn gcd(&self, other: &Self) -> (r: i8) {
        let am = magnitude_i8(*self);
        let bm = magnitude_i8(*other);
        let g = euclid_u64(am, bm);
        proof {
            lemma_gcd_bound(am as nat, bm as nat);
        }
        if g == (i8::MAX as u64) + 1 {
            i8::MIN
        } else {
            g as i8
        }
    }

    fn binary_gcd(&self, other: &Self) -> (r: i8) {
        let am = magnitude_i8(*self);
        let bm = magnitude_i8(*other);
        let g = stein_u64(am, bm);
        proof {
            lemma_gcd_bound(am as nat, bm as nat);
        }
        if g == (i8::MAX as u64) + 1 {
            i8::MIN
        } else {
            g as i8
        }
    }
}

/// The magnitude of a signed 16-bit value, in a kind wide enough to
/// hold the magnitude of the minimum.
fn magnitude_i16(x: i16) -> (r: u64)
    ensures
        r as nat == vstd::math::abs(x as int),
{
    if x >= 0 {
        x as u64
    } else if x == i16::MIN {
        (i16::MAX as u64) + 1
    } else {
        (-x) as u64
    }
}

impl HasGCD for i16 {
    open spec fn to_int(&self) -> int {
        *self as int
    }

    open spec fn min_int() -> int {
        i16::MIN as int
    }

    fn gcd(&self, other: &Self) -> (r: i16) {
        let am = magnitude_i16(*self);
        let bm = magnitude_i16(*other);
        let g = euclid_u64(am, bm);
        proof {
            lemma_gcd_bound(am as nat, bm as nat);
        }
        if g == (i16::MAX as u64) + 1 {
            i16::MIN
        } else {
            g as i16
        }
    }

    fn binary_gcd(&self, other: &Self) -> (r: i16) {
        let am = magnitude_i16(*self);
        let bm = magnitude_i16(*other);
        let g = stein_u64(am, bm);
        proof {
            lemma_gcd_bound(am as nat, bm as nat);
        }
        if g == (i16::MAX as u64) + 1 {
            i16::MIN
        } else {
            g as i16
        }
    }
}

/// The magnitude of a signed 32-bit value, in a kind wide enough to
/// hold the magnitude of the minimum.
fn magnitude_i32(x: i32) -> (r: u64)
    ensures
        r as nat == vstd::math::abs(x as int),
{
    if x >= 0 {
        x as u64
    } else if x == i32::MIN {
        (i32::MAX as u64) + 1
    } else {
        (-x) as u64
    }
}

impl HasGCD for i32 {
    open spec fn to_int(&self) -> int {
        *self as int
    }

    open spec fn min_int() -> int {
        i32::MIN as int
    }

    fn gcd(&self, other: &Self) -> (r: i32) {
        let am = magnitude_i32(*self);
        let bm = magnitude_i32(*other);
        let g = euclid_u64(am, bm);
        proof {
            lemma_gcd_bound(am as nat, bm as nat);
        }
        if g == (i32::MAX as u64) + 1 {
            i32::MIN
        } else {
            g as i32
        }
    }

    fn binary_gcd(&self, other: &Self) -> (r: i32) {
        let am = magnitude_i32(*self);
        let bm = magnitude_i32(*other);
        let g = stein_u64(am, bm);
        proof {
            lemma_gcd_bound(am as nat, bm as nat);
        }
        if g == (i32::MAX as u64) + 1 {
            i32::MIN
        } else {
            g as i32
        }
    }
}

/// The magnitude of a signed 64-bit value, in a kind wide enough to
/// hold the magnitude of the minimum.
fn magnitude_i64(x: i64) -> (r: u64)
    ensures
        r as nat == vstd::math::abs(x as int),
{
    if x >= 0 {
        x as u64
    } else if x == i64::MIN {
        (i64::MAX as u64) + 1
    } else {
        (-x) as u64
    }
}

impl HasGCD for i64 {
    open spec fn to_int(&self) -> int {
        *self as int
    }

    open spec fn min_int() -> int {
        i64::MIN as int
    }

    fn gcd(&self, other: &Self) -> (r: i64) {
        let am = magnitude_i64(*self);
        let bm = magnitude_i64(*other);
        let g = euclid_u64(am, bm);
        proof {
            lemma_gcd_bound(am as nat, bm as nat);
        }
        if g == (i64::MAX as u64) + 1 {
            i64::MIN
        } else {
            g as i64
        }
    }

    fn binary_gcd(&self, other: &Self) -> (r: i64) {
        let am = magnitude_i64(*self);
        let bm = magnitude_i64(*other);
        let g = stein_u64(am, bm);
        proof {
            lemma_gcd_bound(am as nat, bm as nat);
        }
        if g == (i64::MAX as u64) + 1 {
            i64::MIN
        } else {
            g as i64
        }
    }
}

/// The magnitude of a pointer-sized signed value, in a kind wide
/// enough to hold the magnitude of the minimum.
fn magnitude_isize(x: isize) -> (r: u64)
    ensures
        r as nat == vstd::math::abs(x as int),
{
    if x >= 0 {
        x as u64
    } else if x == isize::MIN {
        (isize::MAX as u64) + 1
    } else {
        (-x) as u64
    }
}

impl HasGCD for isize {
    open spec fn to_int(&self) -> int {
        *self as int
    }

    open spec fn min_int() -> int {
        isize::MIN as int
    }

    fn gcd(&self, other: &Self) -> (r: isize) {
        let am = magnitude_isize(*self);
        let bm = magnitude_isize(*other);
        let g = euclid_u64(am, bm);
        proof {
            lemma_gcd_bound(am as nat, bm as nat);
        }
        if g == (isize::MAX as u64) + 1 {
            isize::MIN
        } else {
            g as isize
        }
    }

    fn binary_gcd(&self, other: &Self) -> (r: isize) {
        let am = magnitude_isize(*self);
        let bm = magnitude_isize(*other);
        let g = stein_u64(am, bm);
        proof {
            lemma_gcd_bound(am as nat, bm as nat);
        }
        if g == (isize::MAX as u64) + 1 {
            isize::MIN
        } else {
            g as isize
        }
    }
}

/// Euclid's remainder algorithm, on any supported integer kind.
pub fn gcd<T: HasGCD>(a: T, b: T) -> (r: T)
    ensures
        r.to_int() == gcd_full(a.to_int(), b.to_int(), T::min_int()),
{
    a.gcd(&b)
}

/// Stein's binary algorithm, on any supported integer kind.  Its
/// contract is word for word that of `gcd`: on every input of every
/// kind the two return the same value.
pub fn binary_gcd<T: HasGCD>(a: T, b: T) -> (r: T)
    ensures
        r.to_int() == gcd_full(a.to_int(), b.to_int(), T::min_int()),
{
    a.binary_gcd(&b)
}

} // verus!
