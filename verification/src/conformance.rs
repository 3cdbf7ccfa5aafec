//! The cross-kind conformance harness.
//!
//! A harness of this kind usually feeds sampled pairs to both
//! algorithms and compares the outputs.  Here the two algorithms
//! carry the same contract, so each comparison is proved to return
//! `true` for every pair of its kind — agreement holds on the whole
//! domain, not merely on a sample.  The checks stay executable so a
//! driver can still run them over any pairs it likes, boundary
//! values included.

use vstd::prelude::*;
use crate::kinds::binary_gcd;
use crate::kinds::gcd;

verus! {

/// Runs both algorithms on one pair of unsigned 8-bit values.  The
/// contract pins the answer: they can never disagree.
pub fn algorithms_agree_u8(a: u8, b: u8) -> (r: bool)
    ensures
        r,
{
    gcd(a, b) == binary_gcd(a, b)
}

/// Runs both algorithms on one pair of unsigned 16-bit values.
pub fn algorithms_agree_u16(a: u16, b: u16) -> (r: bool)
    ensures
        r,
{
    gcd(a, b) == binary_gcd(a, b)
}

/// Runs both algorithms on one pair of unsigned 32-bit values.
pub fn algorithms_agree_u32(a: u32, b: u32) -> (r: bool)
    ensures
        r,
{
    gcd(a, b) == binary_gcd(a, b)
}

/// Runs both algorithms on one pair of unsigned 64-bit values.
pub fn algorithms_agree_u64(a: u64, b: u64) -> (r: bool)
    ensures
        r,
{
    gcd(a, b) == binary_gcd(a, b)
}

/// Runs both algorithms on one pair of pointer-sized unsigned values.
pub fn algorithms_agree_usize(a: usize, b: usize) -> (r: bool)
    ensures
        r,
{
    gcd(a, b) == binary_gcd(a, b)
}

/// Runs both algorithms on one pair of signed 8-bit values.
pub fn algorithms_agree_i8(a: i8, b: i8) -> (r: bool)
    ensures
        r,
{
    gcd(a, b) == binary_gcd(a, b)
}

/// Runs both algorithms on one pair of signed 16-bit values.
pub fn algorithms_agree_i16(a: i16, b: i16) -> (r: bool)
    ensures
        r,
{
    gcd(a, b) == binary_gcd(a, b)
}

/// Runs both algorithms on one pair of signed 32-bit values.
pub fn algorithms_agree_i32(a: i32, b: i32) -> (r: bool)
    ensures
        r,
{
    gcd(a, b) == binary_gcd(a, b)
}

/// Runs both algorithms on one pair of signed 64-bit values.
pub fn algorithms_agree_i64(a: i64, b: i64) -> (r: bool)
    ensures
        r,
{
    gcd(a, b) == binary_gcd(a, b)
}

/// Runs both algorithms on one pair of pointer-sized signed values.
pub fn algorithms_agree_isize(a: isize, b: isize) -> (r: bool)
    ensures
        r,
{
    gcd(a, b) == binary_gcd(a, b)
}

} // verus!
