//! The two executable algorithms, on 64-bit magnitudes.
//!
//! Every integer kind the crate supports funnels its magnitudes
//! through these two routines, so the algorithms are verified once,
//! against the same mathematical definition.

use vstd::prelude::*;
use vstd::arithmetic::power2::pow2;
use vstd::arithmetic::power2::lemma_pow2_unfold;
use vstd::arithmetic::power2::lemma_pow2_strictly_increases;
use vstd::arithmetic::power2::lemma2_to64;
use crate::gcd_math::gcd_nat;
use crate::gcd_math::lemma_gcd_zero;
use crate::gcd_math::lemma_gcd_comm;
use crate::gcd_math::lemma_gcd_sub;
use crate::gcd_math::lemma_gcd_bound;
use crate::gcd_math::lemma_gcd_double;
use crate::gcd_math::lemma_gcd_odd_halve;

verus! {

/// Euclid's remainder algorithm: replace `(m, n)` by `(n mod m, m)`
/// until `m` is zero, then `n` is the greatest common divisor.
pub fn euclid_u64(a: u64, b: u64) -> (r: u64)
    ensures
        r as nat == gcd_nat(a as nat, b as nat),
{
    let mut m = a;
    let mut n = b;
    while m != 0
        invariant
            gcd_nat(m as nat, n as nat) == gcd_nat(a as nat, b as nat),
        decreases m,
    {
        let t = m;
        m = n % t;
        n = t;
    }
    n
}

/// Stein's binary algorithm: pull the common factor of two out of
/// both arguments, reduce the rest by halving and subtraction alone,
/// then scale the odd remainder back up.
pub fn stein_u64(a: u64, b: u64) -> (r: u64)
    ensures
        r as nat == gcd_nat(a as nat, b as nat),
{
    if a == 0 {
        return b;
    }
    if b == 0 {
        proof {
            lemma_gcd_zero(a as nat);
        }
        return a;
    }
    let ghost g: nat = gcd_nat(a as nat, b as nat);
    proof {
        lemma_gcd_bound(a as nat, b as nat);
        lemma2_to64();
    }
    let mut m = a;
    let mut n = b;
    let mut shift: u64 = 0;

    // Pull out the factor of two common to both arguments; it is the
    // power of two carried by the eventual result.
    while m % 2 == 0 && n % 2 == 0
        invariant
            1 <= m,
            1 <= n,
            shift <= 63,
            (m as nat) * pow2(shift as nat) == a as nat,
            (n as nat) * pow2(shift as nat) == b as nat,
            pow2(shift as nat) * gcd_nat(m as nat, n as nat) == g,
        decreases m,
    {
        proof {
            let s = shift as nat;
            lemma_pow2_unfold(s + 1);
            lemma_gcd_double((m as nat) / 2, (n as nat) / 2);
            assert(2 * ((m as nat) / 2) == m as nat);
            assert(((m as nat) / 2) * pow2(s + 1) == (m as nat) * pow2(s)) by (nonlinear_arith)
                requires
                    pow2(s + 1) == 2 * pow2(s),
                    2 * ((m as nat) / 2) == m as nat,
            ;
            assert(((n as nat) / 2) * pow2(s + 1) == (n as nat) * pow2(s)) by (nonlinear_arith)
                requires
                    pow2(s + 1) == 2 * pow2(s),
                    2 * ((n as nat) / 2) == n as nat,
            ;
            assert(pow2(s + 1) * gcd_nat((m as nat) / 2, (n as nat) / 2) == pow2(s) * (2
                * gcd_nat((m as nat) / 2, (n as nat) / 2))) by (nonlinear_arith)
                requires
                    pow2(s + 1) == 2 * pow2(s),
            ;
            if shift == 63 {
                lemma2_to64();
                assert((m as nat) * pow2(64) >= 2 * pow2(64)) by (nonlinear_arith)
                    requires
                        m as nat >= 2,
                ;
            }
        }
        m = m / 2;
        n = n / 2;
        shift = shift + 1;
    }

    // Make `n` odd; factors of two left in only one side are not
    // common, so they do not change the greatest common divisor.
    while n % 2 == 0
        invariant
            1 <= m,
            1 <= n,
            m % 2 == 1 || n % 2 == 1,
            pow2(shift as nat) * gcd_nat(m as nat, n as nat) == g,
        decreases n,
    {
        proof {
            lemma_gcd_comm(m as nat, (n as nat) / 2);
            lemma_gcd_comm(m as nat, n as nat);
            lemma_gcd_odd_halve((n as nat) / 2, m as nat);
            assert(2 * ((n as nat) / 2) == n as nat);
        }
        n = n / 2;
    }

    // Strip `m`, keep the larger value in `m`, and subtract; the pair
    // shrinks while its greatest common divisor stays put.
    while m != 0
        invariant
            1 <= n,
            n % 2 == 1,
            pow2(shift as nat) * gcd_nat(m as nat, n as nat) == g,
        decreases m + n,
    {
        let ghost m0: u64 = m;
        let ghost n0: u64 = n;
        while m % 2 == 0
            invariant
                1 <= m,
                m <= m0,
                n == n0,
                n % 2 == 1,
                pow2(shift as nat) * gcd_nat(m as nat, n as nat) == g,
            decreases m,
        {
            proof {
                lemma_gcd_odd_halve((m as nat) / 2, n as nat);
                assert(2 * ((m as nat) / 2) == m as nat);
            }
            m = m / 2;
        }
        if n > m {
            proof {
                lemma_gcd_comm(m as nat, n as nat);
            }
            let t = m;
            m = n;
            n = t;
        }
        proof {
            lemma_gcd_sub(m as nat, n as nat);
        }
        m = m - n;
    }

    // The remainder times the saved power of two is the result.
    proof {
        assert(gcd_nat(0, n as nat) == n as nat);
    }
    let mut r = n;
    let mut i: u64 = 0;
    while i < shift
        invariant
            i <= shift,
            1 <= n,
            r as nat == (n as nat) * pow2(i as nat),
            (n as nat) * pow2(shift as nat) == g,
            g <= u64::MAX,
        decreases shift - i,
    {
        proof {
            let ii = i as nat;
            let s = shift as nat;
            lemma_pow2_unfold(ii + 1);
            if ii + 1 < s {
                lemma_pow2_strictly_increases(ii + 1, s);
            }
            assert((n as nat) * pow2(ii + 1) <= (n as nat) * pow2(s)) by (nonlinear_arith)
                requires
                    pow2(ii + 1) <= pow2(s),
                    1 <= n as nat,
            ;
            assert(2 * ((n as nat) * pow2(ii)) == (n as nat) * pow2(ii + 1)) by (nonlinear_arith)
                requires
                    pow2(ii + 1) == 2 * pow2(ii),
            ;
        }
        r = r * 2;
        i = i + 1;
    }
    r
}

} // verus!
