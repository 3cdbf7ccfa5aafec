//! Divisibility of integers, and the small facts about it that the
//! greatest-common-divisor proofs lean on.

use vstd::prelude::*;

verus! {

/// `d` divides `n`: some integer multiple of `d` equals `n`.
pub open spec fn divides(d: int, n: int) -> bool {
    exists|k: int| n == #[trigger] (d * k)
}

/// Everything divides zero.
pub proof fn lemma_divides_zero(d: int)
    ensures
        divides(d, 0),
{
    assert(0 == d * 0);
}

/// Every integer divides itself.
pub proof fn lemma_divides_refl(d: int)
    ensures
        divides(d, d),
{
    assert(d == d * 1);
}

/// A common divisor of two integers divides their sum.
pub proof fn lemma_divides_sum(d: int, x: int, y: int)
    requires
        divides(d, x),
        divides(d, y),
    ensures
        divides(d, x + y),
{
    let kx = choose|k: int| x == #[trigger] (d * k);
    let ky = choose|k: int| y == #[trigger] (d * k);
    assert(x + y == d * (kx + ky)) by (nonlinear_arith)
        requires
            x == d * kx,
            y == d * ky,
    ;
}

/// A common divisor of two integers divides their difference.
pub proof fn lemma_divides_diff(d: int, x: int, y: int)
    requires
        divides(d, x),
        divides(d, y),
    ensures
        divides(d, x - y),
{
    let kx = choose|k: int| x == #[trigger] (d * k);
    let ky = choose|k: int| y == #[trigger] (d * k);
    assert(x - y == d * (kx - ky)) by (nonlinear_arith)
        requires
            x == d * kx,
            y == d * ky,
    ;
}

/// A divisor of an integer divides every multiple of it.
pub proof fn lemma_divides_scaled(d: int, x: int, c: int)
    requires
        divides(d, x),
    ensures
        divides(d, c * x),
{
    let kx = choose|k: int| x == #[trigger] (d * k);
    assert(c * x == d * (c * kx)) by (nonlinear_arith)
        requires
            x == d * kx,
    ;
}

/// A non-negative divisor of a positive integer is no larger than it.
pub proof fn lemma_divides_le(d: int, n: int)
    requires
        divides(d, n),
        0 <= d,
        0 < n,
    ensures
        d <= n,
{
    let k = choose|kk: int| n == #[trigger] (d * kk);
    assert(d <= n) by (nonlinear_arith)
        requires
            n == d * k,
            0 <= d,
            0 < n,
    ;
}

/// Doubling both sides preserves divisibility.
pub proof fn lemma_divides_doubled(d: int, x: int)
    requires
        divides(d, x),
    ensures
        divides(2 * d, 2 * x),
{
    let k = choose|kk: int| x == #[trigger] (d * kk);
    assert(2 * x == (2 * d) * k) by (nonlinear_arith)
        requires
            x == d * k,
    ;
}

/// Halving both sides preserves divisibility.
pub proof fn lemma_divides_halved(d: int, x: int)
    requires
        divides(2 * d, 2 * x),
    ensures
        divides(d, x),
{
    let k = choose|kk: int| 2 * x == #[trigger] ((2 * d) * kk);
    assert(x == d * k) by (nonlinear_arith)
        requires
            2 * x == (2 * d) * k,
    ;
}

/// A non-negative divisor of an odd number is odd.
pub proof fn lemma_odd_divisor(d: int, n: int)
    requires
        divides(d, n),
        n % 2 == 1,
        0 <= d,
    ensures
        d % 2 == 1,
{
    let k = choose|kk: int| n == #[trigger] (d * kk);
    if d % 2 == 0 {
        vstd::arithmetic::div_mod::lemma_fundamental_div_mod(d, 2);
        let e = d / 2;
        assert(n == (e * k) * 2) by (nonlinear_arith)
            requires
                n == d * k,
                d == 2 * e,
        ;
        vstd::arithmetic::div_mod::lemma_mod_multiples_basic(e * k, 2);
    }
}

/// The product of two odd integers is odd.
pub proof fn lemma_odd_times_odd(x: int, y: int)
    requires
        x % 2 == 1,
        y % 2 == 1,
    ensures
        (x * y) % 2 == 1,
{
    vstd::arithmetic::div_mod::lemma_fundamental_div_mod(x, 2);
    vstd::arithmetic::div_mod::lemma_fundamental_div_mod(y, 2);
    let e = x / 2;
    let f = y / 2;
    assert(x * y == 2 * (2 * e * f + e + f) + 1) by (nonlinear_arith)
        requires
            x == 2 * e + 1,
            y == 2 * f + 1,
    ;
    vstd::arithmetic::div_mod::lemma_mod_multiples_vanish(2 * e * f + e + f, 1, 2);
}

/// An odd divisor of twice a number divides the number itself.
pub proof fn lemma_odd_divides_double(d: int, x: int)
    requires
        d % 2 == 1,
        divides(d, 2 * x),
        0 <= x,
    ensures
        divides(d, x),
{
    let k = choose|kk: int| 2 * x == #[trigger] (d * kk);
    if k % 2 == 0 {
        vstd::arithmetic::div_mod::lemma_fundamental_div_mod(k, 2);
        let f = k / 2;
        assert(x == d * f) by (nonlinear_arith)
            requires
                2 * x == d * k,
                k == 2 * f,
        ;
    } else {
        vstd::arithmetic::div_mod::lemma_fundamental_div_mod(k, 2);
        assert(k % 2 == 1);
        lemma_odd_times_odd(d, k);
        vstd::arithmetic::div_mod::lemma_mod_multiples_basic(x, 2);
        assert(2 * x == x * 2);
        assert((d * k) % 2 == 0);
    }
}

/// Two non-negative integers that divide each other are equal.
pub proof fn lemma_divides_antisym(x: nat, y: nat)
    requires
        divides(x as int, y as int),
        divides(y as int, x as int),
    ensures
        x == y,
{
    if x == 0 {
        let k = choose|kk: int| y == #[trigger] (x * kk);
        assert(y == 0 * k == 0) by (nonlinear_arith)
            requires
                y == x * k,
                x == 0,
        ;
    } else if y == 0 {
        let k = choose|kk: int| x == #[trigger] (y * kk);
        assert(x == 0) by (nonlinear_arith)
            requires
                x == y * k,
                y == 0,
        ;
    } else {
        lemma_divides_le(x as int, y as int);
        lemma_divides_le(y as int, x as int);
    }
}

} // verus!
