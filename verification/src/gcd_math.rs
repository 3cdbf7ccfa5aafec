//! The mathematical greatest common divisor, defined by Euclid's
//! recurrence, and the identities about it that both executable
//! algorithms are proved against.

use vstd::prelude::*;
use crate::divisibility::divides;
use crate::divisibility::lemma_divides_zero;
use crate::divisibility::lemma_divides_refl;
use crate::divisibility::lemma_divides_sum;
use crate::divisibility::lemma_divides_diff;
use crate::divisibility::lemma_divides_scaled;
use crate::divisibility::lemma_divides_le;
use crate::divisibility::lemma_divides_antisym;
use crate::divisibility::lemma_divides_doubled;
use crate::divisibility::lemma_divides_halved;
use crate::divisibility::lemma_odd_divisor;
use crate::divisibility::lemma_odd_divides_double;

verus! {

/// The greatest common divisor of two natural numbers, by Euclid's
/// recurrence.  `gcd_nat(0, b) == b`, so `gcd_nat(0, 0) == 0`.
pub open spec fn gcd_nat(a: nat, b: nat) -> nat
    decreases a,
{
    if a == 0 {
        b
    } else {
        gcd_nat(b % a, a)
    }
}

/// The greatest common divisor divides both of its arguments.
pub proof fn lemma_gcd_divides(a: nat, b: nat)
    ensures
        divides(gcd_nat(a, b) as int, a as int),
        divides(gcd_nat(a, b) as int, b as int),
    decreases a,
{
    if a == 0 {
        lemma_divides_zero(b as int);
        lemma_divides_refl(b as int);
    } else {
        let g = gcd_nat(a, b) as int;
        let q = (b as int) / (a as int);
        let r = (b as int) % (a as int);
        lemma_gcd_divides(b % a, a);
        vstd::arithmetic::div_mod::lemma_fundamental_div_mod(b as int, a as int);
        assert(r == (b % a) as int);
        lemma_divides_scaled(g, a as int, q);
        lemma_divides_sum(g, q * (a as int), r);
        assert(q * (a as int) + r == b as int) by (nonlinear_arith)
            requires
                b as int == (a as int) * q + r,
        ;
    }
}

/// Every common divisor of the two arguments divides their greatest
/// common divisor.
pub proof fn lemma_gcd_greatest(a: nat, b: nat, d: int)
    requires
        divides(d, a as int),
        divides(d, b as int),
    ensures
        divides(d, gcd_nat(a, b) as int),
    decreases a,
{
    if a != 0 {
        vstd::arithmetic::div_mod::lemma_fundamental_div_mod(b as int, a as int);
        lemma_divides_scaled(d, a as int, (b as int) / (a as int));
        lemma_divides_diff(d, b as int, ((b as int) / (a as int)) * (a as int));
        lemma_gcd_greatest(b % a, a, d);
    }
}

/// The greatest common divisor does not depend on argument order.
pub proof fn lemma_gcd_comm(a: nat, b: nat)
    ensures
        gcd_nat(a, b) == gcd_nat(b, a),
{
    lemma_gcd_divides(a, b);
    lemma_gcd_divides(b, a);
    lemma_gcd_greatest(b, a, gcd_nat(a, b) as int);
    lemma_gcd_greatest(a, b, gcd_nat(b, a) as int);
    lemma_divides_antisym(gcd_nat(a, b), gcd_nat(b, a));
}

/// Zero is a neutral argument: the greatest common divisor with zero
/// is the other argument.
pub proof fn lemma_gcd_zero(a: nat)
    ensures
        gcd_nat(a, 0) == a,
        gcd_nat(0, a) == a,
{
    if a != 0 {
        assert(gcd_nat(a, 0) == gcd_nat(0, a));
    }
}

/// Equal arguments are their own greatest common divisor.
pub proof fn lemma_gcd_self(a: nat)
    ensures
        gcd_nat(a, a) == a,
{
    lemma_gcd_divides(a, a);
    lemma_divides_refl(a as int);
    lemma_gcd_greatest(a, a, a as int);
    lemma_divides_antisym(gcd_nat(a, a), a);
}

/// The greatest common divisor is bounded by each non-zero argument,
/// and vanishes only when both arguments do.
pub proof fn lemma_gcd_bound(a: nat, b: nat)
    ensures
        a > 0 ==> 1 <= gcd_nat(a, b) <= a,
        b > 0 ==> 1 <= gcd_nat(a, b) <= b,
        a == 0 && b == 0 ==> gcd_nat(a, b) == 0,
{
    let g = gcd_nat(a, b);
    lemma_gcd_divides(a, b);
    if a > 0 {
        lemma_divides_le(g as int, a as int);
        if g == 0 {
            let k = choose|kk: int| a == #[trigger] ((g as int) * kk);
            assert(a == 0int * k == 0) by (nonlinear_arith)
                requires
                    a == (g as int) * k,
                    g == 0,
            ;
        }
    }
    if b > 0 {
        lemma_divides_le(g as int, b as int);
        if g == 0 {
            let k = choose|kk: int| b == #[trigger] ((g as int) * kk);
            assert(b == 0int * k == 0) by (nonlinear_arith)
                requires
                    b == (g as int) * k,
                    g == 0,
            ;
        }
    }
}

/// A factor of two common to both arguments comes out of the
/// greatest common divisor.
pub proof fn lemma_gcd_double(a: nat, b: nat)
    ensures
        gcd_nat(2 * a, 2 * b) == 2 * gcd_nat(a, b),
{
    let g = gcd_nat(a, b) as int;
    let h = gcd_nat(2 * a, 2 * b) as int;
    lemma_gcd_divides(a, b);
    lemma_gcd_divides(2 * a, 2 * b);
    lemma_divides_doubled(g, a as int);
    lemma_divides_doubled(g, b as int);
    lemma_gcd_greatest(2 * a, 2 * b, 2 * g);
    assert(divides(2, 2 * (a as int)));
    assert(divides(2, 2 * (b as int)));
    lemma_gcd_greatest(2 * a, 2 * b, 2);
    let j = choose|kk: int| h == #[trigger] (2 * kk);
    assert(divides(2 * j, 2 * (a as int))) by {
        assert(h == (2 * j));
    }
    lemma_divides_halved(j, a as int);
    lemma_divides_halved(j, b as int);
    lemma_gcd_greatest(a, b, j);
    lemma_divides_doubled(j, g);
    assert(divides(h, 2 * g));
    lemma_divides_antisym(gcd_nat(2 * a, 2 * b), (2 * g) as nat);
}

/// When one argument is odd, a factor of two on the other argument
/// does not change the greatest common divisor.
pub proof fn lemma_gcd_odd_halve(m: nat, n: nat)
    requires
        n % 2 == 1,
    ensures
        gcd_nat(2 * m, n) == gcd_nat(m, n),
{
    let g = gcd_nat(m, n) as int;
    let h = gcd_nat(2 * m, n) as int;
    lemma_gcd_divides(m, n);
    lemma_gcd_divides(2 * m, n);
    lemma_divides_scaled(g, m as int, 2);
    assert(divides(g, 2 * (m as int)));
    lemma_gcd_greatest(2 * m, n, g);
    lemma_odd_divisor(h, n as int);
    lemma_odd_divides_double(h, m as int);
    lemma_gcd_greatest(m, n, h);
    lemma_divides_antisym(gcd_nat(2 * m, n), gcd_nat(m, n));
}

/// Subtracting the smaller argument from the larger leaves the
/// greatest common divisor unchanged.
pub proof fn lemma_gcd_sub(m: nat, n: nat)
    requires
        n <= m,
    ensures
        gcd_nat((m - n) as nat, n) == gcd_nat(m, n),
{
    let g = gcd_nat(m, n) as int;
    let h = gcd_nat((m - n) as nat, n) as int;
    lemma_gcd_divides(m, n);
    lemma_gcd_divides((m - n) as nat, n);
    lemma_divides_diff(g, m as int, n as int);
    lemma_gcd_greatest((m - n) as nat, n, g);
    lemma_divides_sum(h, (m - n) as int, n as int);
    lemma_gcd_greatest(m, n, h);
    lemma_divides_antisym(gcd_nat(m, n), gcd_nat((m - n) as nat, n));
}

/// The value a greatest-common-divisor routine of a fixed-width kind
/// must return for inputs `a` and `b`, where `min` is the kind's
/// least value (zero for unsigned kinds, `-2^(w-1)` for signed ones).
///
/// The result is the mathematical greatest common divisor of the two
/// magnitudes, with one documented deviation: when that value is the
/// magnitude of `min` itself — which a signed kind cannot represent
/// as a positive number — the result is `min`, negative.
pub open spec fn gcd_full(a: int, b: int, min: int) -> int {
    let g = gcd_nat(vstd::math::abs(a), vstd::math::abs(b)) as int;
    if min < 0 && g == -min {
        min
    } else {
        g
    }
}

/// `a` lies in the range of a kind whose least value is `min`: a
/// two's-complement range for negative `min`, a non-negative range
/// for `min == 0`.
pub open spec fn in_kind_range(a: int, min: int) -> bool {
    if min < 0 {
        min <= a <= -min - 1
    } else {
        min == 0 && 0 <= a
    }
}

/// Commutativity: the result never depends on argument order.
pub proof fn lemma_gcd_full_comm(a: int, b: int, min: int)
    ensures
        gcd_full(a, b, min) == gcd_full(b, a, min),
{
    lemma_gcd_comm(vstd::math::abs(a), vstd::math::abs(b));
}

/// Identity with zero: pairing any value with zero returns the
/// value's absolute value, except the signed minimum, whose absolute
/// value is not representable and which is returned unchanged.
pub proof fn lemma_gcd_full_zero(a: int, min: int)
    requires
        in_kind_range(a, min),
    ensures
        gcd_full(a, 0, min) == (if a == min && min < 0 {
            min
        } else {
            vstd::math::abs(a) as int
        }),
        gcd_full(0, a, min) == gcd_full(a, 0, min),
{
    lemma_gcd_zero(vstd::math::abs(a));
    lemma_gcd_full_comm(0, a, min);
}

/// Idempotence under equal inputs: pairing a value with itself
/// returns its absolute value, with the same signed-minimum caveat.
pub proof fn lemma_gcd_full_self(a: int, min: int)
    requires
        in_kind_range(a, min),
    ensures
        gcd_full(a, a, min) == (if a == min && min < 0 {
            min
        } else {
            vstd::math::abs(a) as int
        }),
{
    lemma_gcd_self(vstd::math::abs(a));
}

/// The result always fits the inputs' kind, and is negative only in
/// the documented deviation: it is then the kind's minimum, and one
/// of the inputs was the minimum itself.
pub proof fn lemma_gcd_full_range(a: int, b: int, min: int)
    requires
        in_kind_range(a, min),
        in_kind_range(b, min),
    ensures
        in_kind_range(gcd_full(a, b, min), min),
        gcd_full(a, b, min) < 0 ==> gcd_full(a, b, min) == min && (a == min || b == min),
{
    let am = vstd::math::abs(a);
    let bm = vstd::math::abs(b);
    let g = gcd_nat(am, bm);
    lemma_gcd_bound(am, bm);
    if min < 0 && g as int == -min {
        if am < -min {
            assert(am == 0);
        }
    }
}

} // verus!
