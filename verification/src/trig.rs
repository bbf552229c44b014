//! Fixed-point sine and cosine.
//!
//! The angle (in radians, as an [`Fx`]) is reduced modulo a full turn, folded
//! into the quarter-wave range, and fed to the odd Taylor polynomial
//! `x - x^3/6 + x^5/120 - x^7/5040`, evaluated with the crate's saturating
//! fixed-point operations and clamped to `[-1, 1]`. The result is exact at
//! zero and within a few raw steps of the real function elsewhere; the
//! contracts state the computed value exactly.

use vstd::prelude::*;
use crate::fx::{Fx, FX_ONE, fx_add, fx_sub, fx_mul, fx_divi, iabs, tdiv};

verus! {

/// A full turn in raw units: `2 * pi * 65536`, rounded to nearest.
pub const TWO_PI_RAW: i64 = 411775;

/// Half a turn in raw units.
pub const PI_RAW: i64 = 205887;

/// A quarter turn in raw units.
pub const HALF_PI_RAW: i64 = 102944;

/// The angle reduced into the quarter-wave range `[-HALF_PI_RAW - 2,
/// HALF_PI_RAW]`, on which the sine polynomial is evaluated: reduction
/// modulo a turn, then folding by `sin(pi - x) == sin(x)`.
pub open spec fn sin_reduce(a: int) -> int {
    let r0 = a - tdiv(a, TWO_PI_RAW as int) * (TWO_PI_RAW as int);
    let r1 = if r0 < 0 {
        r0 + TWO_PI_RAW as int
    } else {
        r0
    };
    let r2 = if r1 >= PI_RAW as int {
        r1 - TWO_PI_RAW as int
    } else {
        r1
    };
    if r2 > HALF_PI_RAW as int {
        PI_RAW as int - r2
    } else if r2 < -(HALF_PI_RAW as int) {
        -(PI_RAW as int) - r2
    } else {
        r2
    }
}

/// The quarter-wave sine polynomial, clamped to `[-1, 1]`.
pub open spec fn sin_poly(x: int) -> int {
    let x2 = fx_mul(x, x);
    let x3 = fx_mul(x2, x);
    let x5 = fx_mul(x3, x2);
    let x7 = fx_mul(x5, x2);
    let p = fx_sub(fx_add(fx_sub(x, fx_divi(x3, 6)), fx_divi(x5, 120)), fx_divi(x7, 5040));
    if p > FX_ONE as int {
        FX_ONE as int
    } else if p < -(FX_ONE as int) {
        -(FX_ONE as int)
    } else {
        p
    }
}

/// The fixed-point sine of a raw angle.
pub open spec fn sin_spec(a: int) -> int {
    sin_poly(sin_reduce(a))
}

/// The fixed-point cosine: the sine a quarter turn ahead.
pub open spec fn cos_spec(a: int) -> int {
    sin_spec(fx_add(a, HALF_PI_RAW as int))
}

/// The remainder `a - tdiv(a, d) * d` of a truncating division is smaller
/// than the divisor and carries the sign of `a`.
pub(crate) proof fn lemma_tdiv_rem(a: int, d: int)
    requires
        d > 0,
    ensures
        iabs(a - tdiv(a, d) * d) < d,
        a >= 0 ==> a - tdiv(a, d) * d >= 0,
        a < 0 ==> a - tdiv(a, d) * d <= 0,
{
    if a >= 0 {
        vstd::arithmetic::div_mod::lemma_fundamental_div_mod(a, d);
        vstd::arithmetic::div_mod::lemma_mod_division_less_than_divisor(a, d);
        assert(tdiv(a, d) == a / d);
        assert(a - (a / d) * d == a % d) by (nonlinear_arith)
            requires
                d > 0,
                a == d * (a / d) + a % d,
        ;
    } else {
        let b = -a;
        vstd::arithmetic::div_mod::lemma_fundamental_div_mod(b, d);
        vstd::arithmetic::div_mod::lemma_mod_division_less_than_divisor(b, d);
        assert(tdiv(a, d) == -(b / d));
        assert(a - (-(b / d)) * d == -(b % d)) by (nonlinear_arith)
            requires
                d > 0,
                b == d * (b / d) + b % d,
                a == -b,
        ;
    }
}

/// The fixed-point sine of `a` radians.
pub fn sin_fx(a: Fx) -> (r: Fx)
    ensures
        r@ == sin_spec(a@),
{
    let ar: i128 = a.raw as i128;
    let q: i128 = crate::fx::tdiv128(ar, TWO_PI_RAW as i128);
    proof {
        lemma_tdiv_rem(ar as int, TWO_PI_RAW as int);
        crate::fx::lemma_i64_mul_fits(q as int, TWO_PI_RAW as int);
    }
    let r0: i128 = ar - q * (TWO_PI_RAW as i128);
    let r1: i128 = if r0 < 0 {
        r0 + TWO_PI_RAW as i128
    } else {
        r0
    };
    let r2: i128 = if r1 >= PI_RAW as i128 {
        r1 - TWO_PI_RAW as i128
    } else {
        r1
    };
    let x: i128 = if r2 > HALF_PI_RAW as i128 {
        (PI_RAW as i128) - r2
    } else if r2 < -(HALF_PI_RAW as i128) {
        -(PI_RAW as i128) - r2
    } else {
        r2
    };
    let xf = Fx::from_raw(x as i64);
    let x2 = xf.mul(xf);
    let x3 = x2.mul(xf);
    let x5 = x3.mul(x2);
    let x7 = x5.mul(x2);
    let p = xf.sub(x3.div_int(6)).add(x5.div_int(120)).sub(x7.div_int(5040));
    if p.raw > FX_ONE {
        Fx::from_raw(FX_ONE)
    } else if p.raw < -FX_ONE {
        Fx::from_raw(-FX_ONE)
    } else {
        p
    }
}

/// The fixed-point cosine of `a` radians.
pub fn cos_fx(a: Fx) -> (r: Fx)
    ensures
        r@ == cos_spec(a@),
{
    sin_fx(a.add(Fx::from_raw(HALF_PI_RAW)))
}

/// The sine of zero is exactly zero.
pub proof fn lemma_sin_zero()
    ensures
        sin_spec(0) == 0,
{
    assert(sin_reduce(0) == 0);
    assert(sin_poly(0) == 0);
}

} // verus!
