//! The fixed-point scalar that carries all geometry in this crate.
//!
//! An [`Fx`] holds a raw `i64` whose value is `raw / 65536` — sixteen binary
//! fraction bits. Every operation is total: results are truncated toward zero
//! where a division or a product drops fraction bits, and saturate at
//! `±FX_SAT` instead of wrapping. Division by zero yields zero — a stated
//! policy for what real-number arithmetic leaves undefined.

use vstd::prelude::*;

verus! {

/// Raw representation of the scalar one: the number of fraction steps per unit.
pub const FX_ONE: i64 = 65536;

/// Saturation bound of the raw representation (`i64::MAX`).
pub const FX_SAT: i64 = 0x7fff_ffff_ffff_ffff;

/// Magnitude of an integer.
pub open spec fn iabs(x: int) -> int {
    if x < 0 {
        -x
    } else {
        x
    }
}

/// Saturate a mathematical integer into the raw range `[-FX_SAT, FX_SAT]`.
pub open spec fn sat(x: int) -> int {
    if x > FX_SAT as int {
        FX_SAT as int
    } else if x < -(FX_SAT as int) {
        -(FX_SAT as int)
    } else {
        x
    }
}

/// Division truncated toward zero, total: division by zero yields zero.
pub open spec fn tdiv(n: int, d: int) -> int {
    if d == 0 {
        0
    } else {
        let q = iabs(n) / iabs(d);
        if (n < 0) != (d < 0) {
            -q
        } else {
            q
        }
    }
}

/// Raw-level addition: exact sum, saturated.
pub open spec fn fx_add(a: int, b: int) -> int {
    sat(a + b)
}

/// Raw-level subtraction: exact difference, saturated.
pub open spec fn fx_sub(a: int, b: int) -> int {
    sat(a - b)
}

/// Raw-level negation, saturated.
pub open spec fn fx_neg(a: int) -> int {
    sat(-a)
}

/// Raw-level fixed-point product: the exact product rescaled by one unit,
/// truncated toward zero, saturated.
pub open spec fn fx_mul(a: int, b: int) -> int {
    sat(tdiv(a * b, FX_ONE as int))
}

/// Raw-level fixed-point quotient; a zero divisor yields zero.
pub open spec fn fx_div(a: int, b: int) -> int {
    if b == 0 {
        0
    } else {
        sat(tdiv(a * (FX_ONE as int), b))
    }
}

/// Raw-level division by a plain integer, truncated toward zero.
pub open spec fn fx_divi(a: int, d: int) -> int {
    if d == 0 {
        0
    } else {
        sat(tdiv(a, d))
    }
}

/// A square equals the square of the magnitude and fits well under 2^127.
pub(crate) proof fn lemma_sq_mag(x: int)
    by (nonlinear_arith)
    requires
        iabs(x) <= 0x8000_0000_0000_0000,
    ensures
        iabs(x) * iabs(x) == x * x,
        x * x <= 0x4000_0000_0000_0000_0000_0000_0000_0000,
{
}

/// `r` is the square root of `n` rounded down.
pub open spec fn is_sqrt(n: int, r: int) -> bool {
    0 <= r && r * r <= n && n < (r + 1) * (r + 1)
}

/// The integer square root, rounded down.
pub open spec fn sqrt_floor(n: int) -> int {
    choose|r: int| is_sqrt(n, r)
}

/// A number has only one rounded-down square root.
pub(crate) proof fn lemma_sqrt_unique(n: int, a: int, b: int)
    by (nonlinear_arith)
    requires
        is_sqrt(n, a),
        is_sqrt(n, b),
    ensures
        a == b,
{
}

/// Every nonnegative number has a rounded-down square root.
proof fn lemma_sqrt_exists(n: int) -> (r: int)
    requires
        n >= 0,
    ensures
        is_sqrt(n, r),
    decreases n,
{
    if n == 0 {
        0
    } else {
        let r0 = lemma_sqrt_exists(n - 1);
        if n < (r0 + 1) * (r0 + 1) {
            r0
        } else {
            assert(is_sqrt(n, r0 + 1)) by (nonlinear_arith)
                requires
                    is_sqrt(n - 1, r0),
                    n >= (r0 + 1) * (r0 + 1),
            ;
            r0 + 1
        }
    }
}

/// `sqrt_floor` satisfies its characterization on every nonnegative number.
pub proof fn lemma_sqrt_floor_works(n: int)
    requires
        n >= 0,
    ensures
        is_sqrt(n, sqrt_floor(n)),
{
    let w = lemma_sqrt_exists(n);
    assert(is_sqrt(n, w));
    assert(is_sqrt(n, sqrt_floor(n)));
}

/// Integer square root by bisection.
pub(crate) fn isqrt128(n: u128) -> (r: u128)
    ensures
        is_sqrt(n as int, r as int),
        r as int == sqrt_floor(n as int),
        r < 0x1_0000_0000_0000_0000u128,
{
    let mut lo: u128 = 0;
    let mut hi: u128 = 0x1_0000_0000_0000_0000;
    while hi - lo > 1
        invariant
            lo < hi,
            hi <= 0x1_0000_0000_0000_0000,
            (lo as int) * (lo as int) <= n as int,
            (n as int) < (hi as int) * (hi as int),
        decreases hi - lo,
    {
        let mid: u128 = lo + (hi - lo) / 2;
        assert((mid as int) * (mid as int) < 0x1_0000_0000_0000_0000_0000_0000_0000_0000int)
            by (nonlinear_arith)
            requires
                mid < 0x1_0000_0000_0000_0000u128,
        ;
        if mid * mid <= n {
            lo = mid;
        } else {
            hi = mid;
        }
    }
    proof {
        assert(is_sqrt(n as int, lo as int));
        let w = choose|r: int| is_sqrt(n as int, r);
        lemma_sqrt_unique(n as int, lo as int, w);
    }
    lo
}

/// Law: one is neutral for the fixed-point product, on either side, for any
/// value inside the saturation range.
pub proof fn lemma_fx_mul_one(a: int)
    requires
        -(FX_SAT as int) <= a <= FX_SAT as int,
    ensures
        fx_mul(a, FX_ONE as int) == a,
        fx_mul(FX_ONE as int, a) == a,
{
    let p = a * (FX_ONE as int);
    assert(iabs(p) == iabs(a) * (FX_ONE as int));
    vstd::arithmetic::div_mod::lemma_div_multiples_vanish(iabs(a), FX_ONE as int);
    assert((FX_ONE as int) * iabs(a) == iabs(a) * (FX_ONE as int));
    assert(tdiv(p, FX_ONE as int) == a);
    assert((FX_ONE as int) * a == p);
}

/// A fixed-point number: `raw` counts steps of `1 / 65536`.
#[derive(Clone, Copy, PartialEq, Eq, Structural, Debug)]
pub struct Fx {
    pub raw: i64,
}

impl View for Fx {
    type V = int;

    open spec fn view(&self) -> int {
        self.raw as int
    }
}

/// The product of two 64-bit magnitudes stays far inside the 128-bit range.
pub(crate) proof fn lemma_i64_mul_fits(a: int, b: int)
    by (nonlinear_arith)
    requires
        iabs(a) <= 0x8000_0000_0000_0000,
        iabs(b) <= 0x8000_0000_0000_0000,
    ensures
        iabs(a * b) <= 0x4000_0000_0000_0000_0000_0000_0000_0000,
{
}

/// Saturate an exact 128-bit intermediate back into the raw range.
pub(crate) fn sat128(x: i128) -> (r: i64)
    ensures
        r as int == sat(x as int),
{
    if x > FX_SAT as i128 {
        FX_SAT
    } else if x < -(FX_SAT as i128) {
        -FX_SAT
    } else {
        x as i64
    }
}

/// Truncating 128-bit division computed over magnitudes.
pub(crate) fn tdiv128(n: i128, d: i128) -> (r: i128)
    requires
        n > i128::MIN,
        d > i128::MIN,
    ensures
        r as int == tdiv(n as int, d as int),
        iabs(r as int) <= iabs(n as int),
{
    if d == 0 {
        return 0;
    }
    let nn: u128 = if n < 0 {
        (-n) as u128
    } else {
        n as u128
    };
    let dd: u128 = if d < 0 {
        (-d) as u128
    } else {
        d as u128
    };
    let q: u128 = nn / dd;
    assert(q <= nn) by {
        vstd::arithmetic::div_mod::lemma_div_nonincreasing(nn as int, dd as int);
    }
    if (n < 0) != (d < 0) {
        -(q as i128)
    } else {
        q as i128
    }
}

/// A saturated truncating division on exact 128-bit intermediates.
pub(crate) fn sat_div(n: i128, d: i128) -> (r: i64)
    requires
        n > i128::MIN,
        d > i128::MIN,
    ensures
        r as int == sat(tdiv(n as int, d as int)),
{
    sat128(tdiv128(n, d))
}

impl Fx {
    /// Build a scalar directly from its raw sixteen-fraction-bit count.
    pub fn from_raw(raw: i64) -> (r: Fx)
        ensures
            r@ == raw as int,
    {
        Fx { raw }
    }

    /// Build the scalar for a whole number, saturating.
    pub fn from_int(v: i64) -> (r: Fx)
        ensures
            r@ == sat(v * (FX_ONE as int)),
    {
        proof {
            lemma_i64_mul_fits(v as int, FX_ONE as int);
        }
        Fx { raw: sat128((v as i128) * (FX_ONE as i128)) }
    }

    /// The scalar zero.
    pub fn zero() -> (r: Fx)
        ensures
            r@ == 0,
    {
        Fx { raw: 0 }
    }

    /// The scalar one.
    pub fn one() -> (r: Fx)
        ensures
            r@ == FX_ONE as int,
    {
        Fx { raw: FX_ONE }
    }

    /// The raw sixteen-fraction-bit count.
    pub fn raw(self) -> (r: i64)
        ensures
            r as int == self@,
    {
        self.raw
    }

    /// Saturating addition.
    pub fn add(self, o: Fx) -> (r: Fx)
        ensures
            r@ == fx_add(self@, o@),
    {
        Fx { raw: sat128((self.raw as i128) + (o.raw as i128)) }
    }

    /// Saturating subtraction.
    pub fn sub(self, o: Fx) -> (r: Fx)
        ensures
            r@ == fx_sub(self@, o@),
    {
        Fx { raw: sat128((self.raw as i128) - (o.raw as i128)) }
    }

    /// Saturating negation.
    pub fn neg(self) -> (r: Fx)
        ensures
            r@ == fx_neg(self@),
    {
        Fx { raw: sat128(-(self.raw as i128)) }
    }

    /// Fixed-point product, truncated toward zero and saturated.
    pub fn mul(self, o: Fx) -> (r: Fx)
        ensures
            r@ == fx_mul(self@, o@),
    {
        proof {
            lemma_i64_mul_fits(self.raw as int, o.raw as int);
        }
        let p: i128 = (self.raw as i128) * (o.raw as i128);
        Fx { raw: sat128(tdiv128(p, FX_ONE as i128)) }
    }

    /// Fixed-point quotient; dividing by zero yields zero.
    pub fn div(self, o: Fx) -> (r: Fx)
        ensures
            r@ == fx_div(self@, o@),
    {
        if o.raw == 0 {
            Fx { raw: 0 }
        } else {
            proof {
                lemma_i64_mul_fits(self.raw as int, FX_ONE as int);
            }
            let n: i128 = (self.raw as i128) * (FX_ONE as i128);
            Fx { raw: sat128(tdiv128(n, o.raw as i128)) }
        }
    }

    /// Division by a plain integer, truncated toward zero; zero divisor yields zero.
    pub fn div_int(self, d: i64) -> (r: Fx)
        ensures
            r@ == fx_divi(self@, d as int),
    {
        if d == 0 {
            Fx { raw: 0 }
        } else {
            Fx { raw: sat128(tdiv128(self.raw as i128, d as i128)) }
        }
    }
}

} // verus!
