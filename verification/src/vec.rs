//! 3D and homogeneous 4D vectors over the fixed-point scalar.
//!
//! Every operation has a spec-level mirror (`add_spec`, `dot_spec`, ...) whose
//! definition is the exact integer meaning of the executable code; the
//! contracts state equality with those mirrors, so callers reason about whole
//! vector values.

use vstd::prelude::*;
use crate::fx::{Fx, FX_ONE, FX_SAT, fx_add, fx_sub, fx_neg, fx_mul, fx_div, iabs, sat, tdiv,
    sqrt_floor, is_sqrt, isqrt128};

verus! {

/// A 3D point or direction. No unit-length invariant; callers normalize
/// explicitly.
#[derive(Clone, Copy, PartialEq, Eq, Structural, Debug)]
pub struct Vec3 {
    pub x: Fx,
    pub y: Fx,
    pub z: Fx,
}

/// A homogeneous point, produced by promoting a [`Vec3`] with an explicit `w`.
#[derive(Clone, Copy, PartialEq, Eq, Structural, Debug)]
pub struct Vec4 {
    pub x: Fx,
    pub y: Fx,
    pub z: Fx,
    pub w: Fx,
}

/// The vector whose components have the given raw values.
pub open spec fn vec3_raw(x: int, y: int, z: int) -> Vec3 {
    Vec3 { x: Fx { raw: x as i64 }, y: Fx { raw: y as i64 }, z: Fx { raw: z as i64 } }
}

/// Componentwise sum.
pub open spec fn add_spec(a: Vec3, b: Vec3) -> Vec3 {
    vec3_raw(fx_add(a.x@, b.x@), fx_add(a.y@, b.y@), fx_add(a.z@, b.z@))
}

/// Componentwise difference.
pub open spec fn sub_spec(a: Vec3, b: Vec3) -> Vec3 {
    vec3_raw(fx_sub(a.x@, b.x@), fx_sub(a.y@, b.y@), fx_sub(a.z@, b.z@))
}

/// Componentwise product.
pub open spec fn mul_spec(a: Vec3, b: Vec3) -> Vec3 {
    vec3_raw(fx_mul(a.x@, b.x@), fx_mul(a.y@, b.y@), fx_mul(a.z@, b.z@))
}

/// Componentwise quotient; a zero component in `b` yields zero there.
pub open spec fn div_spec(a: Vec3, b: Vec3) -> Vec3 {
    vec3_raw(fx_div(a.x@, b.x@), fx_div(a.y@, b.y@), fx_div(a.z@, b.z@))
}

/// Scaling by a scalar.
pub open spec fn scale_spec(a: Vec3, s: int) -> Vec3 {
    vec3_raw(fx_mul(a.x@, s), fx_mul(a.y@, s), fx_mul(a.z@, s))
}

/// Dot product, summed left to right.
pub open spec fn dot_spec(a: Vec3, b: Vec3) -> int {
    fx_add(fx_add(fx_mul(a.x@, b.x@), fx_mul(a.y@, b.y@)), fx_mul(a.z@, b.z@))
}

/// Cross product.
pub open spec fn cross_spec(a: Vec3, b: Vec3) -> Vec3 {
    vec3_raw(
        fx_sub(fx_mul(a.y@, b.z@), fx_mul(a.z@, b.y@)),
        fx_sub(fx_mul(a.z@, b.x@), fx_mul(a.x@, b.z@)),
        fx_sub(fx_mul(a.x@, b.y@), fx_mul(a.y@, b.x@)),
    )
}

/// The length of a vector in raw units: the rounded-down square root of the
/// exact sum of squared raw components.
pub open spec fn norm_len(v: Vec3) -> int {
    sqrt_floor(v.x@ * v.x@ + v.y@ * v.y@ + v.z@ * v.z@)
}

/// One normalized component: the raw component rescaled by the length. A zero
/// length only arises from the zero vector, which stays the zero vector.
pub open spec fn norm_comp(c: int, len: int) -> int {
    sat(tdiv(c * (FX_ONE as int), len))
}

/// The normalized vector.
pub open spec fn normalized_spec(v: Vec3) -> Vec3 {
    vec3_raw(
        norm_comp(v.x@, norm_len(v)),
        norm_comp(v.y@, norm_len(v)),
        norm_comp(v.z@, norm_len(v)),
    )
}

/// Where the segment from `line_start` to `line_end` meets the plane through
/// `plane_p` with normal `plane_n`, by the parametric form
/// `start + t * (end - start)` with `t = (-plane_d - ad) / (bd - ad)`.
pub open spec fn plane_intersect_spec(plane_p: Vec3, plane_n: Vec3, line_start: Vec3, line_end: Vec3) -> Vec3 {
    let n = normalized_spec(plane_n);
    let plane_d = fx_neg(dot_spec(n, plane_p));
    let ad = dot_spec(line_start, n);
    let bd = dot_spec(line_end, n);
    let t = fx_div(fx_sub(fx_neg(plane_d), ad), fx_sub(bd, ad));
    add_spec(line_start, scale_spec(sub_spec(line_end, line_start), t))
}

/// A truncated quotient squared, against the square of what was divided.
proof fn lemma_comp_sq_bounds(a: int, len: int, q: int)
    by (nonlinear_arith)
    requires
        len > 0,
        a >= 0,
        q >= 0,
        q * len <= a,
        a < (q + 1) * len,
    ensures
        q * q * (len * len) <= a * a,
        q * q * (len * len) >= a * a - 2 * a * len,
{
}

/// A component whose square stays under the squared length bound is itself
/// bounded by the length.
proof fn lemma_abs_le(c: int, len: int)
    by (nonlinear_arith)
    requires
        len >= 0,
        c * c < (len + 1) * (len + 1),
    ensures
        iabs(c) <= len,
{
}

/// The upper half of the magnitude bound, folded over the three components.
proof fn lemma_norm_upper(m: int, s: int, len: int)
    by (nonlinear_arith)
    requires
        len >= 256,
        m >= 0,
        m * (len * len) <= 4294967296 * s,
        s <= len * len + 2 * len,
    ensures
        m <= 4294967296 + 50331648,
{
}

/// The lower half of the magnitude bound.
proof fn lemma_norm_lower(m: int, s: int, len: int, total: int)
    by (nonlinear_arith)
    requires
        len > 0,
        m * (len * len) >= 4294967296 * s - 2 * len * 65536 * total,
        s >= len * len,
        total <= 3 * len,
    ensures
        m >= 4294967296 - 393216,
{
}

/// Law: normalizing any vector whose raw length is at least 256 — every
/// unit vector has raw length near 65536 — yields a vector whose squared
/// raw magnitude lies within a small band around one: between
/// `65536^2 - 6 * 65536` and `65536^2 * (1 + 3/256)`.
pub proof fn lemma_normalized_magnitude(v: Vec3)
    requires
        norm_len(v) >= 256,
    ensures
        ({
            let n = normalized_spec(v);
            let m = n.x@ * n.x@ + n.y@ * n.y@ + n.z@ * n.z@;
            4294967296 - 393216 <= m <= 4294967296 + 50331648
        }),
{
    let cx = v.x@;
    let cy = v.y@;
    let cz = v.z@;
    let s = cx * cx + cy * cy + cz * cz;
    crate::fx::lemma_sq_mag(cx);
    crate::fx::lemma_sq_mag(cy);
    crate::fx::lemma_sq_mag(cz);
    assert(cx * cx >= 0 && cy * cy >= 0 && cz * cz >= 0) by (nonlinear_arith);
    crate::fx::lemma_sqrt_floor_works(s);
    let len = norm_len(v);
    assert(is_sqrt(s, len));
    assert(s < (len + 1) * (len + 1));
    assert(cx * cx < (len + 1) * (len + 1));
    assert(cy * cy < (len + 1) * (len + 1));
    assert(cz * cz < (len + 1) * (len + 1));
    lemma_abs_le(cx, len);
    lemma_abs_le(cy, len);
    lemma_abs_le(cz, len);
    let qx = lemma_norm_comp_sq(cx, len);
    let qy = lemma_norm_comp_sq(cy, len);
    let qz = lemma_norm_comp_sq(cz, len);
    let n = normalized_spec(v);
    assert(n.x@ * n.x@ == qx * qx);
    assert(n.y@ * n.y@ == qy * qy);
    assert(n.z@ * n.z@ == qz * qz);
    let m = n.x@ * n.x@ + n.y@ * n.y@ + n.z@ * n.z@;
    let ax = iabs(cx) * 65536;
    let ay = iabs(cy) * 65536;
    let az = iabs(cz) * 65536;
    assert(ax * ax == 4294967296 * (cx * cx)) by (nonlinear_arith)
        requires
            ax == iabs(cx) * 65536,
            iabs(cx) * iabs(cx) == cx * cx,
    ;
    assert(ay * ay == 4294967296 * (cy * cy)) by (nonlinear_arith)
        requires
            ay == iabs(cy) * 65536,
            iabs(cy) * iabs(cy) == cy * cy,
    ;
    assert(az * az == 4294967296 * (cz * cz)) by (nonlinear_arith)
        requires
            az == iabs(cz) * 65536,
            iabs(cz) * iabs(cz) == cz * cz,
    ;
    assert(m * (len * len) <= 4294967296 * s) by (nonlinear_arith)
        requires
            m == qx * qx + qy * qy + qz * qz,
            s == cx * cx + cy * cy + cz * cz,
            qx * qx * (len * len) <= ax * ax,
            qy * qy * (len * len) <= ay * ay,
            qz * qz * (len * len) <= az * az,
            ax * ax == 4294967296 * (cx * cx),
            ay * ay == 4294967296 * (cy * cy),
            az * az == 4294967296 * (cz * cz),
    ;
    assert(s <= len * len + 2 * len) by (nonlinear_arith)
        requires
            s < (len + 1) * (len + 1),
    ;
    assert(qx * qx >= 0 && qy * qy >= 0 && qz * qz >= 0) by (nonlinear_arith);
    lemma_norm_upper(m, s, len);
    assert(m * (len * len) >= 4294967296 * s - 2 * len * 65536 * (iabs(cx) + iabs(cy) + iabs(cz)))
        by (nonlinear_arith)
        requires
            qx * qx * (len * len) >= ax * ax - 2 * ax * len,
            qy * qy * (len * len) >= ay * ay - 2 * ay * len,
            qz * qz * (len * len) >= az * az - 2 * az * len,
            m == qx * qx + qy * qy + qz * qz,
            ax * ax == 4294967296 * (cx * cx),
            ay * ay == 4294967296 * (cy * cy),
            az * az == 4294967296 * (cz * cz),
            ax == iabs(cx) * 65536,
            ay == iabs(cy) * 65536,
            az == iabs(cz) * 65536,
            s == cx * cx + cy * cy + cz * cz,
    ;
    lemma_norm_lower(m, s, len, iabs(cx) + iabs(cy) + iabs(cz));
}

/// The raw value of one normalized component is, in magnitude, the plain
/// quotient of the scaled component by the length, with the expected square
/// bounds; returns that quotient's magnitude.
proof fn lemma_norm_comp_sq(c: int, len: int) -> (q: int)
    requires
        len > 0,
        iabs(c) <= len,
    ensures
        q >= 0,
        norm_comp(c, len) == q || norm_comp(c, len) == -q,
        norm_comp(c, len) * norm_comp(c, len) == q * q,
        q * len <= iabs(c) * 65536,
        iabs(c) * 65536 < (q + 1) * len,
        q * q * (len * len) <= (iabs(c) * 65536) * (iabs(c) * 65536),
        q * q * (len * len) >= (iabs(c) * 65536) * (iabs(c) * 65536) - 2 * (iabs(c) * 65536) * len,
{
    let a = iabs(c) * 65536;
    let q = a / len;
    vstd::arithmetic::div_mod::lemma_fundamental_div_mod(a, len);
    vstd::arithmetic::div_mod::lemma_mod_division_less_than_divisor(a, len);
    vstd::arithmetic::div_mod::lemma_div_pos_is_pos(a, len);
    assert(q * len <= a && a < (q + 1) * len) by (nonlinear_arith)
        requires
            len > 0,
            a == len * q + a % len,
            0 <= a % len < len,
    ;
    lemma_comp_sq_bounds(a, len, q);
    assert(iabs(c * 65536) == a);
    assert(tdiv(c * 65536, len) == if c < 0 {
        -q
    } else {
        q
    });
    assert(a <= len * 65536) by (nonlinear_arith)
        requires
            iabs(c) <= len,
            a == iabs(c) * 65536,
    ;
    assert(q <= 65536) by {
        vstd::arithmetic::div_mod::lemma_div_is_ordered(a, len * 65536, len);
        vstd::arithmetic::div_mod::lemma_div_multiples_vanish(65536, len);
    }
    assert(sat(tdiv(c * 65536, len)) == tdiv(c * 65536, len));
    assert(norm_comp(c, len) * norm_comp(c, len) == q * q) by (nonlinear_arith)
        requires
            norm_comp(c, len) == q || norm_comp(c, len) == -q,
    ;
    q
}

/// Law: normalizing any vector along the positive z axis gives exactly the
/// unit z vector, and normalizing is therefore exactly idempotent there.
pub proof fn lemma_normalized_z_axis(k: int)
    requires
        0 < k <= FX_SAT as int,
    ensures
        normalized_spec(vec3_raw(0, 0, k)) == vec3_raw(0, 0, FX_ONE as int),
        normalized_spec(normalized_spec(vec3_raw(0, 0, k))) == vec3_raw(0, 0, FX_ONE as int),
{
    let v = vec3_raw(0, 0, k);
    assert(v.z@ == k);
    assert(is_sqrt(k * k, k)) by (nonlinear_arith)
        requires
            k > 0,
    ;
    assert(is_sqrt(k * k, sqrt_floor(k * k)));
    crate::fx::lemma_sqrt_unique(k * k, k, sqrt_floor(k * k));
    assert(sqrt_floor(k * k) == k);
    assert(v.x@ == 0);
    assert(v.y@ == 0);
    assert(v.x@ * v.x@ + v.y@ * v.y@ + v.z@ * v.z@ == k * k);
    assert(norm_len(v) == sqrt_floor(k * k));
    assert(norm_len(v) == k);
    vstd::arithmetic::div_mod::lemma_div_multiples_vanish(FX_ONE as int, k);
    assert(iabs(k * (FX_ONE as int)) == k * (FX_ONE as int));
    assert(tdiv(k * (FX_ONE as int), k) == FX_ONE as int);
    assert(norm_comp(k, k) == FX_ONE as int);
    assert(norm_comp(0, k) == 0);
    assert(normalized_spec(v) == vec3_raw(0, 0, FX_ONE as int));
    lemma_normalized_unit_z();
}

/// Normalizing the unit z vector returns it unchanged.
proof fn lemma_normalized_unit_z()
    ensures
        normalized_spec(vec3_raw(0, 0, FX_ONE as int)) == vec3_raw(0, 0, FX_ONE as int),
{
    let u = vec3_raw(0, 0, FX_ONE as int);
    assert(is_sqrt((FX_ONE as int) * (FX_ONE as int), FX_ONE as int)) by (nonlinear_arith);
    assert(is_sqrt((FX_ONE as int) * (FX_ONE as int), sqrt_floor((FX_ONE as int) * (FX_ONE as int))));
    crate::fx::lemma_sqrt_unique(
        (FX_ONE as int) * (FX_ONE as int),
        FX_ONE as int,
        sqrt_floor((FX_ONE as int) * (FX_ONE as int)),
    );
    assert(u.x@ == 0);
    assert(u.y@ == 0);
    assert(u.z@ == FX_ONE as int);
    assert(u.x@ * u.x@ + u.y@ * u.y@ + u.z@ * u.z@ == (FX_ONE as int) * (FX_ONE as int));
    assert(norm_len(u) == sqrt_floor((FX_ONE as int) * (FX_ONE as int)));
    assert(norm_len(u) == FX_ONE as int);
    vstd::arithmetic::div_mod::lemma_div_multiples_vanish(FX_ONE as int, FX_ONE as int);
    assert(tdiv((FX_ONE as int) * (FX_ONE as int), FX_ONE as int) == FX_ONE as int);
    assert(norm_comp(FX_ONE as int, FX_ONE as int) == FX_ONE as int);
}

/// The magnitude of a raw component, exact.
fn mag64(v: i64) -> (r: u128)
    ensures
        r as int == iabs(v as int),
{
    if v < 0 {
        (-(v as i128)) as u128
    } else {
        v as u128
    }
}

impl Vec3 {
    pub fn new(x: Fx, y: Fx, z: Fx) -> (r: Vec3)
        ensures
            r == (Vec3 { x, y, z }),
    {
        Vec3 { x, y, z }
    }

    /// Drop the `w` component of a homogeneous point.
    pub fn from_vec4(v: Vec4) -> (r: Vec3)
        ensures
            r == (Vec3 { x: v.x, y: v.y, z: v.z }),
    {
        Vec3 { x: v.x, y: v.y, z: v.z }
    }

    /// Componentwise sum.
    pub fn add(self, o: Vec3) -> (r: Vec3)
        ensures
            r == add_spec(self, o),
    {
        Vec3 { x: self.x.add(o.x), y: self.y.add(o.y), z: self.z.add(o.z) }
    }

    /// Componentwise difference.
    pub fn sub(self, o: Vec3) -> (r: Vec3)
        ensures
            r == sub_spec(self, o),
    {
        Vec3 { x: self.x.sub(o.x), y: self.y.sub(o.y), z: self.z.sub(o.z) }
    }

    /// Componentwise product.
    pub fn mul(self, o: Vec3) -> (r: Vec3)
        ensures
            r == mul_spec(self, o),
    {
        Vec3 { x: self.x.mul(o.x), y: self.y.mul(o.y), z: self.z.mul(o.z) }
    }

    /// Componentwise quotient; zero components of `o` divide to zero.
    pub fn div(self, o: Vec3) -> (r: Vec3)
        ensures
            r == div_spec(self, o),
    {
        Vec3 { x: self.x.div(o.x), y: self.y.div(o.y), z: self.z.div(o.z) }
    }

    /// Scale by a scalar.
    pub fn scale(self, s: Fx) -> (r: Vec3)
        ensures
            r == scale_spec(self, s@),
    {
        Vec3 { x: self.x.mul(s), y: self.y.mul(s), z: self.z.mul(s) }
    }

    /// Dot product.
    pub fn dot(&self, o: &Vec3) -> (r: Fx)
        ensures
            r@ == dot_spec(*self, *o),
    {
        self.x.mul(o.x).add(self.y.mul(o.y)).add(self.z.mul(o.z))
    }

    /// Cross product.
    pub fn cross(&self, o: &Vec3) -> (r: Vec3)
        ensures
            r == cross_spec(*self, *o),
    {
        Vec3 {
            x: self.y.mul(o.z).sub(self.z.mul(o.y)),
            y: self.z.mul(o.x).sub(self.x.mul(o.z)),
            z: self.x.mul(o.y).sub(self.y.mul(o.x)),
        }
    }

    /// Rescale in place to unit length; the zero vector stays zero.
    pub fn normalize(&mut self)
        ensures
            *final(self) == normalized_spec(*old(self)),
    {
        let r = self.normalized();
        self.x = r.x;
        self.y = r.y;
        self.z = r.z;
    }

    /// A unit-length copy; the zero vector stays zero.
    pub fn normalized(&self) -> (r: Vec3)
        ensures
            r == normalized_spec(*self),
    {
        let mx = mag64(self.x.raw);
        let my = mag64(self.y.raw);
        let mz = mag64(self.z.raw);
        proof {
            crate::fx::lemma_sq_mag(self.x.raw as int);
            crate::fx::lemma_sq_mag(self.y.raw as int);
            crate::fx::lemma_sq_mag(self.z.raw as int);
        }
        let sum: u128 = mx * mx + my * my + mz * mz;
        let len: u128 = isqrt128(sum);
        Vec3 {
            x: norm_div(self.x.raw, len),
            y: norm_div(self.y.raw, len),
            z: norm_div(self.z.raw, len),
        }
    }

    /// Where the segment from `line_start` to `line_end` meets the plane
    /// through `plane_p` with normal `plane_n` (normalized here).
    pub fn plane_intersect(plane_p: Vec3, plane_n: Vec3, line_start: Vec3, line_end: Vec3) -> (r: Vec3)
        ensures
            r == plane_intersect_spec(plane_p, plane_n, line_start, line_end),
    {
        let n = plane_n.normalized();
        let plane_d = n.dot(&plane_p).neg();
        let ad = line_start.dot(&n);
        let bd = line_end.dot(&n);
        let t = plane_d.neg().sub(ad).div(bd.sub(ad));
        let line_start_to_end = line_end.sub(line_start);
        let line_to_intersect = line_start_to_end.scale(t);
        line_start.add(line_to_intersect)
    }
}

/// One normalized component: `c` rescaled by the raw length.
fn norm_div(c: i64, len: u128) -> (r: Fx)
    requires
        len < 0x1_0000_0000_0000_0000u128,
    ensures
        r@ == norm_comp(c as int, len as int),
{
    proof {
        crate::fx::lemma_i64_mul_fits(c as int, FX_ONE as int);
    }
    let n: i128 = (c as i128) * (FX_ONE as i128);
    Fx::from_raw(crate::fx::sat_div(n, len as i128))
}

impl Vec4 {
    pub fn new(x: Fx, y: Fx, z: Fx, w: Fx) -> (r: Vec4)
        ensures
            r == (Vec4 { x, y, z, w }),
    {
        Vec4 { x, y, z, w }
    }

    /// Promote a [`Vec3`] with an explicit homogeneous component.
    pub fn from_vec3(v: Vec3, w: Fx) -> (r: Vec4)
        ensures
            r == (Vec4 { x: v.x, y: v.y, z: v.z, w }),
    {
        Vec4 { x: v.x, y: v.y, z: v.z, w }
    }
}

} // verus!
