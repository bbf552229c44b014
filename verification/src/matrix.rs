//! Row-major 4x4 matrices with the row-vector convention `v' = v * M`.
//!
//! Multiplication follows `result[r][c] = ((a[r][0]*b[0][c] + a[r][1]*b[1][c])
//! + a[r][2]*b[2][c]) + a[r][3]*b[3][c]` with the crate's saturating
//! fixed-point operations, summed left to right. A homogeneous vector times a
//! matrix always adds the translation row `mat[3][*]`, whatever `w` holds;
//! callers promote points with an explicit `w`.

use vstd::prelude::*;
use crate::fx::{Fx, FX_ONE, fx_add, fx_sub, fx_neg, fx_mul, fx_div};
use crate::trig::{sin_spec, cos_spec, sin_fx, cos_fx};
use crate::vec::{Vec3, Vec4, sub_spec, scale_spec, dot_spec, cross_spec, normalized_spec};

verus! {

/// The raw value of one half, used to halve the pitch-axis angle.
pub const FX_HALF: i64 = 32768;

/// A row-major 4x4 fixed-point matrix.
#[derive(Clone, Copy, Debug)]
pub struct Matrix4x4 {
    pub mat: [[Fx; 4]; 4],
}

/// The raw value of one entry.
pub open spec fn ent(m: Matrix4x4, r: int, c: int) -> int {
    m.mat[r][c]@
}

/// An entry of the identity matrix.
pub open spec fn ident_ent(r: int, c: int) -> int {
    if r == c {
        FX_ONE as int
    } else {
        0
    }
}

/// An entry of the translation matrix for `(x, y, z)`.
pub open spec fn translation_ent(x: int, y: int, z: int, r: int, c: int) -> int {
    if r == 3 {
        if c == 0 {
            x
        } else if c == 1 {
            y
        } else if c == 2 {
            z
        } else {
            FX_ONE as int
        }
    } else {
        ident_ent(r, c)
    }
}

/// An entry of the perspective projection matrix.
pub open spec fn projection_ent(aspect_ratio: int, fov: int, near: int, far: int, r: int, c: int) -> int {
    if r == 0 && c == 0 {
        fx_mul(aspect_ratio, fov)
    } else if r == 1 && c == 1 {
        fov
    } else if r == 2 && c == 2 {
        fx_div(far, fx_sub(far, near))
    } else if r == 2 && c == 3 {
        FX_ONE as int
    } else if r == 3 && c == 2 {
        fx_div(fx_mul(fx_neg(far), near), fx_sub(far, near))
    } else {
        0
    }
}

/// An entry of the rotation matrix about the x axis; the angle is halved
/// before its sine and cosine are taken.
pub open spec fn x_rotation_ent(theta: int, r: int, c: int) -> int {
    let h = fx_mul(theta, FX_HALF as int);
    let ct = cos_spec(h);
    let st = sin_spec(h);
    if r == 0 && c == 0 {
        FX_ONE as int
    } else if r == 1 && c == 1 {
        ct
    } else if r == 1 && c == 2 {
        st
    } else if r == 2 && c == 1 {
        fx_neg(st)
    } else if r == 2 && c == 2 {
        ct
    } else if r == 3 && c == 3 {
        FX_ONE as int
    } else {
        0
    }
}

/// An entry of the rotation matrix about the y axis.
pub open spec fn y_rotation_ent(theta: int, r: int, c: int) -> int {
    let ct = cos_spec(theta);
    let st = sin_spec(theta);
    if r == 0 && c == 0 {
        ct
    } else if r == 0 && c == 2 {
        st
    } else if r == 1 && c == 1 {
        FX_ONE as int
    } else if r == 2 && c == 0 {
        fx_neg(st)
    } else if r == 2 && c == 2 {
        ct
    } else if r == 3 && c == 3 {
        FX_ONE as int
    } else {
        0
    }
}

/// An entry of the rotation matrix about the z axis.
pub open spec fn z_rotation_ent(theta: int, r: int, c: int) -> int {
    let ct = cos_spec(theta);
    let st = sin_spec(theta);
    if r == 0 && c == 0 {
        ct
    } else if r == 0 && c == 1 {
        st
    } else if r == 1 && c == 0 {
        fx_neg(st)
    } else if r == 1 && c == 1 {
        ct
    } else if r == 2 && c == 2 {
        FX_ONE as int
    } else if r == 3 && c == 3 {
        FX_ONE as int
    } else {
        0
    }
}

/// The forward basis row of the point-at matrix.
pub open spec fn point_at_forward(pos: Vec3, target: Vec3) -> Vec3 {
    normalized_spec(sub_spec(target, pos))
}

/// The up basis row of the point-at matrix: `up` with its forward component
/// removed, renormalized.
pub open spec fn point_at_up(pos: Vec3, target: Vec3, up: Vec3) -> Vec3 {
    let fwd = point_at_forward(pos, target);
    normalized_spec(sub_spec(up, scale_spec(fwd, dot_spec(up, fwd))))
}

/// The right basis row of the point-at matrix.
pub open spec fn point_at_right(pos: Vec3, target: Vec3, up: Vec3) -> Vec3 {
    cross_spec(point_at_up(pos, target, up), point_at_forward(pos, target))
}

/// An entry of the point-at (camera-to-world) matrix: the three basis rows
/// and the translation row `pos`.
pub open spec fn point_at_ent(pos: Vec3, target: Vec3, up: Vec3, r: int, c: int) -> int {
    let row = if r == 0 {
        point_at_right(pos, target, up)
    } else if r == 1 {
        point_at_up(pos, target, up)
    } else if r == 2 {
        point_at_forward(pos, target)
    } else {
        pos
    };
    if c == 0 {
        row.x@
    } else if c == 1 {
        row.y@
    } else if c == 2 {
        row.z@
    } else if r == 3 {
        FX_ONE as int
    } else {
        0
    }
}

/// An entry of the analytic inverse of a point-at matrix: the 3x3 rotation
/// block transposed, and each translation entry replaced by the negated dot
/// of the translation row with the matching rotation row.
pub open spec fn point_at_inverse_ent(m: Matrix4x4, r: int, c: int) -> int {
    if r <= 2 {
        if c <= 2 {
            ent(m, c, r)
        } else {
            0
        }
    } else {
        if c <= 2 {
            fx_neg(
                fx_add(
                    fx_add(
                        fx_mul(ent(m, 3, 0), ent(m, c, 0)),
                        fx_mul(ent(m, 3, 1), ent(m, c, 1)),
                    ),
                    fx_mul(ent(m, 3, 2), ent(m, c, 2)),
                ),
            )
        } else {
            FX_ONE as int
        }
    }
}

/// One entry of a matrix product, summed left to right.
pub open spec fn mul_ent(a: Matrix4x4, b: Matrix4x4, r: int, c: int) -> int {
    fx_add(
        fx_add(
            fx_add(fx_mul(ent(a, r, 0), ent(b, 0, c)), fx_mul(ent(a, r, 1), ent(b, 1, c))),
            fx_mul(ent(a, r, 2), ent(b, 2, c)),
        ),
        fx_mul(ent(a, r, 3), ent(b, 3, c)),
    )
}

/// One component of a homogeneous vector times a matrix; the translation
/// entry `mat[3][c]` is always added.
pub open spec fn vec4_mul_ent(v: Vec4, m: Matrix4x4, c: int) -> int {
    fx_add(
        fx_add(
            fx_add(fx_mul(v.x@, ent(m, 0, c)), fx_mul(v.y@, ent(m, 1, c))),
            fx_mul(v.z@, ent(m, 2, c)),
        ),
        ent(m, 3, c),
    )
}

/// One entry of a matrix product.
fn mul_rc(a: &Matrix4x4, b: &Matrix4x4, r: usize, c: usize) -> (f: Fx)
    requires
        r < 4,
        c < 4,
    ensures
        f@ == mul_ent(*a, *b, r as int, c as int),
{
    a.mat[r][0].mul(b.mat[0][c]).add(a.mat[r][1].mul(b.mat[1][c])).add(
        a.mat[r][2].mul(b.mat[2][c]),
    ).add(a.mat[r][3].mul(b.mat[3][c]))
}

impl Matrix4x4 {
    pub fn new(mat: [[Fx; 4]; 4]) -> (m: Matrix4x4)
        ensures
            m == (Matrix4x4 { mat }),
    {
        Matrix4x4 { mat }
    }

    /// The all-zero matrix.
    pub fn empty() -> (m: Matrix4x4)
        ensures
            forall|r: int, c: int| 0 <= r < 4 && 0 <= c < 4 ==> ent(m, r, c) == 0,
    {
        let o = Fx::zero();
        Matrix4x4 { mat: [[o, o, o, o], [o, o, o, o], [o, o, o, o], [o, o, o, o]] }
    }

    /// The identity matrix.
    pub fn identity() -> (m: Matrix4x4)
        ensures
            forall|r: int, c: int| 0 <= r < 4 && 0 <= c < 4 ==> ent(m, r, c) == ident_ent(r, c),
    {
        let o = Fx::zero();
        let i = Fx::one();
        Matrix4x4 { mat: [[i, o, o, o], [o, i, o, o], [o, o, i, o], [o, o, o, i]] }
    }

    /// The rotation matrix about the x axis; the angle is halved before its
    /// sine and cosine are taken.
    pub fn x_rotation(theta: Fx) -> (m: Matrix4x4)
        ensures
            forall|r: int, c: int|
                0 <= r < 4 && 0 <= c < 4 ==> ent(m, r, c) == x_rotation_ent(theta@, r, c),
    {
        let o = Fx::zero();
        let i = Fx::one();
        let h = theta.mul(Fx::from_raw(FX_HALF));
        let ct = cos_fx(h);
        let st = sin_fx(h);
        Matrix4x4 {
            mat: [
                [i, o, o, o],
                [o, ct, st, o],
                [o, st.neg(), ct, o],
                [o, o, o, i],
            ],
        }
    }

    /// The rotation matrix about the y axis.
    pub fn y_rotation(theta: Fx) -> (m: Matrix4x4)
        ensures
            forall|r: int, c: int|
                0 <= r < 4 && 0 <= c < 4 ==> ent(m, r, c) == y_rotation_ent(theta@, r, c),
    {
        let o = Fx::zero();
        let i = Fx::one();
        let ct = cos_fx(theta);
        let st = sin_fx(theta);
        Matrix4x4 {
            mat: [
                [ct, o, st, o],
                [o, i, o, o],
                [st.neg(), o, ct, o],
                [o, o, o, i],
            ],
        }
    }

    /// The rotation matrix about the z axis.
    pub fn z_rotation(theta: Fx) -> (m: Matrix4x4)
        ensures
            forall|r: int, c: int|
                0 <= r < 4 && 0 <= c < 4 ==> ent(m, r, c) == z_rotation_ent(theta@, r, c),
    {
        let o = Fx::zero();
        let i = Fx::one();
        let ct = cos_fx(theta);
        let st = sin_fx(theta);
        Matrix4x4 {
            mat: [
                [ct, st, o, o],
                [st.neg(), ct, o, o],
                [o, o, i, o],
                [o, o, o, i],
            ],
        }
    }

    /// The translation matrix for `(x, y, z)`.
    pub fn translation(x: Fx, y: Fx, z: Fx) -> (m: Matrix4x4)
        ensures
            forall|r: int, c: int|
                0 <= r < 4 && 0 <= c < 4 ==> ent(m, r, c) == translation_ent(x@, y@, z@, r, c),
    {
        let o = Fx::zero();
        let i = Fx::one();
        Matrix4x4 { mat: [[i, o, o, o], [o, i, o, o], [o, o, i, o], [x, y, z, i]] }
    }

    /// The perspective projection matrix. `aspect_ratio` is height over
    /// width, `fov` the field-of-view scale factor `1 / tan(fov_angle / 2)`;
    /// view-space `z` maps into `[0, far / (far - near)]` scaled by `w`.
    pub fn projection(aspect_ratio: Fx, fov: Fx, near: Fx, far: Fx) -> (m: Matrix4x4)
        ensures
            forall|r: int, c: int|
                0 <= r < 4 && 0 <= c < 4 ==> ent(m, r, c) == projection_ent(
                    aspect_ratio@,
                    fov@,
                    near@,
                    far@,
                    r,
                    c,
                ),
    {
        let o = Fx::zero();
        let i = Fx::one();
        let zz = far.div(far.sub(near));
        let zw = far.neg().mul(near).div(far.sub(near));
        Matrix4x4 {
            mat: [
                [aspect_ratio.mul(fov), o, o, o],
                [o, fov, o, o],
                [o, o, zz, i],
                [o, o, zw, o],
            ],
        }
    }

    /// The camera-to-world basis matrix: orthonormal-by-construction rows
    /// right, up, forward, then the translation row `pos`.
    pub fn point_at(pos: Vec3, target: Vec3, up: Vec3) -> (m: Matrix4x4)
        ensures
            forall|r: int, c: int|
                0 <= r < 4 && 0 <= c < 4 ==> ent(m, r, c) == point_at_ent(pos, target, up, r, c),
    {
        let mut new_forward = target.sub(pos);
        new_forward.normalize();

        let a = new_forward.scale(up.dot(&new_forward));
        let mut new_up = up.sub(a);
        new_up.normalize();

        let new_right = new_up.cross(&new_forward);

        let o = Fx::zero();
        let i = Fx::one();
        Matrix4x4 {
            mat: [
                [new_right.x, new_right.y, new_right.z, o],
                [new_up.x, new_up.y, new_up.z, o],
                [new_forward.x, new_forward.y, new_forward.z, o],
                [pos.x, pos.y, pos.z, i],
            ],
        }
    }

    /// The world-to-view inverse of a point-at matrix, computed analytically
    /// from orthonormality: the rotation block is transposed, never inverted
    /// generally.
    pub fn point_at_inverse(point_at: &Matrix4x4) -> (m: Matrix4x4)
        ensures
            forall|r: int, c: int|
                0 <= r < 4 && 0 <= c < 4 ==> ent(m, r, c) == point_at_inverse_ent(*point_at, r, c),
    {
        let m = point_at;
        let o = Fx::zero();
        let i = Fx::one();
        let t0 = m.mat[3][0].mul(m.mat[0][0]).add(m.mat[3][1].mul(m.mat[0][1])).add(
            m.mat[3][2].mul(m.mat[0][2]),
        ).neg();
        let t1 = m.mat[3][0].mul(m.mat[1][0]).add(m.mat[3][1].mul(m.mat[1][1])).add(
            m.mat[3][2].mul(m.mat[1][2]),
        ).neg();
        let t2 = m.mat[3][0].mul(m.mat[2][0]).add(m.mat[3][1].mul(m.mat[2][1])).add(
            m.mat[3][2].mul(m.mat[2][2]),
        ).neg();
        Matrix4x4 {
            mat: [
                [m.mat[0][0], m.mat[1][0], m.mat[2][0], o],
                [m.mat[0][1], m.mat[1][1], m.mat[2][1], o],
                [m.mat[0][2], m.mat[1][2], m.mat[2][2], o],
                [t0, t1, t2, i],
            ],
        }
    }

    /// Row-by-matrix composition: `(a.multiply(b))` applies `a` first when
    /// used as `v * a * b`.
    pub fn multiply(&self, rhs: &Matrix4x4) -> (m: Matrix4x4)
        ensures
            forall|r: int, c: int|
                0 <= r < 4 && 0 <= c < 4 ==> ent(m, r, c) == mul_ent(*self, *rhs, r, c),
    {
        Matrix4x4 {
            mat: [
                [mul_rc(self, rhs, 0, 0), mul_rc(self, rhs, 0, 1), mul_rc(self, rhs, 0, 2), mul_rc(self, rhs, 0, 3)],
                [mul_rc(self, rhs, 1, 0), mul_rc(self, rhs, 1, 1), mul_rc(self, rhs, 1, 2), mul_rc(self, rhs, 1, 3)],
                [mul_rc(self, rhs, 2, 0), mul_rc(self, rhs, 2, 1), mul_rc(self, rhs, 2, 2), mul_rc(self, rhs, 2, 3)],
                [mul_rc(self, rhs, 3, 0), mul_rc(self, rhs, 3, 1), mul_rc(self, rhs, 3, 2), mul_rc(self, rhs, 3, 3)],
            ],
        }
    }
}

/// Law: multiplying by the identity matrix, on either side, changes no
/// entry, for any matrix whose entries lie inside the saturation range —
/// which every matrix built by this crate's operations does.
pub proof fn lemma_mul_identity(m: Matrix4x4, idm: Matrix4x4)
    requires
        forall|r: int, c: int| 0 <= r < 4 && 0 <= c < 4 ==> ent(idm, r, c) == ident_ent(r, c),
        forall|r: int, c: int|
            0 <= r < 4 && 0 <= c < 4 ==> -(crate::fx::FX_SAT as int) <= ent(m, r, c),
    ensures
        forall|r: int, c: int|
            0 <= r < 4 && 0 <= c < 4 ==> mul_ent(m, idm, r, c) == ent(m, r, c),
        forall|r: int, c: int|
            0 <= r < 4 && 0 <= c < 4 ==> mul_ent(idm, m, r, c) == ent(m, r, c),
{
    assert forall|r: int, c: int|
        0 <= r < 4 && 0 <= c < 4 implies mul_ent(m, idm, r, c) == ent(m, r, c) && mul_ent(
        idm,
        m,
        r,
        c,
    ) == ent(m, r, c) by {
        crate::fx::lemma_fx_mul_one(ent(m, r, 0));
        crate::fx::lemma_fx_mul_one(ent(m, r, 1));
        crate::fx::lemma_fx_mul_one(ent(m, r, 2));
        crate::fx::lemma_fx_mul_one(ent(m, r, 3));
        crate::fx::lemma_fx_mul_one(ent(m, 0, c));
        crate::fx::lemma_fx_mul_one(ent(m, 1, c));
        crate::fx::lemma_fx_mul_one(ent(m, 2, c));
        crate::fx::lemma_fx_mul_one(ent(m, 3, c));
        assert(ent(idm, 0, c) == ident_ent(0, c));
        assert(ent(idm, 1, c) == ident_ent(1, c));
        assert(ent(idm, 2, c) == ident_ent(2, c));
        assert(ent(idm, 3, c) == ident_ent(3, c));
        assert(ent(idm, r, 0) == ident_ent(r, 0));
        assert(ent(idm, r, 1) == ident_ent(r, 1));
        assert(ent(idm, r, 2) == ident_ent(r, 2));
        assert(ent(idm, r, 3) == ident_ent(r, 3));
        assert(forall|a: int| fx_mul(a, 0) == 0 && fx_mul(0, a) == 0);
        assert(mul_ent(m, idm, r, c) == ent(m, r, c));
        assert(mul_ent(idm, m, r, c) == ent(m, r, c));
    }
}

impl Vec4 {
    /// Multiply a row vector by a matrix. The translation row is added
    /// unconditionally, whatever `w` holds.
    pub fn mul_matrix(self, m: &Matrix4x4) -> (r: Vec4)
        ensures
            r.x@ == vec4_mul_ent(self, *m, 0),
            r.y@ == vec4_mul_ent(self, *m, 1),
            r.z@ == vec4_mul_ent(self, *m, 2),
            r.w@ == vec4_mul_ent(self, *m, 3),
    {
        Vec4 {
            x: self.x.mul(m.mat[0][0]).add(self.y.mul(m.mat[1][0])).add(self.z.mul(m.mat[2][0]))
                .add(m.mat[3][0]),
            y: self.x.mul(m.mat[0][1]).add(self.y.mul(m.mat[1][1])).add(self.z.mul(m.mat[2][1]))
                .add(m.mat[3][1]),
            z: self.x.mul(m.mat[0][2]).add(self.y.mul(m.mat[1][2])).add(self.z.mul(m.mat[2][2]))
                .add(m.mat[3][2]),
            w: self.x.mul(m.mat[0][3]).add(self.y.mul(m.mat[1][3])).add(self.z.mul(m.mat[2][3]))
                .add(m.mat[3][3]),
        }
    }
}

} // verus!
