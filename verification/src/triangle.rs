//! Triangles, their flat color, and the plane clipper.
//!
//! A triangle's equality is defined only by its `midpoint` — the average of
//! the three z coordinates — a deliberate simplification that drives the
//! painter's-algorithm sort and nothing else; two triangles with equal
//! average z compare equal wherever they lie.
//!
//! The clipper classifies each vertex by its signed distance to a plane and
//! returns zero, one or two triangles covering the inside part, exactly as
//! [`clip_spec`] states.

use vstd::prelude::*;
use crate::fx::{Fx, fx_add, fx_sub, fx_mul, fx_divi};
use crate::vec::{Vec3, dot_spec, normalized_spec, plane_intersect_spec};

verus! {

/// A flat RGBA color.
#[derive(Clone, Copy, PartialEq, Eq, Structural, Debug)]
pub struct Color {
    pub r: u8,
    pub g: u8,
    pub b: u8,
    pub a: u8,
}

impl Color {
    pub fn rgb(r: u8, g: u8, b: u8) -> (c: Color)
        ensures
            c == (Color { r, g, b, a: 255u8 }),
    {
        Color { r, g, b, a: 255 }
    }

    /// Opaque black, the color a fresh triangle carries.
    pub fn black() -> (c: Color)
        ensures
            c == (Color { r: 0u8, g: 0u8, b: 0u8, a: 255u8 }),
    {
        Color { r: 0, g: 0, b: 0, a: 255 }
    }
}

/// The channels read in reverse order, for surfaces with the opposite byte
/// order.
pub fn reverse_color(color: Color) -> (c: Color)
    ensures
        c == (Color { r: color.a, g: color.b, b: color.g, a: color.r }),
{
    Color { r: color.a, g: color.b, b: color.g, a: color.r }
}

/// Three points (order-significant for winding) and one flat color.
#[derive(Clone, Copy, Debug)]
pub struct Triangle {
    pub points: [Vec3; 3],
    pub color: Color,
}

/// The average of the three z coordinates: the one scalar that depth
/// ordering and triangle equality go by.
pub open spec fn midpoint_spec(t: Triangle) -> int {
    fx_divi(fx_add(fx_add(t.points[0].z@, t.points[1].z@), t.points[2].z@), 3)
}

/// Signed distance from `p` to the plane through `plane_p` with unit normal
/// `n`; a vertex with distance at least zero is inside.
pub open spec fn dist_spec(plane_p: Vec3, n: Vec3, p: Vec3) -> int {
    fx_sub(
        fx_add(fx_add(fx_mul(n.x@, p.x@), fx_mul(n.y@, p.y@)), fx_mul(n.z@, p.z@)),
        dot_spec(n, plane_p),
    )
}

/// A triangle from three points and a color.
pub open spec fn tri_with(a: Vec3, b: Vec3, c: Vec3, col: Color) -> Triangle {
    Triangle { points: [a, b, c], color: col }
}

/// The vertices of `t` that lie inside the plane, in vertex order.
pub open spec fn inside_points(t: Triangle, plane_p: Vec3, n: Vec3) -> Seq<Vec3> {
    (if dist_spec(plane_p, n, t.points[0]) >= 0 {
        seq![t.points[0]]
    } else {
        Seq::<Vec3>::empty()
    }) + (if dist_spec(plane_p, n, t.points[1]) >= 0 {
        seq![t.points[1]]
    } else {
        Seq::<Vec3>::empty()
    }) + (if dist_spec(plane_p, n, t.points[2]) >= 0 {
        seq![t.points[2]]
    } else {
        Seq::<Vec3>::empty()
    })
}

/// The vertices of `t` that lie outside the plane, in vertex order.
pub open spec fn outside_points(t: Triangle, plane_p: Vec3, n: Vec3) -> Seq<Vec3> {
    (if dist_spec(plane_p, n, t.points[0]) < 0 {
        seq![t.points[0]]
    } else {
        Seq::<Vec3>::empty()
    }) + (if dist_spec(plane_p, n, t.points[1]) < 0 {
        seq![t.points[1]]
    } else {
        Seq::<Vec3>::empty()
    }) + (if dist_spec(plane_p, n, t.points[2]) < 0 {
        seq![t.points[2]]
    } else {
        Seq::<Vec3>::empty()
    })
}

/// What clipping `t` against the plane returns: the whole triangle when all
/// three vertices are inside, nothing when none is, one triangle closing the
/// inside corner, or two triangles covering the inside quadrilateral, the
/// color inherited throughout. The plane normal is normalized first.
pub open spec fn clip_spec(t: Triangle, plane_p: Vec3, plane_n: Vec3) -> Seq<Triangle> {
    let n = normalized_spec(plane_n);
    let ins = inside_points(t, plane_p, n);
    let outs = outside_points(t, plane_p, n);
    if ins.len() == 3 {
        seq![t]
    } else if ins.len() == 1 {
        seq![
            tri_with(
                ins[0],
                plane_intersect_spec(plane_p, n, ins[0], outs[0]),
                plane_intersect_spec(plane_p, n, ins[0], outs[1]),
                t.color,
            ),
        ]
    } else if ins.len() == 2 {
        seq![
            tri_with(ins[0], ins[1], plane_intersect_spec(plane_p, n, ins[0], outs[0]), t.color),
            tri_with(
                ins[1],
                plane_intersect_spec(plane_p, n, ins[1], outs[0]),
                plane_intersect_spec(plane_p, n, ins[0], outs[0]),
                t.color,
            ),
        ]
    } else {
        Seq::<Triangle>::empty()
    }
}

/// Signed distance from `p` to the plane through `plane_p` with normal `n`.
fn dist(plane_p: &Vec3, n: &Vec3, p: &Vec3) -> (r: Fx)
    ensures
        r@ == dist_spec(*plane_p, *n, *p),
{
    n.x.mul(p.x).add(n.y.mul(p.y)).add(n.z.mul(p.z)).sub(n.dot(plane_p))
}

impl Triangle {
    /// A triangle over three points, colored black until lit.
    pub fn new(p1: Vec3, p2: Vec3, p3: Vec3) -> (t: Triangle)
        ensures
            t == tri_with(p1, p2, p3, Color { r: 0u8, g: 0u8, b: 0u8, a: 255u8 }),
    {
        Triangle { points: [p1, p2, p3], color: Color::black() }
    }

    pub fn set_color(&mut self, color: Color)
        ensures
            *final(self) == (Triangle { color, ..*old(self) }),
    {
        self.color = color;
    }

    pub fn get_color(&self) -> (c: Color)
        ensures
            c == self.color,
    {
        self.color
    }

    /// The average z of the three points.
    pub fn midpoint(&self) -> (r: Fx)
        ensures
            r@ == midpoint_spec(*self),
    {
        self.points[0].z.add(self.points[1].z).add(self.points[2].z).div_int(3)
    }

    /// Clip against the half-space on the normal side of the plane through
    /// `plane_p`: returns the part of the triangle inside it, re-triangulated,
    /// as [`clip_spec`] states.
    #[verifier::rlimit(60)]
    pub fn clip_against_plane(&self, plane_p: Vec3, plane_n: Vec3) -> (res: Vec<Triangle>)
        ensures
            res@ == clip_spec(*self, plane_p, plane_n),
    {
        let mut results: Vec<Triangle> = Vec::new();

        let n = plane_n.normalized();

        let mut points_inside: Vec<Vec3> = Vec::new();
        let mut points_outside: Vec<Vec3> = Vec::new();
        let mut points_inside_count: usize = 0;

        let d0 = dist(&plane_p, &n, &self.points[0]);
        let d1 = dist(&plane_p, &n, &self.points[1]);
        let d2 = dist(&plane_p, &n, &self.points[2]);

        if d0.raw >= 0 {
            points_inside_count += 1;
            points_inside.push(self.points[0]);
        } else {
            points_outside.push(self.points[0]);
        }

        if d1.raw >= 0 {
            points_inside_count += 1;
            points_inside.push(self.points[1]);
        } else {
            points_outside.push(self.points[1]);
        }

        if d2.raw >= 0 {
            points_inside_count += 1;
            points_inside.push(self.points[2]);
        } else {
            points_outside.push(self.points[2]);
        }

        proof {
            assert(points_inside@ =~= inside_points(*self, plane_p, n));
            assert(points_outside@ =~= outside_points(*self, plane_p, n));
            assert(points_inside_count == points_inside@.len());
        }

        if points_inside_count == 1 {
            let mut new_triangle = Triangle::new(
                points_inside[0],
                Vec3::plane_intersect(plane_p, n, points_inside[0], points_outside[0]),
                Vec3::plane_intersect(plane_p, n, points_inside[0], points_outside[1]),
            );

            new_triangle.set_color(self.get_color());
            results.push(new_triangle);
        }

        if points_inside_count == 2 {
            let mut new_triangle_1 = Triangle::new(
                points_inside[0],
                points_inside[1],
                Vec3::plane_intersect(plane_p, n, points_inside[0], points_outside[0]),
            );

            let mut new_triangle_2 = Triangle::new(
                points_inside[1],
                Vec3::plane_intersect(plane_p, n, points_inside[1], points_outside[0]),
                Vec3::plane_intersect(plane_p, n, points_inside[0], points_outside[0]),
            );

            new_triangle_1.set_color(self.get_color());
            new_triangle_2.set_color(self.get_color());

            results.push(new_triangle_1);
            results.push(new_triangle_2);
        }

        if points_inside_count == 3 {
            results.push(*self);
        }

        proof {
            assert(results@ =~= clip_spec(*self, plane_p, plane_n));
        }
        results
    }
}

/// Law: clipping a triangle whose three vertices all lie inside the
/// half-space returns exactly one triangle, identical to the input, color
/// included.
pub proof fn lemma_clip_fully_inside(t: Triangle, plane_p: Vec3, plane_n: Vec3)
    requires
        forall|i: int|
            0 <= i < 3 ==> dist_spec(plane_p, normalized_spec(plane_n), t.points[i]) >= 0,
    ensures
        clip_spec(t, plane_p, plane_n) =~= seq![t],
{
    let n = normalized_spec(plane_n);
    assert(dist_spec(plane_p, n, t.points[0]) >= 0);
    assert(dist_spec(plane_p, n, t.points[1]) >= 0);
    assert(dist_spec(plane_p, n, t.points[2]) >= 0);
}

/// Law: clipping a triangle whose three vertices all lie outside the
/// half-space returns nothing.
pub proof fn lemma_clip_fully_outside(t: Triangle, plane_p: Vec3, plane_n: Vec3)
    requires
        forall|i: int|
            0 <= i < 3 ==> dist_spec(plane_p, normalized_spec(plane_n), t.points[i]) < 0,
    ensures
        clip_spec(t, plane_p, plane_n) =~= Seq::<Triangle>::empty(),
{
    let n = normalized_spec(plane_n);
    assert(dist_spec(plane_p, n, t.points[0]) < 0);
    assert(dist_spec(plane_p, n, t.points[1]) < 0);
    assert(dist_spec(plane_p, n, t.points[2]) < 0);
}

/// Law: the number of triangles the clipper returns is fixed by how many
/// vertices are inside — three give one, two give two, one gives one, none
/// give none.
pub proof fn lemma_clip_count(t: Triangle, plane_p: Vec3, plane_n: Vec3)
    ensures
        ({
            let k = inside_points(t, plane_p, normalized_spec(plane_n)).len();
            clip_spec(t, plane_p, plane_n).len() == (if k == 3 {
                1int
            } else if k == 2 {
                2int
            } else if k == 1 {
                1int
            } else {
                0int
            })
        }),
{
}

/// Law: the clipper never keeps an outside vertex. Every vertex of every
/// returned triangle is either an input vertex whose signed distance is
/// nonnegative, or the point where an edge from an inside vertex to an
/// outside vertex meets the plane.
#[verifier::rlimit(100)]
pub proof fn lemma_clip_vertices_inside(t: Triangle, plane_p: Vec3, plane_n: Vec3)
    ensures
        forall|i: int, j: int|
            #![trigger clip_spec(t, plane_p, plane_n)[i].points[j]]
            0 <= i < clip_spec(t, plane_p, plane_n).len() && 0 <= j < 3 ==> ({
                let n = normalized_spec(plane_n);
                let v = clip_spec(t, plane_p, plane_n)[i].points[j];
                (dist_spec(plane_p, n, v) >= 0 && (v == t.points[0] || v == t.points[1] || v
                    == t.points[2])) || (exists|a: int, b: int|
                    0 <= a < 3 && 0 <= b < 3 && dist_spec(plane_p, n, t.points[a]) >= 0
                        && dist_spec(plane_p, n, t.points[b]) < 0 && v == plane_intersect_spec(
                        plane_p,
                        n,
                        t.points[a],
                        t.points[b],
                    ))
            }),
{
    let n = normalized_spec(plane_n);
    let ins = inside_points(t, plane_p, n);
    let outs = outside_points(t, plane_p, n);
    let res = clip_spec(t, plane_p, plane_n);
    let in0 = dist_spec(plane_p, n, t.points[0]) >= 0;
    let in1 = dist_spec(plane_p, n, t.points[1]) >= 0;
    let in2 = dist_spec(plane_p, n, t.points[2]) >= 0;
    assert forall|i: int, j: int|
        #![trigger clip_spec(t, plane_p, plane_n)[i].points[j]]
        0 <= i < res.len() && 0 <= j < 3 implies ({
        let v = res[i].points[j];
        (dist_spec(plane_p, n, v) >= 0 && (v == t.points[0] || v == t.points[1] || v
            == t.points[2])) || (exists|a: int, b: int|
            0 <= a < 3 && 0 <= b < 3 && dist_spec(plane_p, n, t.points[a]) >= 0 && dist_spec(
                plane_p,
                n,
                t.points[b],
            ) < 0 && v == plane_intersect_spec(plane_p, n, t.points[a], t.points[b]))
    }) by {
        if ins.len() == 3 {
            assert(in0 && in1 && in2);
            assert(res[i] == t);
        } else if ins.len() == 1 {
            assert(ins[0] == t.points[0] || ins[0] == t.points[1] || ins[0] == t.points[2]);
            assert(dist_spec(plane_p, n, ins[0]) >= 0);
            assert(dist_spec(plane_p, n, outs[0]) < 0);
            assert(dist_spec(plane_p, n, outs[1]) < 0);
            assert(outs[0] == t.points[0] || outs[0] == t.points[1] || outs[0] == t.points[2]);
            assert(outs[1] == t.points[0] || outs[1] == t.points[1] || outs[1] == t.points[2]);
        } else if ins.len() == 2 {
            assert(ins[0] == t.points[0] || ins[0] == t.points[1] || ins[0] == t.points[2]);
            assert(ins[1] == t.points[0] || ins[1] == t.points[1] || ins[1] == t.points[2]);
            assert(dist_spec(plane_p, n, ins[0]) >= 0);
            assert(dist_spec(plane_p, n, ins[1]) >= 0);
            assert(dist_spec(plane_p, n, outs[0]) < 0);
            assert(outs[0] == t.points[0] || outs[0] == t.points[1] || outs[0] == t.points[2]);
        }
    }
}

impl PartialEq for Triangle {
    /// Equality goes by `midpoint` alone, the simplification the depth sort
    /// relies on.
    fn eq(&self, other: &Triangle) -> (r: bool) {
        self.midpoint().raw == other.midpoint().raw
    }
}

impl Eq for Triangle {

}

impl vstd::std_specs::cmp::PartialEqSpecImpl for Triangle {
    open spec fn obeys_eq_spec() -> bool {
        true
    }

    open spec fn eq_spec(&self, other: &Triangle) -> bool {
        midpoint_spec(*self) == midpoint_spec(*other)
    }
}

impl PartialOrd for Triangle {
    /// Ordering, like equality, reads only `midpoint`.
    fn partial_cmp(&self, other: &Triangle) -> (r: Option<core::cmp::Ordering>) {
        if self.midpoint().raw < other.midpoint().raw {
            Some(core::cmp::Ordering::Less)
        } else if self.midpoint().raw > other.midpoint().raw {
            Some(core::cmp::Ordering::Greater)
        } else {
            Some(core::cmp::Ordering::Equal)
        }
    }

    fn ge(&self, other: &Triangle) -> (r: bool) {
        self.midpoint().raw >= other.midpoint().raw
    }

    fn gt(&self, other: &Triangle) -> (r: bool) {
        self.midpoint().raw > other.midpoint().raw
    }

    fn le(&self, other: &Triangle) -> (r: bool) {
        self.midpoint().raw <= other.midpoint().raw
    }

    fn lt(&self, other: &Triangle) -> (r: bool) {
        self.midpoint().raw < other.midpoint().raw
    }
}

impl vstd::std_specs::cmp::PartialOrdSpecImpl for Triangle {
    open spec fn obeys_partial_cmp_spec() -> bool {
        true
    }

    open spec fn partial_cmp_spec(&self, other: &Triangle) -> Option<core::cmp::Ordering> {
        if midpoint_spec(*self) < midpoint_spec(*other) {
            Some(core::cmp::Ordering::Less)
        } else if midpoint_spec(*self) > midpoint_spec(*other) {
            Some(core::cmp::Ordering::Greater)
        } else {
            Some(core::cmp::Ordering::Equal)
        }
    }
}

} // verus!
