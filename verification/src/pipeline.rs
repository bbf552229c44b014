//! The per-frame transform pipeline.
//!
//! For each source triangle: world transform, back-face cull against the
//! camera ray, one-directional-light flat shading, view transform, clipping
//! against the near plane, perspective projection with its divide, and the
//! flip/offset/scale into pixel coordinates. The frame's draw list is then
//! sorted back to front on `midpoint` and each triangle clipped against the
//! four screen-boundary half-planes.
//!
//! A homogeneous `w` at or below zero after projection — a point at or
//! behind the camera that slipped past the near clip — drops the fragment
//! rather than dividing by it.

use vstd::prelude::*;
use crate::fx::{Fx, FX_ONE, fx_add, fx_mul, fx_div, fx_neg, tdiv};
use crate::matrix::{Matrix4x4, ent, vec4_mul_ent, point_at_ent};
use crate::mesh::Mesh;
use crate::camera::{Camera, up_spec};
use crate::triangle::{Triangle, Color, tri_with, clip_spec, midpoint_spec};
use crate::vec::{Vec3, Vec4, vec3_raw, add_spec, sub_spec, mul_spec, div_spec, dot_spec, cross_spec,
    normalized_spec};

verus! {

/// The raw value of one tenth: the near-plane distance and the lighting
/// floor.
pub const FX_TENTH: i64 = 6554;

/// A point on the near plane.
pub open spec fn near_plane_p() -> Vec3 {
    vec3_raw(0, 0, FX_TENTH as int)
}

/// The near plane's normal: straight down the view axis.
pub open spec fn near_plane_n() -> Vec3 {
    vec3_raw(0, 0, FX_ONE as int)
}

/// A point taken through a matrix with `w` one, dropping the result's `w`.
pub open spec fn apply_m(p: Vec3, m: Matrix4x4) -> Vec3 {
    let v = Vec4 { x: p.x, y: p.y, z: p.z, w: Fx { raw: FX_ONE } };
    vec3_raw(vec4_mul_ent(v, m, 0), vec4_mul_ent(v, m, 1), vec4_mul_ent(v, m, 2))
}

/// A triangle's three points taken through a matrix; the color resets to
/// black, as a freshly built triangle's does.
pub open spec fn transform_tri_spec(t: Triangle, m: Matrix4x4) -> Triangle {
    tri_with(
        apply_m(t.points[0], m),
        apply_m(t.points[1], m),
        apply_m(t.points[2], m),
        Color { r: 0u8, g: 0u8, b: 0u8, a: 255u8 },
    )
}

/// The unit face normal: the cross product of the two edges leaving point
/// zero, normalized; vertex winding fixes its direction.
pub open spec fn face_normal_spec(t: Triangle) -> Vec3 {
    normalized_spec(
        cross_spec(sub_spec(t.points[1], t.points[0]), sub_spec(t.points[2], t.points[0])),
    )
}

/// The flat grayscale from one fixed directional light `(0, 1, -1)`
/// (normalized): the dot with the face normal, floored at one tenth, scaled
/// to a `0..=255` channel.
pub open spec fn lit_color(normal: Vec3) -> Color {
    let l = normalized_spec(vec3_raw(0, FX_ONE as int, -(FX_ONE as int)));
    let dp0 = dot_spec(l, normal);
    let dp = if dp0 < FX_TENTH as int {
        FX_TENTH as int
    } else {
        dp0
    };
    let c = tdiv(dp * 255, FX_ONE as int);
    let ch = if c < 0 {
        0int
    } else if c > 255 {
        255int
    } else {
        c
    };
    Color { r: ch as u8, g: ch as u8, b: ch as u8, a: 255u8 }
}

/// One triangle projected and mapped to pixels: each point goes through the
/// projection matrix, is divided by its `w`, flipped in x and y, offset by
/// one, and scaled by half the viewport; a nonpositive `w` drops the
/// fragment.
pub open spec fn project_one_spec(t: Triangle, proj: Matrix4x4, width: int, height: int) -> Option<
    Triangle,
> {
    let v0 = Vec4 { x: t.points[0].x, y: t.points[0].y, z: t.points[0].z, w: Fx { raw: FX_ONE } };
    let v1 = Vec4 { x: t.points[1].x, y: t.points[1].y, z: t.points[1].z, w: Fx { raw: FX_ONE } };
    let v2 = Vec4 { x: t.points[2].x, y: t.points[2].y, z: t.points[2].z, w: Fx { raw: FX_ONE } };
    let w0 = vec4_mul_ent(v0, proj, 3);
    let w1 = vec4_mul_ent(v1, proj, 3);
    let w2 = vec4_mul_ent(v2, proj, 3);
    if w0 <= 0 || w1 <= 0 || w2 <= 0 {
        None
    } else {
        Some(
            tri_with(
                to_screen(project_div(v0, proj), width, height),
                to_screen(project_div(v1, proj), width, height),
                to_screen(project_div(v2, proj), width, height),
                t.color,
            ),
        )
    }
}

/// A homogeneous point through the projection matrix, divided by its `w`.
pub open spec fn project_div(v: Vec4, proj: Matrix4x4) -> Vec3 {
    let w = vec4_mul_ent(v, proj, 3);
    vec3_raw(
        fx_div(vec4_mul_ent(v, proj, 0), w),
        fx_div(vec4_mul_ent(v, proj, 1), w),
        fx_div(vec4_mul_ent(v, proj, 2), w),
    )
}

/// Clip space to pixels: flip x and y, move `[-1, 1]` to `[0, 2]`, scale by
/// half the viewport.
pub open spec fn to_screen(p: Vec3, width: int, height: int) -> Vec3 {
    mul_spec(
        add_spec(
            mul_spec(p, vec3_raw(-(FX_ONE as int), -(FX_ONE as int), FX_ONE as int)),
            vec3_raw(FX_ONE as int, FX_ONE as int, 0),
        ),
        vec3_raw(width * 32768, height * 32768, FX_ONE as int),
    )
}

/// The screen triangles of a clipped list, in order, fragments with bad `w`
/// dropped.
pub open spec fn project_tris(ts: Seq<Triangle>, proj: Matrix4x4, width: int, height: int) -> Seq<
    Triangle,
>
    decreases ts.len(),
{
    if ts.len() == 0 {
        Seq::<Triangle>::empty()
    } else {
        project_tris(ts.drop_last(), proj, width, height) + (match project_one_spec(
            ts.last(),
            proj,
            width,
            height,
        ) {
            Some(t) => seq![t],
            None => Seq::<Triangle>::empty(),
        })
    }
}

/// What one source triangle contributes to a frame's draw list: nothing
/// when it faces away from the camera; otherwise its lit, near-clipped,
/// projected screen triangles.
pub open spec fn process_spec(
    t: Triangle,
    world: Matrix4x4,
    view: Matrix4x4,
    proj: Matrix4x4,
    camera_pos: Vec3,
    width: int,
    height: int,
) -> Seq<Triangle> {
    let wt = transform_tri_spec(t, world);
    let normal = face_normal_spec(wt);
    if dot_spec(normal, sub_spec(wt.points[0], camera_pos)) < 0 {
        let vt = tri_with(
            apply_m(wt.points[0], view),
            apply_m(wt.points[1], view),
            apply_m(wt.points[2], view),
            lit_color(normal),
        );
        project_tris(clip_spec(vt, near_plane_p(), near_plane_n()), proj, width, height)
    } else {
        Seq::<Triangle>::empty()
    }
}

/// A triangle's three points taken through a matrix, color reset to black.
pub fn transform_triangle(t: &Triangle, m: &Matrix4x4) -> (r: Triangle)
    ensures
        r == transform_tri_spec(*t, *m),
{
    Triangle::new(
        Vec3::from_vec4(Vec4::from_vec3(t.points[0], Fx::one()).mul_matrix(m)),
        Vec3::from_vec4(Vec4::from_vec3(t.points[1], Fx::one()).mul_matrix(m)),
        Vec3::from_vec4(Vec4::from_vec3(t.points[2], Fx::one()).mul_matrix(m)),
    )
}

/// The unit face normal from the triangle's winding.
pub fn face_normal(t: &Triangle) -> (r: Vec3)
    ensures
        r == face_normal_spec(*t),
{
    let line1 = t.points[1].sub(t.points[0]);
    let line2 = t.points[2].sub(t.points[0]);
    let mut normal = Vec3::new(
        line1.y.mul(line2.z).sub(line1.z.mul(line2.y)),
        line1.z.mul(line2.x).sub(line1.x.mul(line2.z)),
        line1.x.mul(line2.y).sub(line1.y.mul(line2.x)),
    );
    normal.normalize();
    normal
}

/// The flat shade for a face normal.
pub fn light_color(normal: &Vec3) -> (c: Color)
    ensures
        c == lit_color(*normal),
{
    let mut light_direction = Vec3::new(Fx::zero(), Fx::one(), Fx::one().neg());
    light_direction.normalize();
    let dp0 = light_direction.dot(normal);
    let dp = if dp0.raw < FX_TENTH {
        Fx::from_raw(FX_TENTH)
    } else {
        dp0
    };
    let q: i128 = crate::fx::tdiv128((dp.raw as i128) * 255, FX_ONE as i128);
    let ch: u8 = if q < 0 {
        0
    } else if q > 255 {
        255
    } else {
        q as u8
    };
    Color::rgb(ch, ch, ch)
}

/// One triangle projected to pixels, or nothing when a `w` is nonpositive.
fn project_one(t: &Triangle, proj: &Matrix4x4, width: u32, height: u32) -> (r: Option<Triangle>)
    ensures
        match r {
            Some(s) => project_one_spec(*t, *proj, width as int, height as int) == Some(s),
            None => project_one_spec(*t, *proj, width as int, height as int) is None,
        },
{
    let v0 = Vec4::from_vec3(t.points[0], Fx::one()).mul_matrix(proj);
    let v1 = Vec4::from_vec3(t.points[1], Fx::one()).mul_matrix(proj);
    let v2 = Vec4::from_vec3(t.points[2], Fx::one()).mul_matrix(proj);
    if v0.w.raw <= 0 || v1.w.raw <= 0 || v2.w.raw <= 0 {
        return None;
    }
    let p0 = Vec3::from_vec4(v0).div(Vec3::new(v0.w, v0.w, v0.w));
    let p1 = Vec3::from_vec4(v1).div(Vec3::new(v1.w, v1.w, v1.w));
    let p2 = Vec3::from_vec4(v2).div(Vec3::new(v2.w, v2.w, v2.w));
    let flip = Vec3::new(Fx::from_raw(-FX_ONE), Fx::from_raw(-FX_ONE), Fx::one());
    let offset = Vec3::new(Fx::one(), Fx::one(), Fx::zero());
    let coef = Vec3::new(
        Fx::from_raw((width as i64) * 32768),
        Fx::from_raw((height as i64) * 32768),
        Fx::one(),
    );
    let q0 = p0.mul(flip).add(offset).mul(coef);
    let q1 = p1.mul(flip).add(offset).mul(coef);
    let q2 = p2.mul(flip).add(offset).mul(coef);
    let mut out = Triangle::new(q0, q1, q2);
    out.set_color(t.get_color());
    Some(out)
}

/// What one source triangle contributes to the frame's draw list.
pub fn process_triangle(
    t: &Triangle,
    world: &Matrix4x4,
    view: &Matrix4x4,
    proj: &Matrix4x4,
    camera_pos: Vec3,
    width: u32,
    height: u32,
) -> (r: Vec<Triangle>)
    ensures
        r@ == process_spec(*t, *world, *view, *proj, camera_pos, width as int, height as int),
{
    let mut out: Vec<Triangle> = Vec::new();
    let transformed_triangle = transform_triangle(t, world);
    let normal = face_normal(&transformed_triangle);
    let camera_ray = transformed_triangle.points[0].sub(camera_pos);
    if normal.dot(&camera_ray).raw < 0 {
        let color = light_color(&normal);
        let mut viewed_triangle = transform_triangle(&transformed_triangle, view);
        viewed_triangle.set_color(color);

        let clipped = viewed_triangle.clip_against_plane(
            Vec3::new(Fx::zero(), Fx::zero(), Fx::from_raw(FX_TENTH)),
            Vec3::new(Fx::zero(), Fx::zero(), Fx::one()),
        );

        let ghost cseq = clip_spec(
            viewed_triangle,
            near_plane_p(),
            near_plane_n(),
        );
        let mut k: usize = 0;
        while k < clipped.len()
            invariant
                clipped@ == cseq,
                k <= clipped@.len(),
                out@ == project_tris(cseq.take(k as int), *proj, width as int, height as int),
            decreases clipped@.len() - k,
        {
            match project_one(&clipped[k], proj, width, height) {
                Some(s) => {
                    out.push(s);
                },
                None => {
                },
            }
            proof {
                assert(cseq.take(k as int + 1).drop_last() =~= cseq.take(k as int));
                assert(cseq.take(k as int + 1).last() == cseq[k as int]);
            }
            k += 1;
        }
        proof {
            assert(cseq.take(cseq.len() as int) =~= cseq);
        }
    }
    out
}

/// Back-to-front order: `midpoint` never increases along the sequence.
pub open spec fn sorted_desc(s: Seq<Triangle>) -> bool {
    forall|i: int, j: int| 0 <= i < j < s.len() ==> midpoint_spec(s[i]) >= midpoint_spec(s[j])
}

/// Sort the draw list back to front — descending `midpoint`, the farthest
/// average z first. The list keeps exactly its triangles; ties keep no
/// promised order, as an ordering read off one lossy scalar cannot.
pub fn sort_back_to_front(ts: &mut Vec<Triangle>)
    ensures
        final(ts)@.to_multiset() == old(ts)@.to_multiset(),
        final(ts)@.len() == old(ts)@.len(),
        sorted_desc(final(ts)@),
{
    broadcast use vstd::seq_lib::group_to_multiset_ensures;

    let mut out: Vec<Triangle> = Vec::new();
    let mut k: usize = 0;
    while k < ts.len()
        invariant
            k <= ts@.len(),
            out@.to_multiset() == ts@.take(k as int).to_multiset(),
            out@.len() == k,
            sorted_desc(out@),
        decreases ts@.len() - k,
    {
        let x = ts[k];
        let xm = x.midpoint();
        let mut p: usize = 0;
        while p < out.len() && out[p].midpoint().raw >= xm.raw
            invariant
                p <= out@.len(),
                xm@ == midpoint_spec(x),
                forall|q: int| 0 <= q < p ==> midpoint_spec(out@[q]) >= midpoint_spec(x),
                sorted_desc(out@),
            decreases out@.len() - p,
        {
            p += 1;
        }
        let ghost pre = out@;
        out.insert(p, x);
        proof {
            vstd::seq_lib::to_multiset_insert(pre, p as int, x);
            assert(ts@.take(k as int + 1) =~= ts@.take(k as int).push(x));
            vstd::seq_lib::to_multiset_build(ts@.take(k as int), x);
            assert(out@.to_multiset() =~= ts@.take(k as int + 1).to_multiset());
        }
        k += 1;
    }
    proof {
        assert(ts@.take(ts@.len() as int) =~= ts@);
    }
    *ts = out;
}

/// Each triangle of a list clipped against one plane, results in input
/// order.
pub open spec fn clip_seq_spec(ts: Seq<Triangle>, pp: Vec3, pn: Vec3) -> Seq<Triangle>
    decreases ts.len(),
{
    if ts.len() == 0 {
        Seq::<Triangle>::empty()
    } else {
        clip_seq_spec(ts.drop_last(), pp, pn) + clip_spec(ts.last(), pp, pn)
    }
}

/// Clip every triangle of a list against one plane.
fn clip_list(ts: &Vec<Triangle>, pp: Vec3, pn: Vec3) -> (r: Vec<Triangle>)
    ensures
        r@ == clip_seq_spec(ts@, pp, pn),
{
    let mut out: Vec<Triangle> = Vec::new();
    let mut k: usize = 0;
    while k < ts.len()
        invariant
            k <= ts@.len(),
            out@ == clip_seq_spec(ts@.take(k as int), pp, pn),
        decreases ts@.len() - k,
    {
        let mut cs = ts[k].clip_against_plane(pp, pn);
        out.append(&mut cs);
        proof {
            assert(ts@.take(k as int + 1).drop_last() =~= ts@.take(k as int));
            assert(ts@.take(k as int + 1).last() == ts@[k as int]);
        }
        k += 1;
    }
    proof {
        assert(ts@.take(ts@.len() as int) =~= ts@);
    }
    out
}

/// The plane point of screen-boundary half-plane `k`: top, bottom, left,
/// right.
pub open spec fn screen_plane_p(k: int, width: int, height: int) -> Vec3 {
    if k == 1 {
        vec3_raw(0, (height - 1) * (FX_ONE as int), 0)
    } else if k == 3 {
        vec3_raw((width - 1) * (FX_ONE as int), 0, 0)
    } else {
        vec3_raw(0, 0, 0)
    }
}

/// The inward normal of screen-boundary half-plane `k`.
pub open spec fn screen_plane_n(k: int) -> Vec3 {
    if k == 0 {
        vec3_raw(0, FX_ONE as int, 0)
    } else if k == 1 {
        vec3_raw(0, -(FX_ONE as int), 0)
    } else if k == 2 {
        vec3_raw(FX_ONE as int, 0, 0)
    } else {
        vec3_raw(-(FX_ONE as int), 0, 0)
    }
}

/// One screen triangle clipped in turn against the four screen boundaries;
/// each stage may split fragments further.
pub open spec fn clip_to_screen_spec(t: Triangle, width: int, height: int) -> Seq<Triangle> {
    let s0 = clip_seq_spec(seq![t], screen_plane_p(0, width, height), screen_plane_n(0));
    let s1 = clip_seq_spec(s0, screen_plane_p(1, width, height), screen_plane_n(1));
    let s2 = clip_seq_spec(s1, screen_plane_p(2, width, height), screen_plane_n(2));
    clip_seq_spec(s2, screen_plane_p(3, width, height), screen_plane_n(3))
}

/// Clip one screen triangle against the four screen-boundary half-planes.
pub fn clip_to_screen(t: &Triangle, width: u32, height: u32) -> (r: Vec<Triangle>)
    ensures
        r@ == clip_to_screen_spec(*t, width as int, height as int),
{
    let o = Fx::zero();
    let i = Fx::one();
    let mut start: Vec<Triangle> = Vec::new();
    start.push(*t);
    proof {
        assert(start@ =~= seq![*t]);
    }
    let s0 = clip_list(&start, Vec3::new(o, o, o), Vec3::new(o, i, o));
    let bottom = Fx::from_raw(((height as i64) - 1) * FX_ONE);
    let s1 = clip_list(&s0, Vec3::new(o, bottom, o), Vec3::new(o, i.neg(), o));
    let s2 = clip_list(&s1, Vec3::new(o, o, o), Vec3::new(i, o, o));
    let right = Fx::from_raw(((width as i64) - 1) * FX_ONE);
    clip_list(&s2, Vec3::new(right, o, o), Vec3::new(i.neg(), o, o))
}

/// An entry of the world-to-view matrix a camera defines: the analytic
/// inverse of the point-at matrix built from its position, its look target
/// one look-direction ahead, and its derived up vector.
pub open spec fn view_matrix_ent(cam: Camera, r: int, c: int) -> int {
    let pos = cam.pos;
    let target = add_spec(cam.pos, cam.look_direction);
    let up = up_spec(cam);
    if r <= 2 {
        if c <= 2 {
            point_at_ent(pos, target, up, c, r)
        } else {
            0
        }
    } else if c <= 2 {
        fx_neg(
            fx_add(
                fx_add(
                    fx_mul(point_at_ent(pos, target, up, 3, 0), point_at_ent(pos, target, up, c, 0)),
                    fx_mul(point_at_ent(pos, target, up, 3, 1), point_at_ent(pos, target, up, c, 1)),
                ),
                fx_mul(point_at_ent(pos, target, up, 3, 2), point_at_ent(pos, target, up, c, 2)),
            ),
        )
    } else {
        FX_ONE as int
    }
}

/// The world-to-view matrix for a camera's current state.
pub fn view_matrix(cam: &Camera) -> (m: Matrix4x4)
    ensures
        forall|r: int, c: int|
            0 <= r < 4 && 0 <= c < 4 ==> ent(m, r, c) == view_matrix_ent(*cam, r, c),
{
    let target = cam.pos.add(cam.get_forward());
    let pa = Matrix4x4::point_at(cam.pos, target, cam.get_up());
    Matrix4x4::point_at_inverse(&pa)
}

/// Every source triangle's contribution to the draw list, in mesh order.
pub open spec fn draw_list_spec(
    ts: Seq<Triangle>,
    world: Matrix4x4,
    view: Matrix4x4,
    proj: Matrix4x4,
    camera_pos: Vec3,
    width: int,
    height: int,
) -> Seq<Triangle>
    decreases ts.len(),
{
    if ts.len() == 0 {
        Seq::<Triangle>::empty()
    } else {
        draw_list_spec(ts.drop_last(), world, view, proj, camera_pos, width, height)
            + process_spec(ts.last(), world, view, proj, camera_pos, width, height)
    }
}

/// A list of screen triangles clipped to the screen, one after the other.
pub open spec fn screen_pass_spec(ts: Seq<Triangle>, width: int, height: int) -> Seq<Triangle>
    decreases ts.len(),
{
    if ts.len() == 0 {
        Seq::<Triangle>::empty()
    } else {
        screen_pass_spec(ts.drop_last(), width, height) + clip_to_screen_spec(
            ts.last(),
            width,
            height,
        )
    }
}

/// One whole frame: every mesh triangle processed into the draw list, the
/// list sorted back to front, and each triangle clipped to the screen in
/// that order. The result is the screen pass over some back-to-front
/// ordering of exactly the processed triangles.
#[verifier::rlimit(100)]
pub fn render_frame(
    mesh: &Mesh,
    world: &Matrix4x4,
    view: &Matrix4x4,
    proj: &Matrix4x4,
    camera_pos: Vec3,
    width: u32,
    height: u32,
) -> (r: Vec<Triangle>)
    ensures
        exists|order: Seq<Triangle>|
            order.to_multiset() == draw_list_spec(
                mesh@,
                *world,
                *view,
                *proj,
                camera_pos,
                width as int,
                height as int,
            ).to_multiset() && sorted_desc(order) && r@ == screen_pass_spec(
                order,
                width as int,
                height as int,
            ),
{
    let tris = mesh.triangles();
    let mut draw: Vec<Triangle> = Vec::new();
    let mut k: usize = 0;
    while k < tris.len()
        invariant
            k <= tris@.len(),
            tris@ == mesh@,
            draw@ == draw_list_spec(
                mesh@.take(k as int),
                *world,
                *view,
                *proj,
                camera_pos,
                width as int,
                height as int,
            ),
        decreases tris@.len() - k,
    {
        let mut part = process_triangle(&tris[k], world, view, proj, camera_pos, width, height);
        draw.append(&mut part);
        proof {
            assert(mesh@.take(k as int + 1).drop_last() =~= mesh@.take(k as int));
            assert(mesh@.take(k as int + 1).last() == mesh@[k as int]);
        }
        k += 1;
    }
    proof {
        assert(mesh@.take(mesh@.len() as int) =~= mesh@);
    }

    sort_back_to_front(&mut draw);
    let ghost order = draw@;

    let mut out: Vec<Triangle> = Vec::new();
    let mut k2: usize = 0;
    while k2 < draw.len()
        invariant
            k2 <= draw@.len(),
            draw@ == order,
            out@ == screen_pass_spec(order.take(k2 as int), width as int, height as int),
        decreases draw@.len() - k2,
    {
        let mut frag = clip_to_screen(&draw[k2], width, height);
        out.append(&mut frag);
        proof {
            assert(order.take(k2 as int + 1).drop_last() =~= order.take(k2 as int));
            assert(order.take(k2 as int + 1).last() == order[k2 as int]);
        }
        k2 += 1;
    }
    proof {
        assert(order.take(order.len() as int) =~= order);
    }
    out
}

} // verus!
