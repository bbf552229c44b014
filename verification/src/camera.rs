//! The camera: position, orientation angles, and the derived basis vectors.
//!
//! `look_direction` is recomputed from yaw and pitch by [`Camera::look_at`],
//! its sole writer, once per frame. The world-up direction is a named field
//! rather than a process-wide constant, so it can be varied; it defaults to
//! the y axis.

use vstd::prelude::*;
use crate::fx::{Fx, FX_ONE, fx_mul, tdiv};
use crate::trig::{sin_spec, cos_spec, sin_fx, cos_fx, TWO_PI_RAW};
use crate::vec::{Vec3, vec3_raw, cross_spec, normalized_spec};

verus! {

/// Raw value of the pitch limit: 89.9 degrees in radians.
pub const PITCH_LIMIT_RAW: i64 = 102838;

/// The look direction derived from spherical angles, normalized.
pub open spec fn look_dir_spec(yaw: int, pitch: int) -> Vec3 {
    normalized_spec(
        vec3_raw(
            fx_mul(cos_spec(pitch), sin_spec(yaw)),
            sin_spec(pitch),
            fx_mul(cos_spec(pitch), cos_spec(yaw)),
        ),
    )
}

/// Pitch clamped to the gimbal-lock guard range.
pub open spec fn pitch_clamp_spec(p: int) -> int {
    if p > PITCH_LIMIT_RAW as int {
        PITCH_LIMIT_RAW as int
    } else if p < -(PITCH_LIMIT_RAW as int) {
        -(PITCH_LIMIT_RAW as int)
    } else {
        p
    }
}

/// Yaw wrapped modulo a full turn, keeping its sign, as a truncating
/// remainder does.
pub open spec fn yaw_wrap_spec(y: int) -> int {
    y - tdiv(y, TWO_PI_RAW as int) * (TWO_PI_RAW as int)
}

/// Law: at zero yaw and zero pitch the derived look direction is exactly
/// the unit z vector.
pub proof fn lemma_look_at_ahead()
    ensures
        look_dir_spec(0, 0) == vec3_raw(0, 0, FX_ONE as int),
{
    crate::trig::lemma_sin_zero();
    assert(crate::fx::fx_add(0, crate::trig::HALF_PI_RAW as int) == 102944);
    assert(crate::trig::sin_reduce(102944) == 102944);
    assert(crate::fx::fx_mul(102944, 102944) == 161704);
    assert(crate::fx::fx_mul(161704, 102944) == 254004);
    assert(crate::fx::fx_mul(254004, 161704) == 626731);
    assert(crate::fx::fx_mul(626731, 161704) == 1546400);
    assert(crate::fx::fx_divi(254004, 6) == 42334);
    assert(crate::fx::fx_divi(626731, 120) == 5222);
    assert(crate::fx::fx_divi(1546400, 5040) == 306);
    assert(crate::trig::sin_poly(102944) == 65526);
    assert(cos_spec(0) == 65526);
    assert(fx_mul(65526, 0) == 0);
    assert(fx_mul(65526, 65526) == 65516);
    crate::vec::lemma_normalized_z_axis(65516);
    assert(look_dir_spec(0, 0) == crate::vec::normalized_spec(vec3_raw(0, 0, 65516)));
}

/// Position, look direction and orientation angles. `roll` is stored but
/// unused by the pipeline.
#[derive(Clone, Copy, Debug)]
pub struct Camera {
    pub pos: Vec3,
    pub look_direction: Vec3,
    pub yaw: Fx,
    pub pitch: Fx,
    pub roll: Fx,
    pub world_up: Vec3,
}

/// The right basis vector: world-up crossed with forward, normalized.
pub open spec fn right_spec(c: Camera) -> Vec3 {
    normalized_spec(cross_spec(c.world_up, c.look_direction))
}

/// The up basis vector: forward crossed with right, already unit length
/// under exact arithmetic.
pub open spec fn up_spec(c: Camera) -> Vec3 {
    cross_spec(c.look_direction, right_spec(c))
}

impl Camera {
    /// A camera with the y axis as world-up.
    pub fn new(pos: Vec3, look_direction: Vec3, yaw: Fx, pitch: Fx, roll: Fx) -> (c: Camera)
        ensures
            c == (Camera {
                pos,
                look_direction,
                yaw,
                pitch,
                roll,
                world_up: vec3_raw(0, FX_ONE as int, 0),
            }),
    {
        Camera {
            pos,
            look_direction,
            yaw,
            pitch,
            roll,
            world_up: Vec3::new(Fx::zero(), Fx::one(), Fx::zero()),
        }
    }

    /// Replace the injected world-up direction.
    pub fn set_world_up(&mut self, up: Vec3)
        ensures
            *final(self) == (Camera { world_up: up, ..*old(self) }),
    {
        self.world_up = up;
    }

    /// Recompute `look_direction` from spherical angles and normalize it.
    pub fn look_at(&mut self, yaw: Fx, pitch: Fx)
        ensures
            *final(self) == (Camera { look_direction: look_dir_spec(yaw@, pitch@), ..*old(self) }),
    {
        self.look_direction.x = cos_fx(pitch).mul(sin_fx(yaw));
        self.look_direction.y = sin_fx(pitch);
        self.look_direction.z = cos_fx(pitch).mul(cos_fx(yaw));
        self.look_direction.normalize();
    }

    /// Clamp pitch short of straight up or down and wrap yaw to one turn,
    /// as the per-frame input step expects.
    pub fn wrap_angles(&mut self)
        ensures
            *final(self) == (Camera {
                yaw: Fx { raw: yaw_wrap_spec(old(self).yaw@) as i64 },
                pitch: Fx { raw: pitch_clamp_spec(old(self).pitch@) as i64 },
                ..*old(self)
            }),
    {
        if self.pitch.raw > PITCH_LIMIT_RAW {
            self.pitch = Fx::from_raw(PITCH_LIMIT_RAW);
        } else if self.pitch.raw < -PITCH_LIMIT_RAW {
            self.pitch = Fx::from_raw(-PITCH_LIMIT_RAW);
        }
        let y: i128 = self.yaw.raw as i128;
        let q: i128 = crate::fx::tdiv128(y, TWO_PI_RAW as i128);
        proof {
            crate::fx::lemma_i64_mul_fits(q as int, TWO_PI_RAW as int);
            crate::trig::lemma_tdiv_rem(y as int, TWO_PI_RAW as int);
        }
        self.yaw = Fx::from_raw((y - q * (TWO_PI_RAW as i128)) as i64);
    }

    /// The look direction itself.
    pub fn get_forward(&self) -> (r: Vec3)
        ensures
            r == self.look_direction,
    {
        self.look_direction
    }

    /// The yaw-only direction in the horizontal plane, for ground movement
    /// that looking up or down must not slow.
    pub fn get_front(&self) -> (r: Vec3)
        ensures
            r == vec3_raw(sin_spec(self.yaw@), 0, cos_spec(self.yaw@)),
    {
        Vec3::new(sin_fx(self.yaw), Fx::zero(), cos_fx(self.yaw))
    }

    /// World-up crossed with forward, normalized. Degenerate (zero) when
    /// forward is parallel to world-up.
    pub fn get_right(&self) -> (r: Vec3)
        ensures
            r == right_spec(*self),
    {
        let forward = self.get_forward();
        self.world_up.cross(&forward).normalized()
    }

    /// Forward crossed with right; unit length under exact arithmetic when
    /// the two are unit and orthogonal.
    pub fn get_up(&self) -> (r: Vec3)
        ensures
            r == up_spec(*self),
    {
        let forward = self.get_forward();
        let right = self.get_right();
        forward.cross(&right)
    }
}

} // verus!
