//! The first-person camera rig.
//!
//! The rig holds a position, a yaw and a pitch, and derives from them a view
//! direction `(sin yaw, sin pitch, -cos yaw)` — deliberately not
//! re-normalized after combining the two angles, an accepted approximation —
//! and a strafe direction, the cross product of the view direction with the
//! world up vector. Each operation moves the position or turns an angle by
//! `rate * delta_time` in the requested direction and keeps the derived
//! vectors in step; the angles are never clamped or wrapped.

use vstd::prelude::*;

use crate::fp::{
    add_bits, cos_bits, f32_of_u32, mul_bits, neg_bits, real_add, real_bits, real_cos, real_mul,
    real_neg, real_of_u32, real_sin, real_sub, sin_bits, sub_bits, Real,
};
use crate::linalg::{
    bits3, cross3, cross_bits, is_near_zero, mat_bits, mat_mul, mat_mul_bits, mat_perspective,
    mat_rotation_x, mat_rotation_y, mat_translation, near_zero, persp_bits, rot_bits,
    translation_bits, Mat4, Vec3r,
};

verus! {

/// Component bit patterns of the world up vector `(0, 1, 0)`.
pub open spec fn up_bits() -> Seq<u32> {
    seq![f32_of_u32(0), f32_of_u32(1), f32_of_u32(0)]
}

/// Component bit patterns of the view direction derived from a yaw and a
/// pitch: `(sin yaw, sin pitch, -cos yaw)`.
pub open spec fn view_dir_bits(yaw: u32, pitch: u32) -> Seq<u32> {
    seq![sin_bits(yaw), sin_bits(pitch), neg_bits(cos_bits(yaw))]
}

/// The bit pattern of a binary32 sum when moving forward, of a difference
/// when moving back.
pub open spec fn signed_bits(positive: bool, a: u32, b: u32) -> u32 {
    if positive {
        add_bits(a, b)
    } else {
        sub_bits(a, b)
    }
}

/// The position moved along direction `d`: each component grows by that
/// component times `dt` times the movement rate, left associated as the
/// renderer computes it; the angles are untouched.
pub open spec fn moved_along(
    pre: CameraRig,
    post: CameraRig,
    d: Seq<u32>,
    dt: u32,
    positive: bool,
) -> bool {
    &&& real_bits(post.position.x) == signed_bits(
        positive,
        real_bits(pre.position.x),
        mul_bits(mul_bits(d[0], dt), f32_of_u32(10)),
    )
    &&& real_bits(post.position.y) == signed_bits(
        positive,
        real_bits(pre.position.y),
        mul_bits(mul_bits(d[1], dt), f32_of_u32(10)),
    )
    &&& real_bits(post.position.z) == signed_bits(
        positive,
        real_bits(pre.position.z),
        mul_bits(mul_bits(d[2], dt), f32_of_u32(10)),
    )
    &&& post.yaw == pre.yaw
    &&& post.pitch == pre.pitch
}

/// One strafe step: movement along the derived strafe direction.
pub open spec fn strafed(pre: CameraRig, post: CameraRig, dt: u32, positive: bool) -> bool {
    moved_along(
        pre,
        post,
        cross_bits(view_dir_bits(real_bits(pre.yaw), real_bits(pre.pitch)), up_bits()),
        dt,
        positive,
    )
}

/// One advance step: movement along the derived view direction.
pub open spec fn advanced(pre: CameraRig, post: CameraRig, dt: u32, positive: bool) -> bool {
    moved_along(pre, post, view_dir_bits(real_bits(pre.yaw), real_bits(pre.pitch)), dt, positive)
}

/// One vertical step: the height moved by `dt` times the movement rate,
/// everything else untouched.
pub open spec fn ascended(pre: CameraRig, post: CameraRig, dt: u32, positive: bool) -> bool {
    &&& real_bits(post.position.y) == signed_bits(
        positive,
        real_bits(pre.position.y),
        mul_bits(mul_bits(f32_of_u32(1), dt), f32_of_u32(10)),
    )
    &&& post.position.x == pre.position.x
    &&& post.position.z == pre.position.z
    &&& post.yaw == pre.yaw
    &&& post.pitch == pre.pitch
}

/// One yaw step: the yaw turned by `dt` times the turn rate, the pitch and
/// the position untouched.
pub open spec fn yaw_turned(pre: CameraRig, post: CameraRig, dt: u32, positive: bool) -> bool {
    &&& real_bits(post.yaw) == signed_bits(
        positive,
        real_bits(pre.yaw),
        mul_bits(f32_of_u32(1), dt),
    )
    &&& post.pitch == pre.pitch
    &&& post.position == pre.position
}

/// One pitch step: the pitch turned by `dt` times the turn rate, the yaw and
/// the position untouched.
pub open spec fn pitch_turned(pre: CameraRig, post: CameraRig, dt: u32, positive: bool) -> bool {
    &&& real_bits(post.pitch) == signed_bits(
        positive,
        real_bits(pre.pitch),
        mul_bits(f32_of_u32(1), dt),
    )
    &&& post.yaw == pre.yaw
    &&& post.position == pre.position
}

/// One per-frame movement intent, as decoded from a held key.
#[derive(Clone, Copy, Debug, PartialEq, Eq, Structural)]
pub enum CameraInput {
    StrafeLeft,
    StrafeRight,
    Forward,
    Back,
    Ascend,
    Descend,
    YawRight,
    YawLeft,
    PitchUp,
    PitchDown,
}

/// The camera rig: position and angles, with the derived view and strafe
/// directions kept in step.
pub struct CameraRig {
    pub position: Vec3r,
    pub yaw: Real,
    pub pitch: Real,
    pub view_direction: Vec3r,
    pub normal_direction: Vec3r,
    pub move_rate: Real,
    pub turn_rate: Real,
}

impl CameraRig {
    /// The derived vectors agree with the angles, and the rates are the
    /// renderer's: ten distance units and one radian per second.
    pub open spec fn wf(&self) -> bool {
        &&& bits3(self.view_direction) == view_dir_bits(
            real_bits(self.yaw),
            real_bits(self.pitch),
        )
        &&& bits3(self.normal_direction) == cross_bits(
            view_dir_bits(real_bits(self.yaw), real_bits(self.pitch)),
            up_bits(),
        )
        &&& real_bits(self.move_rate) == f32_of_u32(10)
        &&& real_bits(self.turn_rate) == f32_of_u32(1)
    }

    /// A rig at the origin looking down the negative z axis.
    pub fn new() -> (r: CameraRig)
        ensures
            r.wf(),
            bits3(r.position) == seq![f32_of_u32(0), f32_of_u32(0), f32_of_u32(0)],
            real_bits(r.yaw) == f32_of_u32(0),
            real_bits(r.pitch) == f32_of_u32(0),
    {
        let zero = real_of_u32(0);
        let one = real_of_u32(1);
        let up = Vec3r { x: zero, y: one, z: zero };
        let view = Vec3r {
            x: real_sin(zero),
            y: real_sin(zero),
            z: real_neg(real_cos(zero)),
        };
        let normal = cross3(&view, &up);
        let r = CameraRig {
            position: Vec3r { x: zero, y: zero, z: zero },
            yaw: zero,
            pitch: zero,
            view_direction: view,
            normal_direction: normal,
            move_rate: real_of_u32(10),
            turn_rate: one,
        };
        proof {
            assert(bits3(view) =~= view_dir_bits(f32_of_u32(0), f32_of_u32(0)));
            assert(bits3(up) =~= up_bits());
            assert(bits3(r.position) =~= seq![f32_of_u32(0), f32_of_u32(0), f32_of_u32(0)]);
        }
        r
    }

    /// The derived view direction.
    pub fn view_direction(&self) -> (r: Vec3r)
        requires
            self.wf(),
        ensures
            bits3(r) == view_dir_bits(real_bits(self.yaw), real_bits(self.pitch)),
    {
        self.view_direction
    }

    /// The derived strafe direction: the cross product of the view
    /// direction with the world up vector.
    pub fn normal_direction(&self) -> (r: Vec3r)
        requires
            self.wf(),
        ensures
            bits3(r) == cross_bits(
                view_dir_bits(real_bits(self.yaw), real_bits(self.pitch)),
                up_bits(),
            ),
    {
        self.normal_direction
    }

    /// Moves the position along the strafe direction by
    /// `rate * delta_time`, forward along it when `positive`, else back.
    pub fn strafe(&mut self, delta_time: Real, positive: bool)
        requires
            old(self).wf(),
        ensures
            final(self).wf(),
            strafed(*old(self), *final(self), real_bits(delta_time), positive),
    {
        let dir = self.normal_direction;
        let dx = real_mul(real_mul(dir.x, delta_time), self.move_rate);
        let dy = real_mul(real_mul(dir.y, delta_time), self.move_rate);
        let dz = real_mul(real_mul(dir.z, delta_time), self.move_rate);
        let p = self.position;
        self.position = if positive {
            Vec3r { x: real_add(p.x, dx), y: real_add(p.y, dy), z: real_add(p.z, dz) }
        } else {
            Vec3r { x: real_sub(p.x, dx), y: real_sub(p.y, dy), z: real_sub(p.z, dz) }
        };
    }

    /// Moves the position along the view direction by `rate * delta_time`,
    /// forward when `positive`, else back.
    pub fn advance(&mut self, delta_time: Real, positive: bool)
        requires
            old(self).wf(),
        ensures
            final(self).wf(),
            advanced(*old(self), *final(self), real_bits(delta_time), positive),
    {
        let dir = self.view_direction;
        let dx = real_mul(real_mul(dir.x, delta_time), self.move_rate);
        let dy = real_mul(real_mul(dir.y, delta_time), self.move_rate);
        let dz = real_mul(real_mul(dir.z, delta_time), self.move_rate);
        let p = self.position;
        self.position = if positive {
            Vec3r { x: real_add(p.x, dx), y: real_add(p.y, dy), z: real_add(p.z, dz) }
        } else {
            Vec3r { x: real_sub(p.x, dx), y: real_sub(p.y, dy), z: real_sub(p.z, dz) }
        };
    }

    /// Moves the position straight up (or down) by `rate * delta_time`.
    pub fn ascend(&mut self, delta_time: Real, positive: bool)
        requires
            old(self).wf(),
        ensures
            final(self).wf(),
            ascended(*old(self), *final(self), real_bits(delta_time), positive),
    {
        let one = real_of_u32(1);
        let step = real_mul(real_mul(one, delta_time), self.move_rate);
        let p = self.position;
        let y = if positive {
            real_add(p.y, step)
        } else {
            real_sub(p.y, step)
        };
        self.position = Vec3r { x: p.x, y, z: p.z };
    }

    /// Turns the yaw by `rate * delta_time` and recomputes the derived
    /// directions.
    pub fn turn_yaw(&mut self, delta_time: Real, positive: bool)
        requires
            old(self).wf(),
        ensures
            final(self).wf(),
            yaw_turned(*old(self), *final(self), real_bits(delta_time), positive),
    {
        let step = real_mul(self.turn_rate, delta_time);
        let yaw = if positive {
            real_add(self.yaw, step)
        } else {
            real_sub(self.yaw, step)
        };
        self.yaw = yaw;
        self.refresh_directions();
    }

    /// Turns the pitch by `rate * delta_time` and recomputes the derived
    /// directions.
    pub fn turn_pitch(&mut self, delta_time: Real, positive: bool)
        requires
            old(self).wf(),
        ensures
            final(self).wf(),
            pitch_turned(*old(self), *final(self), real_bits(delta_time), positive),
    {
        let step = real_mul(self.turn_rate, delta_time);
        let pitch = if positive {
            real_add(self.pitch, step)
        } else {
            real_sub(self.pitch, step)
        };
        self.pitch = pitch;
        self.refresh_directions();
    }

    /// Recomputes the derived directions from the current angles.
    fn refresh_directions(&mut self)
        ensures
            final(self).yaw == old(self).yaw,
            final(self).pitch == old(self).pitch,
            final(self).position == old(self).position,
            final(self).move_rate == old(self).move_rate,
            final(self).turn_rate == old(self).turn_rate,
            bits3(final(self).view_direction) == view_dir_bits(
                real_bits(final(self).yaw),
                real_bits(final(self).pitch),
            ),
            bits3(final(self).normal_direction) == cross_bits(
                view_dir_bits(real_bits(final(self).yaw), real_bits(final(self).pitch)),
                up_bits(),
            ),
    {
        let zero = real_of_u32(0);
        let one = real_of_u32(1);
        let up = Vec3r { x: zero, y: one, z: zero };
        let view = Vec3r {
            x: real_sin(self.yaw),
            y: real_sin(self.pitch),
            z: real_neg(real_cos(self.yaw)),
        };
        let normal = cross3(&view, &up);
        proof {
            assert(bits3(view) =~= view_dir_bits(real_bits(self.yaw), real_bits(self.pitch)));
            assert(bits3(up) =~= up_bits());
        }
        self.view_direction = view;
        self.normal_direction = normal;
    }

    /// Applies one frame's worth of a held movement intent, with the
    /// renderer's mapping: strafing moves against or along the strafe
    /// direction, advancing along the view direction, ascending straight up,
    /// and the turn intents change one angle and re-derive the directions.
    pub fn handle_input(&mut self, input: CameraInput, delta_time: Real)
        requires
            old(self).wf(),
        ensures
            final(self).wf(),
            ({
                let pre = *old(self);
                let post = *final(self);
                let dt = real_bits(delta_time);
                match input {
                    CameraInput::StrafeLeft => strafed(pre, post, dt, false),
                    CameraInput::StrafeRight => strafed(pre, post, dt, true),
                    CameraInput::Forward => advanced(pre, post, dt, true),
                    CameraInput::Back => advanced(pre, post, dt, false),
                    CameraInput::Ascend => ascended(pre, post, dt, true),
                    CameraInput::Descend => ascended(pre, post, dt, false),
                    CameraInput::YawRight => yaw_turned(pre, post, dt, true),
                    CameraInput::YawLeft => yaw_turned(pre, post, dt, false),
                    CameraInput::PitchUp => pitch_turned(pre, post, dt, true),
                    CameraInput::PitchDown => pitch_turned(pre, post, dt, false),
                }
            }),
    {
        match input {
            CameraInput::StrafeLeft => self.strafe(delta_time, false),
            CameraInput::StrafeRight => self.strafe(delta_time, true),
            CameraInput::Forward => self.advance(delta_time, true),
            CameraInput::Back => self.advance(delta_time, false),
            CameraInput::Ascend => self.ascend(delta_time, true),
            CameraInput::Descend => self.ascend(delta_time, false),
            CameraInput::YawRight => self.turn_yaw(delta_time, true),
            CameraInput::YawLeft => self.turn_yaw(delta_time, false),
            CameraInput::PitchUp => self.turn_pitch(delta_time, true),
            CameraInput::PitchDown => self.turn_pitch(delta_time, false),
        }
    }

    /// The view-projection matrix: the perspective projection, then the
    /// inverse pitch rotation, the yaw rotation and the translation to the
    /// camera position, composed left to right as the renderer does. The
    /// frustum parameters must not be degenerate: the projection builder
    /// refuses an aspect ratio or a plane separation within machine epsilon
    /// of zero, so callers that cannot guarantee the bound go through
    /// [`CameraRig::try_view_projection`].
    pub fn view_projection(&self, aspect: Real, fovy: Real, near: Real, far: Real) -> (r: Mat4)
        requires
            !near_zero(real_bits(aspect)),
            !near_zero(sub_bits(real_bits(far), real_bits(near))),
        ensures
            mat_bits(r) == view_projection_bits(
                *self,
                real_bits(aspect),
                real_bits(fovy),
                real_bits(near),
                real_bits(far),
            ),
    {
        let perspective = mat_perspective(aspect, fovy, near, far);
        let pitch_camera = mat_rotation_x(real_neg(self.pitch));
        let yaw_camera = mat_rotation_y(self.yaw);
        let translate_camera = mat_translation(
            &Vec3r {
                x: real_neg(self.position.x),
                y: real_neg(self.position.y),
                z: real_neg(self.position.z),
            },
        );
        mat_mul(&mat_mul(&mat_mul(&perspective, &pitch_camera), &yaw_camera), &translate_camera)
    }

    /// Builds the view-projection matrix after checking the frustum
    /// parameters: `None` exactly when the aspect ratio or the plane
    /// separation `far - near` is within machine epsilon of zero, the inputs
    /// the projection builder refuses.
    pub fn try_view_projection(&self, aspect: Real, fovy: Real, near: Real, far: Real) -> (r:
        Option<Mat4>)
        ensures
            match r {
                Some(m) => !near_zero(real_bits(aspect)) && !near_zero(
                    sub_bits(real_bits(far), real_bits(near)),
                ) && mat_bits(m) == view_projection_bits(
                    *self,
                    real_bits(aspect),
                    real_bits(fovy),
                    real_bits(near),
                    real_bits(far),
                ),
                None => near_zero(real_bits(aspect)) || near_zero(
                    sub_bits(real_bits(far), real_bits(near)),
                ),
            },
    {
        if is_near_zero(aspect) {
            return None;
        }
        let separation = real_sub(far, near);
        if is_near_zero(separation) {
            return None;
        }
        Some(self.view_projection(aspect, fovy, near, far))
    }
}

/// Entry bits of the view-projection matrix a rig derives: the perspective
/// projection times the inverse pitch rotation, the yaw rotation, and the
/// translation to the opposite of the rig's position.
pub open spec fn view_projection_bits(
    rig: CameraRig,
    aspect: u32,
    fovy: u32,
    near: u32,
    far: u32,
) -> Seq<u32> {
    mat_mul_bits(
        mat_mul_bits(
            mat_mul_bits(
                persp_bits(aspect, fovy, near, far),
                rot_bits(neg_bits(real_bits(rig.pitch)), 0),
            ),
            rot_bits(real_bits(rig.yaw), 1),
        ),
        translation_bits(
            neg_bits(real_bits(rig.position.x)),
            neg_bits(real_bits(rig.position.y)),
            neg_bits(real_bits(rig.position.z)),
        ),
    )
}

} // verus!
