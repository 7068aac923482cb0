//! The animation driver: a pure, deterministic map from elapsed time to a
//! heading sample.
//!
//! One sample gives a position on a circular flight path together with yaw,
//! pitch and roll angles, all continuous functions of `time + phase_offset`
//! and periodic in one full turn. Several nodes driven by the same function
//! with staggered phase offsets form a trailing formation.

use vstd::prelude::*;

use crate::fp::{
    add_bits, cos_bits, div_bits, f32_of_u32, mul_bits, real_add, real_bits, real_cos, real_div,
    real_mul, real_of_u32, real_pi, real_sin, sin_bits, Real, PI_BITS,
};
use crate::linalg::Vec3r;
use crate::scene_graph::SceneGraph;

verus! {

/// One sampled pose: a position in the horizontal plane and three Euler
/// angles.
pub struct Heading {
    pub x: Real,
    pub z: Real,
    pub yaw: Real,
    pub pitch: Real,
    pub roll: Real,
}

pub struct AnimationDriver {}

/// Radius of the circular flight path.
pub open spec fn path_radius_bits() -> u32 {
    f32_of_u32(30)
}

/// Amplitude of the pitch and roll sway: one fifth of a radian.
pub open spec fn sway_bits() -> u32 {
    div_bits(f32_of_u32(1), f32_of_u32(5))
}

impl AnimationDriver {
    /// Samples the path at `time + phase_offset`: the position runs
    /// counter-clockwise on a circle of radius [`path_radius_bits`], the yaw
    /// follows the path angle, and pitch and roll sway by
    /// [`sway_bits`] with the cosine and sine of the same angle. The sample
    /// is a function of the angle alone, so two calls one period apart see
    /// the same mathematical pose.
    pub fn sample(time: Real, phase_offset: Real) -> (r: Heading)
        ensures
            ({
                let u = add_bits(real_bits(time), real_bits(phase_offset));
                &&& real_bits(r.x) == mul_bits(path_radius_bits(), sin_bits(u))
                &&& real_bits(r.z) == mul_bits(path_radius_bits(), cos_bits(u))
                &&& real_bits(r.yaw) == u
                &&& real_bits(r.pitch) == mul_bits(sway_bits(), cos_bits(u))
                &&& real_bits(r.roll) == mul_bits(sway_bits(), sin_bits(u))
            }),
    {
        let u = real_add(time, phase_offset);
        let radius = real_of_u32(30);
        let sway = real_div(real_of_u32(1), real_of_u32(5));
        let s = real_sin(u);
        let c = real_cos(u);
        Heading {
            x: real_mul(radius, s),
            z: real_mul(radius, c),
            yaw: u,
            pitch: real_mul(sway, c),
            roll: real_mul(sway, s),
        }
    }

    /// The phase offset of formation member `index` out of `count`: an even
    /// share of one full turn, as the renderer staggers its instances.
    pub fn stagger_phase(index: u32, count: u32) -> (r: Real)
        ensures
            real_bits(r) == mul_bits(
                div_bits(mul_bits(f32_of_u32(2), PI_BITS), f32_of_u32(count)),
                f32_of_u32(index),
            ),
    {
        let lap = real_mul(real_of_u32(2), real_pi());
        real_mul(real_div(lap, real_of_u32(count)), real_of_u32(index))
    }

    /// Writes a heading sample into node `h`: the x and z position follow
    /// the sample (the height is kept), and the rotation takes the sampled
    /// pitch, yaw and roll about the x, y and z axes.
    pub fn apply(graph: &mut SceneGraph, h: usize, heading: &Heading)
        requires
            old(graph).wf(),
            h < old(graph).spec_len(),
        ensures
            final(graph).wf(),
            final(graph).spec_len() == old(graph).spec_len(),
            final(graph).spec_node(h as int).position == (Vec3r {
                x: heading.x,
                y: old(graph).spec_node(h as int).position.y,
                z: heading.z,
            }),
            final(graph).spec_node(h as int).rotation == (Vec3r {
                x: heading.pitch,
                y: heading.yaw,
                z: heading.roll,
            }),
            final(graph).spec_node(h as int).reference_point == old(graph).spec_node(
                h as int,
            ).reference_point,
            final(graph).spec_node(h as int).drawable == old(graph).spec_node(h as int).drawable,
            forall|i: int|
                0 <= i < old(graph).spec_len() && i != h ==> #[trigger] final(graph).spec_node(i)
                    == old(graph).spec_node(i),
            forall|i: int|
                0 <= i < old(graph).spec_len() ==> #[trigger] final(graph).children_of(i) == old(
                    graph,
                ).children_of(i),
    {
        let node = graph.node(h);
        graph.set_position(h, Vec3r { x: heading.x, y: node.position.y, z: heading.z });
        graph.set_rotation(h, Vec3r { x: heading.pitch, y: heading.yaw, z: heading.roll });
    }
}

} // verus!
