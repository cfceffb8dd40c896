//! A simulated point mass with continuous position and accumulated velocity.
//!
//! Positions are IEEE-754 binary32 bit patterns; the rendered (grid) position
//! is the position rounded to the nearest integer and clamped into the grid.
//! The motion integrator advances velocity from the sampled force and then
//! position from the velocity, over a fixed simulation timestep.

use vstd::prelude::*;
use crate::force::Force;
use crate::engine::{PARTICLE_MASS, TIMESTEP};
use crate::scalar::{
    add_bits, mul_bits, round_bits, ge_zero_bits, gt_zero_bits, le_zero_bits, fadd, fmul, fround,
    ge_zero, gt_zero, le_zero,
};

verus! {

/// A point mass: continuous position and current velocity.
#[derive(Clone, Copy, PartialEq, Eq, Structural, Debug)]
pub struct Particle {
    pub x: u32,
    pub y: u32,
    pub velocity: Force,
}

/// A rounded coordinate clamped into `[0, max]`.
pub open spec fn spec_clamp_coord(v: i64, max: u32) -> u32 {
    if v < 0 {
        0u32
    } else if v > max {
        max
    } else {
        v as u32
    }
}

/// Rounds the coordinate pattern to the nearest integer and clamps it into
/// `[0, max]`.
pub fn clamp_round(b: u32, max: u32) -> (r: u32)
    ensures
        r == spec_clamp_coord(round_bits(b), max),
        r <= max,
{
    let v: i64 = fround(b);
    if v < 0 {
        0
    } else if v > max as i64 {
        max
    } else {
        v as u32
    }
}

impl Particle {
    /// The rendered x coordinate: rounded and clamped into `[0, max_x]`.
    pub open spec fn spec_render_x(self, max_x: u32) -> u32 {
        spec_clamp_coord(round_bits(self.x), max_x)
    }

    /// The rendered y coordinate: rounded and clamped into `[0, max_y]`.
    pub open spec fn spec_render_y(self, max_y: u32) -> u32 {
        spec_clamp_coord(round_bits(self.y), max_y)
    }

    /// The rounded position is inside `[0, max_x] x [0, max_y]`, so clamping
    /// does not move it.
    pub open spec fn spec_is_inside(self, max_x: u32, max_y: u32) -> bool {
        &&& 0 <= round_bits(self.x) <= max_x
        &&& 0 <= round_bits(self.y) <= max_y
    }

    /// The particle is outside the grid on some axis and its velocity on that
    /// axis points back toward the grid — at least not further out, except on
    /// the low y side, where only a strictly inward velocity counts.
    pub open spec fn spec_is_heading_inside(self, max_x: i32, max_y: i32) -> bool {
        let ux = round_bits(self.x);
        let uy = round_bits(self.y);
        ||| (ux < 0 && ge_zero_bits(self.velocity.x_component))
        ||| (ux > max_x && le_zero_bits(self.velocity.x_component))
        ||| (uy < 0 && gt_zero_bits(self.velocity.y_component))
        ||| (uy > max_y && le_zero_bits(self.velocity.y_component))
    }

    /// The velocity after one velocity pass: the acceleration is the force
    /// divided by the particle mass, scaled by the timestep and added to the
    /// base velocity.
    pub open spec fn spec_updated_velocity(base: Force, total_force: Force) -> Force {
        base.spec_add(total_force.spec_div(PARTICLE_MASS).spec_mul(TIMESTEP))
    }

    /// The particle after one position pass: each coordinate advances by the
    /// matching velocity component scaled by the timestep.
    pub open spec fn spec_advanced(self) -> Particle {
        Particle {
            x: add_bits(self.x, mul_bits(self.velocity.x_component, TIMESTEP)),
            y: add_bits(self.y, mul_bits(self.velocity.y_component, TIMESTEP)),
            velocity: self.velocity,
        }
    }

    /// The position rounded to the nearest integer and clamped into
    /// `[0, max_x] x [0, max_y]`.
    pub fn get_render_position(&self, max_x: u32, max_y: u32) -> (r: (u32, u32))
        ensures
            r.0 == self.spec_render_x(max_x),
            r.1 == self.spec_render_y(max_y),
            r.0 <= max_x,
            r.1 <= max_y,
    {
        let render_x = clamp_round(self.x, max_x);
        let render_y = clamp_round(self.y, max_y);
        (render_x, render_y)
    }

    /// Whether the rounded position lies within the rendered bounds.
    pub fn is_inside(&self, max_x: u32, max_y: u32) -> (r: bool)
        ensures
            r == self.spec_is_inside(max_x, max_y),
    {
        let ux: i64 = fround(self.x);
        let uy: i64 = fround(self.y);
        0 <= ux && ux <= max_x as i64 && 0 <= uy && uy <= max_y as i64
    }

    /// Whether a particle outside the bounds is moving back toward them on
    /// the axis where it escaped.
    pub fn is_heading_inside(&self, max_x: i32, max_y: i32) -> (r: bool)
        ensures
            r == self.spec_is_heading_inside(max_x, max_y),
    {
        let ux: i64 = fround(self.x);
        let uy: i64 = fround(self.y);

        let heading_inside_x = (ux < 0 && ge_zero(self.velocity.x_component)) || (ux
            > max_x as i64 && le_zero(self.velocity.x_component));

        let heading_inside_y = (uy < 0 && gt_zero(self.velocity.y_component)) || (uy
            > max_y as i64 && le_zero(self.velocity.y_component));

        heading_inside_x || heading_inside_y
    }

    /// Integrates the velocity: `v' = v + (F / m) * dt`, with `dt` the fixed
    /// simulation timestep (simulation time, not wall-clock time).
    pub fn update_velocity(&mut self, total_force: Force)
        ensures
            final(self).velocity == Particle::spec_updated_velocity(
                old(self).velocity,
                total_force,
            ),
            final(self).x == old(self).x,
            final(self).y == old(self).y,
    {
        let acceleration = total_force.div(PARTICLE_MASS);
        self.velocity = self.velocity.add(acceleration.mul(TIMESTEP));
    }

    /// Integrates the position: `p' = p + v * dt`, with `dt` the fixed
    /// simulation timestep.
    pub fn update_position(&mut self)
        ensures
            *final(self) == old(self).spec_advanced(),
    {
        self.x = fadd(self.x, fmul(self.velocity.x_component, TIMESTEP));
        self.y = fadd(self.y, fmul(self.velocity.y_component, TIMESTEP));
    }
}

} // verus!
