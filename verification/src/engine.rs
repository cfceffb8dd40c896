//! The pairwise force law between a grid cell and an attractor.
//!
//! For a cell at `(x1, y1)` and an attractor at `(x2, y2)` with masses `m1`
//! and `m2`, the displacement is `r = (x2 - x1, y2 - y1)` in integer
//! coordinates; a coincident pair exerts no force, and otherwise the
//! contribution is `(G * m1 * m2 / r2) * (r / r2)` with `r2 = rx^2 + ry^2` —
//! the direction factor is `r / r2`, not `r / |r|`, so the magnitude falls
//! with the fourth power of the distance.

use vstd::prelude::*;
use crate::force::Force;
use crate::scalar::{
    mul_bits, div_bits, of_i32_bits, is_nan_bits, sign_bits, fmul, fdiv, f_of_i32,
};

verus! {

/// Mass assigned to every attractor: the binary32 pattern of ten.
pub const ATTRACTOR_MASS: u32 = 0x4120_0000;

/// Mass assigned to every particle: the binary32 pattern of one.
pub const PARTICLE_MASS: u32 = 0x3f80_0000;

/// The fixed simulation timestep: the binary32 pattern of one.
pub const TIMESTEP: u32 = 0x3f80_0000;

/// The gravitational constant tuning the simulation scale: the binary32
/// pattern of one thousandth.
pub const G: u32 = 0x3a83_126f;

/// Largest coordinate for which `rx*rx + ry*ry` stays within `i32`.
pub const MAX_COORD: u32 = 32767;

/// The force the attractor at `(x2, y2)` with mass `mass2` exerts on a unit
/// placed at `(x1, y1)` with mass `mass1`: zero for a coincident pair, and
/// otherwise `(G * mass1 * mass2 / r2) * (r / r2)` evaluated in IEEE-754
/// binary32 arithmetic, with `r2 = rx*rx + ry*ry` converted from its exact
/// integer value.
pub open spec fn spec_gravitational_force(
    x1: u32,
    y1: u32,
    mass1: u32,
    x2: u32,
    y2: u32,
    mass2: u32,
) -> Force {
    let rx = x2 as int - x1 as int;
    let ry = y2 as int - y1 as int;
    if rx == 0 && ry == 0 {
        Force::spec_zero()
    } else {
        let r2b = of_i32_bits((rx * rx + ry * ry) as i32);
        let magnitude = div_bits(mul_bits(mul_bits(G, mass1), mass2), r2b);
        Force {
            x_component: mul_bits(magnitude, div_bits(of_i32_bits(rx as i32), r2b)),
            y_component: mul_bits(magnitude, div_bits(of_i32_bits(ry as i32), r2b)),
        }
    }
}

/// Computes the force-law contribution of one attractor on one cell.
///
/// A coincident pair short-circuits to the zero vector (no self-force), and
/// every non-NaN component of a non-degenerate contribution points the same
/// way as the corresponding displacement component, up to the signs of the two
/// masses.
pub fn gravitational_force(x1: u32, y1: u32, mass1: u32, x2: u32, y2: u32, mass2: u32) -> (r:
    Force)
    requires
        x1 <= MAX_COORD,
        y1 <= MAX_COORD,
        x2 <= MAX_COORD,
        y2 <= MAX_COORD,
    ensures
        r == spec_gravitational_force(x1, y1, mass1, x2, y2, mass2),
        x1 == x2 && y1 == y2 ==> r == Force::spec_zero(),
        x1 != x2 || y1 != y2 ==> {
            &&& (!is_nan_bits(r.x_component) ==> sign_bits(r.x_component) == (
            (sign_bits(mass1) != sign_bits(mass2)) != (x2 < x1)))
            &&& (!is_nan_bits(r.y_component) ==> sign_bits(r.y_component) == (
            (sign_bits(mass1) != sign_bits(mass2)) != (y2 < y1)))
        },
{
    let rx: i32 = (x2 as i32) - (x1 as i32);
    let ry: i32 = (y2 as i32) - (y1 as i32);
    proof {
        assert(0 <= (rx as int) * (rx as int) <= 32767 * 32767) by (nonlinear_arith)
            requires
                -32767 <= rx as int <= 32767,
        ;
        assert(0 <= (ry as int) * (ry as int) <= 32767 * 32767) by (nonlinear_arith)
            requires
                -32767 <= ry as int <= 32767,
        ;
    }
    let radius_squared: i32 = rx * rx + ry * ry;
    proof {
        assert(((rx as int) * (rx as int) == 0) <==> rx as int == 0) by (nonlinear_arith);
        assert(((ry as int) * (ry as int) == 0) <==> ry as int == 0) by (nonlinear_arith);
    }
    if radius_squared == 0 {
        return Force::default();
    }
    let r2b = f_of_i32(radius_squared);
    let cos_alpha = fdiv(f_of_i32(rx), r2b);
    let sin_alpha = fdiv(f_of_i32(ry), r2b);

    // The law is F = G * m1 * m2 / r^2, where G is a constant chosen to
    // fine-tune the simulation scale.
    let magnitude = fdiv(fmul(fmul(G, mass1), mass2), r2b);
    proof {
        assert(!sign_bits(G));
    }
    Force { x_component: fmul(magnitude, cos_alpha), y_component: fmul(magnitude, sin_alpha) }
}

} // verus!
