//! A two-component force vector with value semantics.
//!
//! Components are IEEE-754 binary32 bit patterns (see `scalar`). The vector
//! operations combine components with the trusted scalar arithmetic; their
//! contracts restate each result exactly over the named scalar operations.

use vstd::prelude::*;
use crate::scalar::{add_bits, sub_bits, mul_bits, div_bits, fadd, fsub, fmul, fdiv};

verus! {

/// A force (or velocity) vector; each component is an IEEE-754 binary32 bit
/// pattern.
#[derive(Clone, Copy, PartialEq, Eq, Structural, Debug)]
pub struct Force {
    pub x_component: u32,
    pub y_component: u32,
}

impl Force {
    /// The zero vector: both components are the positive-zero pattern.
    pub open spec fn spec_zero() -> Force {
        Force { x_component: 0, y_component: 0 }
    }

    /// Componentwise IEEE-754 sum.
    pub open spec fn spec_add(self, rhs: Force) -> Force {
        Force {
            x_component: add_bits(self.x_component, rhs.x_component),
            y_component: add_bits(self.y_component, rhs.y_component),
        }
    }

    /// Componentwise IEEE-754 difference.
    pub open spec fn spec_sub(self, rhs: Force) -> Force {
        Force {
            x_component: sub_bits(self.x_component, rhs.x_component),
            y_component: sub_bits(self.y_component, rhs.y_component),
        }
    }

    /// Both components multiplied by one IEEE-754 scalar.
    pub open spec fn spec_mul(self, rhs: u32) -> Force {
        Force {
            x_component: mul_bits(self.x_component, rhs),
            y_component: mul_bits(self.y_component, rhs),
        }
    }

    /// Both components divided by one IEEE-754 scalar.
    pub open spec fn spec_div(self, rhs: u32) -> Force {
        Force {
            x_component: div_bits(self.x_component, rhs),
            y_component: div_bits(self.y_component, rhs),
        }
    }

    /// Vector addition.
    pub fn add(self, rhs: Force) -> (r: Force)
        ensures
            r == self.spec_add(rhs),
    {
        Force {
            x_component: fadd(self.x_component, rhs.x_component),
            y_component: fadd(self.y_component, rhs.y_component),
        }
    }

    /// In-place vector addition.
    pub fn add_assign(&mut self, rhs: Force)
        ensures
            *final(self) == old(self).spec_add(rhs),
    {
        *self = self.add(rhs);
    }

    /// Vector subtraction.
    pub fn sub(self, rhs: Force) -> (r: Force)
        ensures
            r == self.spec_sub(rhs),
    {
        Force {
            x_component: fsub(self.x_component, rhs.x_component),
            y_component: fsub(self.y_component, rhs.y_component),
        }
    }

    /// Scalar multiplication.
    pub fn mul(self, rhs: u32) -> (r: Force)
        ensures
            r == self.spec_mul(rhs),
    {
        Force {
            x_component: fmul(self.x_component, rhs),
            y_component: fmul(self.y_component, rhs),
        }
    }

    /// Scalar division.
    pub fn div(self, rhs: u32) -> (r: Force)
        ensures
            r == self.spec_div(rhs),
    {
        Force {
            x_component: fdiv(self.x_component, rhs),
            y_component: fdiv(self.y_component, rhs),
        }
    }
}

impl Default for Force {
    /// The zero vector.
    fn default() -> (r: Force)
        ensures
            r == Force::spec_zero(),
    {
        Force { x_component: 0, y_component: 0 }
    }
}

} // verus!
