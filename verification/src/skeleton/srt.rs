//! Transforms of the plane: scale, then rotation, then translation.

use vstd::prelude::*;
use crate::scalar::Scalar;
use crate::trig::{sin_cos, spec_cos, spec_sin};

verus! {

/// A scale, a rotation and a translation: a transform of the plane.
#[derive(Debug, Clone, Copy, PartialEq, Eq)]
pub struct SRT {
    /// The scale along x and y.
    pub scale: [Scalar; 2],
    /// The rotation in degrees.
    pub rotation: Scalar,
    /// The position or translation.
    pub position: [Scalar; 2],
    /// The cosine of the rotation.
    pub cos: Scalar,
    /// The sine of the rotation.
    pub sin: Scalar,
}

impl SRT {
    /// The transform of the given scale, rotation in degrees and position.
    pub open spec fn spec_new(
        scale_x: Scalar,
        scale_y: Scalar,
        rotation_deg: Scalar,
        x: Scalar,
        y: Scalar,
    ) -> SRT {
        SRT {
            scale: [scale_x, scale_y],
            rotation: rotation_deg,
            position: [x, y],
            cos: spec_cos(rotation_deg),
            sin: spec_sin(rotation_deg),
        }
    }

    /// The transform that changes nothing.
    pub open spec fn spec_identity() -> SRT {
        SRT::spec_new(
            Scalar::spec_one(),
            Scalar::spec_one(),
            Scalar::spec_zero(),
            Scalar::spec_zero(),
            Scalar::spec_zero(),
        )
    }

    /// Where the transform takes the point `v`: scaled, then turned, then moved.
    pub open spec fn spec_transform(self, v: [Scalar; 2]) -> [Scalar; 2] {
        [
            self.cos.spec_mul(v[0]).spec_mul(self.scale[0]).spec_sub(
                self.sin.spec_mul(v[1]).spec_mul(self.scale[1]),
            ).spec_add(self.position[0]),
            self.sin.spec_mul(v[0]).spec_mul(self.scale[0]).spec_add(
                self.cos.spec_mul(v[1]).spec_mul(self.scale[1]),
            ).spec_add(self.position[1]),
        ]
    }

    /// The transform as three rows of three.
    pub open spec fn spec_matrix3(self) -> [[Scalar; 3]; 3] {
        [
            [self.cos.spec_mul(self.scale[0]), self.sin, Scalar::spec_zero()],
            [self.sin.spec_neg(), self.cos.spec_mul(self.scale[1]), Scalar::spec_zero()],
            [self.position[0], self.position[1], Scalar::spec_one()],
        ]
    }

    /// The transform as four rows of four.
    pub open spec fn spec_matrix4(self) -> [[Scalar; 4]; 4] {
        [
            [
                self.cos.spec_mul(self.scale[0]),
                self.sin,
                Scalar::spec_zero(),
                Scalar::spec_zero(),
            ],
            [
                self.sin.spec_neg(),
                self.cos.spec_mul(self.scale[1]),
                Scalar::spec_zero(),
                Scalar::spec_zero(),
            ],
            [Scalar::spec_zero(), Scalar::spec_zero(), Scalar::spec_one(), Scalar::spec_zero()],
            [self.position[0], self.position[1], Scalar::spec_zero(), Scalar::spec_one()],
        ]
    }

    /// Builds the transform of the given scale, rotation in degrees and position.
    pub fn new(scale_x: Scalar, scale_y: Scalar, rotation_deg: Scalar, x: Scalar, y: Scalar) -> (r:
        SRT)
        ensures
            r == SRT::spec_new(scale_x, scale_y, rotation_deg, x, y),
    {
        let (sin, cos) = sin_cos(rotation_deg);
        SRT { scale: [scale_x, scale_y], rotation: rotation_deg, position: [x, y], cos, sin }
    }

    /// Applies the transform to a point.
    pub fn transform(&self, v: [Scalar; 2]) -> (r: [Scalar; 2])
        ensures
            r == self.spec_transform(v),
    {
        [
            self.cos.mul(v[0]).mul(self.scale[0]).sub(
                self.sin.mul(v[1]).mul(self.scale[1]),
            ).add(self.position[0]),
            self.sin.mul(v[0]).mul(self.scale[0]).add(
                self.cos.mul(v[1]).mul(self.scale[1]),
            ).add(self.position[1]),
        ]
    }

    /// Converts the transform to three rows of three, for a matrix applied from the right.
    pub fn to_matrix3(&self) -> (r: [[Scalar; 3]; 3])
        ensures
            r == self.spec_matrix3(),
    {
        [
            [self.cos.mul(self.scale[0]), self.sin, Scalar::zero()],
            [self.sin.neg(), self.cos.mul(self.scale[1]), Scalar::zero()],
            [self.position[0], self.position[1], Scalar::one()],
        ]
    }

    /// Converts the transform to four rows of four, for a matrix applied from the right.
    pub fn to_matrix4(&self) -> (r: [[Scalar; 4]; 4])
        ensures
            r == self.spec_matrix4(),
    {
        [
            [self.cos.mul(self.scale[0]), self.sin, Scalar::zero(), Scalar::zero()],
            [self.sin.neg(), self.cos.mul(self.scale[1]), Scalar::zero(), Scalar::zero()],
            [Scalar::zero(), Scalar::zero(), Scalar::one(), Scalar::zero()],
            [self.position[0], self.position[1], Scalar::zero(), Scalar::one()],
        ]
    }
}

} // verus!
