//! Coordinates and vectors as exact bit patterns.

use vstd::prelude::*;

verus! {

/// Bit pattern of the single-precision number `+0.0`.
pub const ZERO_BITS: u32 = 0;

/// Bit pattern of the single-precision number `1.0`.
pub const ONE_BITS: u32 = 0x3F80_0000;

/// A coordinate, kept as the bit pattern of an IEEE-754 single-precision number.
///
/// Two scalars are equal when their bits are equal. No arithmetic is done on
/// them: the crate only moves coordinates from a cell's boundary into a mesh.
#[derive(Clone, Copy, Debug, PartialEq, Eq, Hash, Structural)]
pub struct Scalar {
    pub bits: u32,
}

impl Scalar {
    /// The number `+0.0`.
    pub open spec fn spec_zero() -> Scalar {
        Scalar { bits: ZERO_BITS }
    }

    /// The number `1.0`.
    pub open spec fn spec_one() -> Scalar {
        Scalar { bits: ONE_BITS }
    }

    /// The number `+0.0`.
    #[verifier::when_used_as_spec(spec_zero)]
    pub fn zero() -> (s: Scalar)
        ensures
            s == Scalar::spec_zero(),
    {
        Scalar { bits: ZERO_BITS }
    }

    /// The number `1.0`.
    #[verifier::when_used_as_spec(spec_one)]
    pub fn one() -> (s: Scalar)
        ensures
            s == Scalar::spec_one(),
    {
        Scalar { bits: ONE_BITS }
    }
}

/// A point or direction in space. The `y` axis points up.
#[derive(Clone, Copy, Debug, PartialEq, Eq, Hash, Structural)]
pub struct Vector3 {
    pub x: Scalar,
    pub y: Scalar,
    pub z: Scalar,
}

impl Vector3 {
    /// The unit vector `(0, 1, 0)`.
    pub open spec fn spec_up() -> Vector3 {
        Vector3 { x: Scalar::zero(), y: Scalar::one(), z: Scalar::zero() }
    }

    /// Where the point `(x, y)` of the map plane lies in space: the plane's
    /// `y` axis runs along the `z` axis of space, at height zero.
    pub open spec fn spec_on_ground(point: (Scalar, Scalar)) -> Vector3 {
        Vector3 { x: point.0, y: Scalar::zero(), z: point.1 }
    }

    /// The unit vector `(0, 1, 0)`.
    #[verifier::when_used_as_spec(spec_up)]
    pub fn up() -> (v: Vector3)
        ensures
            v == Vector3::spec_up(),
    {
        Vector3 { x: Scalar::zero(), y: Scalar::one(), z: Scalar::zero() }
    }

    /// Lifts a point of the map plane into space, at height zero.
    #[verifier::when_used_as_spec(spec_on_ground)]
    pub fn on_ground(point: (Scalar, Scalar)) -> (v: Vector3)
        ensures
            v == Vector3::spec_on_ground(point),
    {
        Vector3 { x: point.0, y: Scalar::zero(), z: point.1 }
    }
}

} // verus!
