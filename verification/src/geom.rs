//! Small fixed-point vector types: clip-space positions, screen-space
//! positions and colors.

use vstd::prelude::*;
use crate::fixed::Fx;

verus! {

/// A two-component fixed-point vector.
#[derive(Clone, Copy, PartialEq, Eq, Structural, Debug)]
pub struct Vec2 {
    pub x: Fx,
    pub y: Fx,
}

/// A three-component fixed-point vector.
#[derive(Clone, Copy, PartialEq, Eq, Structural, Debug)]
pub struct Vec3 {
    pub x: Fx,
    pub y: Fx,
    pub z: Fx,
}

/// A four-component fixed-point vector: a homogeneous clip-space
/// position `(x, y, z, w)`, or a color `(r, g, b, a)` read as
/// `(x, y, z, w)`.
#[derive(Clone, Copy, PartialEq, Eq, Structural, Debug)]
pub struct Vec4 {
    pub x: Fx,
    pub y: Fx,
    pub z: Fx,
    pub w: Fx,
}

impl Vec2 {
    /// Build a vector from its components.
    pub fn new(x: Fx, y: Fx) -> (r: Vec2)
        ensures
            r == (Vec2 { x, y }),
    {
        Vec2 { x, y }
    }
}

impl Vec3 {
    /// Build a vector from its components.
    pub fn new(x: Fx, y: Fx, z: Fx) -> (r: Vec3)
        ensures
            r == (Vec3 { x, y, z }),
    {
        Vec3 { x, y, z }
    }
}

impl Vec4 {
    /// Build a vector from its components.
    pub fn new(x: Fx, y: Fx, z: Fx, w: Fx) -> (r: Vec4)
        ensures
            r == (Vec4 { x, y, z, w }),
    {
        Vec4 { x, y, z, w }
    }
}

} // verus!
