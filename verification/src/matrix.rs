//! Points of space and of a texture, over any scalar type.

use vstd::prelude::*;

verus! {

/// Whether `x` is a value that `S::default()` may return: for the number
/// types, zero.
pub open spec fn is_zero<S: Default>(x: S) -> bool {
    call_ensures(S::default, (), x)
}

/// A point or a direction in space.
#[derive(Clone, Copy, Debug, PartialEq)]
pub struct Vec3<S> {
    pub x: S,
    pub y: S,
    pub z: S,
}

/// The point with the given coordinates.
pub fn vec3<S>(x: S, y: S, z: S) -> (v: Vec3<S>)
    ensures
        v == (Vec3 { x, y, z }),
{
    Vec3 { x, y, z }
}

impl<S: Default> Vec3<S> {
    /// Whether every coordinate is zero.
    pub open spec fn is_origin(&self) -> bool {
        &&& is_zero(self.x)
        &&& is_zero(self.y)
        &&& is_zero(self.z)
    }

    /// The point whose coordinates are zero.
    pub fn origin() -> (v: Vec3<S>)
        ensures
            v.is_origin(),
    {
        Vec3 { x: S::default(), y: S::default(), z: S::default() }
    }
}

/// A point of a texture.
#[derive(Clone, Copy, Debug, PartialEq)]
pub struct Vec2<S> {
    pub x: S,
    pub y: S,
}

/// The texture point with the given coordinates.
pub fn vec2<S>(x: S, y: S) -> (v: Vec2<S>)
    ensures
        v == (Vec2 { x, y }),
{
    Vec2 { x, y }
}

impl<S: Default> Vec2<S> {
    /// Whether both coordinates are zero.
    pub open spec fn is_origin(&self) -> bool {
        &&& is_zero(self.x)
        &&& is_zero(self.y)
    }

    /// The texture point whose coordinates are zero.
    pub fn origin() -> (v: Vec2<S>)
        ensures
            v.is_origin(),
    {
        Vec2 { x: S::default(), y: S::default() }
    }
}

} // verus!
