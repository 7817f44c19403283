use vstd::prelude::*;

verus! {

/// The fixed-point value of one world unit.
pub const FIXED_ONE: i64 = 65536;

/// A world-space point in fixed-point units.
#[derive(Clone, Copy, Debug, PartialEq, Eq, Structural)]
pub struct Vec2T {
    pub x: i64,
    pub y: i64,
}

impl Vec2T {
    /// The point `(x, y)`.
    pub fn new(x: i64, y: i64) -> (r: Vec2T)
        ensures
            r.x == x,
            r.y == y,
    {
        Vec2T { x, y }
    }
}

/// The fixed-point value of a whole number of world units.
pub open spec fn spec_to_fixed(v: i32) -> int {
    v as int * 65536
}

/// Converts a whole number of world units to fixed point.
pub fn to_fixed(v: i32) -> (r: i64)
    ensures
        r as int == spec_to_fixed(v),
{
    let wide: i64 = v as i64;
    wide * FIXED_ONE
}

} // verus!
