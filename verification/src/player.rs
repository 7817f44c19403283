use vstd::prelude::*;
use crate::typedefs::Vec2T;

verus! {

/// The controllable viewpoint: where it stands, how high, and where it
/// looks (an angle in fixed-point radians).
#[derive(Clone, Copy, Debug, PartialEq, Eq, Structural)]
pub struct PlayerT {
    pub position: Vec2T,
    pub z: i64,
    pub dir_angle: i64,
}

impl PlayerT {
    /// A player at `(x, y)`, eye height `z`, looking along `angle`.
    pub fn new(x: i64, y: i64, z: i64, angle: i64) -> (r: PlayerT)
        ensures
            r == (PlayerT { position: Vec2T { x, y }, z, dir_angle: angle }),
    {
        PlayerT { position: Vec2T { x, y }, z, dir_angle: angle }
    }
}

} // verus!
