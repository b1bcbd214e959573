//! Small integer vector type used for monitor positions and sizes.

use vstd::prelude::*;

verus! {

/// A two-dimensional vector of pixel coordinates.
///
/// Monitor positions may be negative (a monitor left of or above the
/// primary one); sizes are positive.
#[derive(Clone, Copy, Debug, PartialEq, Eq, Structural)]
pub struct Vec2i {
    pub x: i32,
    pub y: i32,
}

impl Vec2i {
    pub fn new(x: i32, y: i32) -> (r: Vec2i)
        ensures
            r == (Vec2i { x, y }),
    {
        Vec2i { x, y }
    }
}

} // verus!
