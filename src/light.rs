use vstd::prelude::*;
use crate::math::{within, Point, COORD_LIMIT};

verus! {

/// A light source: where it stands and how far its light falls off to
/// nothing, both in millionths of a pixel.
#[derive(PartialEq, Eq, Structural, Copy, Clone, Debug)]
pub struct Light {
    pub position: Point,
    pub radius: i64,
}

impl Light {
    /// Position and radius lie within `COORD_LIMIT`.
    pub open spec fn in_range(self) -> bool {
        self.position.in_range() && within(self.radius as int, COORD_LIMIT as int)
    }
}

} // verus!
