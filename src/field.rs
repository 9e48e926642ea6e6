use vstd::prelude::*;

use crate::position::Position;

verus! {

/// The fixed rectangle `[0, width) x [0, height)` the robot lives on.
#[derive(Clone, Copy, Debug, PartialEq, Eq, Structural)]
pub struct Field {
    pub width: isize,
    pub height: isize,
}

impl Field {
    /// Whether the point `(x, y)` lies inside the field.
    pub open spec fn holds(self, x: int, y: int) -> bool {
        0 <= x < self.width && 0 <= y < self.height
    }

    /// To know if the given position is in field.
    pub fn position_in_field(&self, pos: &Position) -> (r: bool)
        ensures
            r == self.holds(pos.x as int, pos.y as int),
    {
        pos.x >= 0 && pos.x < self.width && pos.y >= 0 && pos.y < self.height
    }
}

} // verus!
