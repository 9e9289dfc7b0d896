//! Board coordinates: a validated 2-D grid position.

use vstd::prelude::*;

verus! {

/// A position on the board. Coordinates are 1-indexed: both `x` and `y` range
/// over `[1, 8]` for on-board positions, but any pair of integers can be
/// represented, so that clicks outside the board are expressible.
#[derive(Debug, Default, Copy, Clone, Eq, PartialEq, Structural, Hash)]
pub struct Coordinates {
    pub x: i32,
    pub y: i32,
}

impl Coordinates {
    /// Whether the position lies on the board.
    pub open spec fn spec_in_bounds(self) -> bool {
        xy_in_bounds(self.x as int, self.y as int)
    }

    /// Bounds check used to reject off-board destinations and to terminate
    /// sliding-move generation.
    pub fn in_board_bounds(&self) -> (r: bool)
        ensures
            r == self.spec_in_bounds(),
    {
        self.x > 0 && self.y > 0 && self.x <= crate::BOARD_SIZE as i32
            && self.y <= crate::BOARD_SIZE as i32
    }

    /// The position displaced by `(dx, dy)`.
    pub fn offset(self, dx: i32, dy: i32) -> (r: Coordinates)
        requires
            i32::MIN <= self.x + dx <= i32::MAX,
            i32::MIN <= self.y + dy <= i32::MAX,
        ensures
            r.x == self.x + dx,
            r.y == self.y + dy,
    {
        Coordinates { x: self.x + dx, y: self.y + dy }
    }
}

/// Whether the integer pair `(x, y)` lies on the board.
pub open spec fn xy_in_bounds(x: int, y: int) -> bool {
    1 <= x <= 8 && 1 <= y <= 8
}

} // verus!
