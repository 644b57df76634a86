//! The eight step directions used when counting consecutive cells from a
//! coordinate, and the coordinate transform that takes one step.

use vstd::prelude::*;

verus! {

/// One of the eight unit steps on the grid. The win detector pairs each
/// direction with its opposite to measure a whole axis.
pub enum Direction {
    Up,
    UpRight,
    Right,
    DownRight,
    Down,
    DownLeft,
    Left,
    UpLeft,
}

impl Direction {
    /// Column component of the unit step.
    pub open spec fn dx(self) -> int {
        match self {
            Direction::Up => 0,
            Direction::UpRight => 1,
            Direction::Right => 1,
            Direction::DownRight => 1,
            Direction::Down => 0,
            Direction::DownLeft => -1,
            Direction::Left => -1,
            Direction::UpLeft => -1,
        }
    }

    /// Row component of the unit step.
    pub open spec fn dy(self) -> int {
        match self {
            Direction::Up => 1,
            Direction::UpRight => 1,
            Direction::Right => 0,
            Direction::DownRight => -1,
            Direction::Down => -1,
            Direction::DownLeft => -1,
            Direction::Left => 0,
            Direction::UpLeft => 1,
        }
    }

    /// Moves a (column, row) coordinate one step in this direction. The
    /// result may lie one step outside the grid, which is why coordinates
    /// are signed here.
    pub fn transform(&self, coord: &[i32; 2]) -> (r: [i32; 2])
        requires
            i32::MIN < coord[0] < i32::MAX,
            i32::MIN < coord[1] < i32::MAX,
        ensures
            r[0] == coord[0] + self.dx(),
            r[1] == coord[1] + self.dy(),
    {
        let increment: [i32; 2] = match self {
            Direction::Up => [0, 1],
            Direction::UpRight => [1, 1],
            Direction::Right => [1, 0],
            Direction::DownRight => [1, -1],
            Direction::Down => [0, -1],
            Direction::DownLeft => [-1, -1],
            Direction::Left => [-1, 0],
            Direction::UpLeft => [-1, 1],
        };
        [coord[0] + increment[0], coord[1] + increment[1]]
    }
}

} // verus!
