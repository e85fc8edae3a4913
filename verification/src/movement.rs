//! The four ways a unit can step.

use vstd::prelude::*;
use crate::position::Position;

verus! {

/// One step to a neighbouring cell. Rows grow upwards, columns to the right.
#[derive(Copy, Clone, Debug, PartialEq, Eq, Structural)]
pub enum Movement {
    Up,
    Down,
    Left,
    Right,
}

/// The row and column that one step from `p` leads to. It may lie off the board,
/// below row or column zero too.
pub open spec fn destination(p: Position, mov: Movement) -> (int, int) {
    match mov {
        Movement::Up => (p.x + 1, p.y as int),
        Movement::Down => (p.x - 1, p.y as int),
        Movement::Left => (p.x as int, p.y - 1),
        Movement::Right => (p.x as int, p.y + 1),
    }
}

impl Movement {
    /// Returns the position one step from `p`, if it lies on a board of `size` rows
    /// and columns.
    pub fn apply(self, p: Position, size: usize) -> (dest: Option<Position>)
        ensures
            dest == (if 0 <= destination(p, self).0 < size && 0 <= destination(p, self).1 < size {
                Some(
                    Position {
                        x: destination(p, self).0 as usize,
                        y: destination(p, self).1 as usize,
                    },
                )
            } else {
                None
            }),
    {
        let x = p.x();
        let y = p.y();
        match self {
            Movement::Up => {
                if x < size && x + 1 < size && y < size {
                    Some(Position::new(x + 1, y))
                } else {
                    None
                }
            },
            Movement::Down => {
                if x > 0 && x - 1 < size && y < size {
                    Some(Position::new(x - 1, y))
                } else {
                    None
                }
            },
            Movement::Left => {
                if y > 0 && y - 1 < size && x < size {
                    Some(Position::new(x, y - 1))
                } else {
                    None
                }
            },
            Movement::Right => {
                if y < size && y + 1 < size && x < size {
                    Some(Position::new(x, y + 1))
                } else {
                    None
                }
            },
        }
    }
}

} // verus!
