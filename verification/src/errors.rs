//! What can go wrong in a game, and how a command reports back.

use vstd::prelude::*;

verus! {

/// Why the game refused an operation. The caller may always try again.
#[derive(Copy, Clone, Debug, PartialEq, Eq, Structural)]
pub enum GameError {
    /// A position lies outside the board.
    OutOfBounds,
    /// The cell holds terrain or another unit.
    CellOccupied,
    /// The target is farther away than the attack reaches.
    OutOfRange,
    /// No living unit has the given id.
    UnitNotFound,
    /// The team has no living unit left.
    NoUnitsAvailable,
}

/// How a command ended.
#[derive(Copy, Clone, Debug, PartialEq, Eq, Structural)]
pub enum ErrorOut {
    /// The unit completed an action; its turn is over.
    Success,
    /// The command only informed; the same unit is asked again.
    SuccessIncomplete,
    /// No command goes by that name.
    NotFound,
    /// The action was attempted and could not be carried out.
    FailedGeneric,
}

impl GameError {
    /// A sentence for the player.
    pub fn message(self) -> (s: &'static str)
        ensures
            s@ == (match self {
                GameError::OutOfBounds => "Position is off the grid"@,
                GameError::CellOccupied => "Cell is already occupied"@,
                GameError::OutOfRange => "Target out of range"@,
                GameError::UnitNotFound => "No unit with that ID found"@,
                GameError::NoUnitsAvailable => "No units available"@,
            }),
    {
        match self {
            GameError::OutOfBounds => "Position is off the grid",
            GameError::CellOccupied => "Cell is already occupied",
            GameError::OutOfRange => "Target out of range",
            GameError::UnitNotFound => "No unit with that ID found",
            GameError::NoUnitsAvailable => "No units available",
        }
    }
}

impl ErrorOut {
    /// Whether this status ends the acting unit's turn.
    pub open spec fn is_turn_over(self) -> bool {
        self == ErrorOut::Success
    }

    /// Tells whether the acting unit's turn is over.
    pub fn ends_turn(self) -> (b: bool)
        ensures
            b == self.is_turn_over(),
    {
        match self {
            ErrorOut::Success => true,
            _ => false,
        }
    }
}

} // verus!
