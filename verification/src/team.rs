//! The two sides of a game.

use vstd::prelude::*;

verus! {

/// One of the two opposing sides. Every unit belongs to exactly one.
#[derive(Copy, Clone, Debug, PartialEq, Eq, Structural)]
pub enum Team {
    Redfor,
    Bluefor,
}

impl Team {
    /// The opposing side, as a mathematical function.
    pub open spec fn opponent(self) -> Team {
        match self {
            Team::Redfor => Team::Bluefor,
            Team::Bluefor => Team::Redfor,
        }
    }

    /// Returns the opposing side.
    pub fn other_team(self) -> (t: Team)
        ensures
            t == self.opponent(),
            t != self,
    {
        match self {
            Team::Redfor => Team::Bluefor,
            Team::Bluefor => Team::Redfor,
        }
    }

    /// The name under which the side is shown.
    pub fn label(self) -> (s: &'static str)
        ensures
            s@ == (match self {
                Team::Redfor => "Redfor"@,
                Team::Bluefor => "Bluefor"@,
            }),
    {
        match self {
            Team::Redfor => "Redfor",
            Team::Bluefor => "Bluefor",
        }
    }
}

/// The opponent of a side's opponent is the side itself.
pub proof fn lemma_opponent_involution(t: Team)
    ensures
        t.opponent().opponent() == t,
        t.opponent() != t,
{
}

} // verus!
