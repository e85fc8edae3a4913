//! Whose turn it is, and whether the game goes on.

use vstd::prelude::*;
use crate::game::Game;
use crate::team::Team;
use crate::unit::Unit;

verus! {

/// The order of turns. A round has a fixed number of turns; the teams take
/// them alternately, and every round starts with the same team.
#[derive(Debug)]
pub struct Schedule {
    first: Team,
    turns: usize,
    turn: usize,
}

/// A schedule as a mathematical value.
pub struct ScheduleView {
    /// The team that starts every round.
    pub first: Team,
    /// The number of turns in a round.
    pub turns: nat,
    /// How many turns of the current round are over.
    pub turn: nat,
}

/// How a turn begins.
#[derive(Debug)]
pub enum TurnStart {
    /// The game is over, and the given team has won.
    Over(Team),
    /// The given unit acts.
    Act(Unit),
}

impl ScheduleView {
    /// The team whose turn it is: the first team on the even turns of a round,
    /// the other team on the odd ones.
    pub open spec fn team(self) -> Team {
        if self.turn % 2 == 0 {
            self.first
        } else {
            self.first.opponent()
        }
    }

    /// The schedule after one more turn: the next turn of the round, or the
    /// start of the next round where the round is over.
    pub open spec fn next(self) -> ScheduleView {
        ScheduleView {
            turn: if self.turn + 1 < self.turns {
                self.turn + 1
            } else {
                0
            },
            ..self
        }
    }
}

impl View for Schedule {
    type V = ScheduleView;

    closed spec fn view(&self) -> ScheduleView {
        ScheduleView { first: self.first, turns: self.turns as nat, turn: self.turn as nat }
    }
}

impl Schedule {
    #[verifier::type_invariant]
    spec fn well_formed(self) -> bool {
        self.turn <= self.turns
    }

    /// Creates the schedule of rounds of `turns` turns that `first` starts, at the
    /// start of a round.
    pub fn new(first: Team, turns: usize) -> (s: Schedule)
        ensures
            s@ == (ScheduleView { first, turns: turns as nat, turn: 0 }),
    {
        Schedule { first, turns, turn: 0 }
    }

    /// Returns the team whose turn it is.
    pub fn team(&self) -> (t: Team)
        ensures
            t == self@.team(),
    {
        if self.turn % 2 == 0 {
            self.first
        } else {
            self.first.other_team()
        }
    }

    /// Tells whether a round is starting.
    pub fn at_top(&self) -> (b: bool)
        ensures
            b == (self@.turn == 0),
    {
        self.turn == 0
    }

    /// Goes on to the next turn.
    pub fn advance(&mut self)
        ensures
            final(self)@ == old(self)@.next(),
    {
        proof {
            use_type_invariant(&*self);
        }
        if self.turn < self.turns && self.turn + 1 < self.turns {
            self.turn = self.turn + 1;
        } else {
            self.turn = 0;
        }
    }
}

impl Game {
    /// Decides how the turn of `team` begins: where a team has no living unit the
    /// game is over and the other team has won; otherwise the unit of `team` that
    /// acts next is handed out.
    pub fn start_turn(&self, team: Team) -> (start: TurnStart)
        ensures
            match start {
                TurnStart::Over(winner) => self@.winner() == Some(winner),
                TurnStart::Act(u) => self@.winner() == None::<Team> && self@.next_unit(team)
                    == Some(u@),
            },
    {
        match self.winner() {
            Some(winner) => TurnStart::Over(winner),
            None => {
                proof {
                    crate::laws::lemma_next_unit_is_least(self@, team);
                }
                match self.find_next_unit(team) {
                    Ok(u) => TurnStart::Act(u),
                    Err(_) => TurnStart::Over(team.other_team()),
                }
            },
        }
    }
}

} // verus!
