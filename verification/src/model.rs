//! The game as a mathematical value, and what each operation makes of it.

use vstd::prelude::*;
use crate::attack::{AttackOutcome, AttackView};
use crate::errors::GameError;
use crate::grid::{is_square, with_cell, Cell};
use crate::movement::{destination, Movement};
use crate::position::Position;
use crate::team::Team;
use crate::unit::{health_after, UnitView};

verus! {

/// A game as a mathematical value: the board, row by row, and the living units
/// in the order in which they entered the game.
pub struct GameView {
    pub grid: Seq<Seq<Cell>>,
    pub units: Seq<UnitView>,
}

/// No two of `units` share an id.
pub open spec fn distinct_ids(units: Seq<UnitView>) -> bool {
    forall|i: int, j: int|
        0 <= i < j < units.len() ==> (#[trigger] units[i]).entity_id != (
        #[trigger] units[j]).entity_id
}

/// Tells a unit whether it is an enemy of `by` that stands within the range
/// whose square, rounded down, is `range_squared`.
pub open spec fn is_target_of(by: UnitView, range_squared: u64) -> spec_fn(UnitView) -> bool {
    |u: UnitView| u.team != by.team && by.position.within(u.position, range_squared)
}

/// How many of `units` fight for `team`.
pub open spec fn count_team(units: Seq<UnitView>, team: Team) -> nat
    decreases units.len(),
{
    if units.len() == 0 {
        0
    } else {
        count_team(units.drop_last(), team) + (if units.last().team == team {
            1nat
        } else {
            0nat
        })
    }
}

impl GameView {
    /// The number of rows, which is the number of columns.
    pub open spec fn size(self) -> nat {
        self.grid.len()
    }

    /// Whether row `x`, column `y` lies on the board.
    pub open spec fn on_board(self, x: int, y: int) -> bool {
        0 <= x < self.size() && 0 <= y < self.size()
    }

    /// Whether a living unit has the id `id`.
    pub open spec fn has_unit(self, id: u64) -> bool {
        exists|i: int| 0 <= i < self.units.len() && (#[trigger] self.units[i]).entity_id == id
    }

    /// The place in the roster of a living unit with the id `id`.
    pub open spec fn index_of(self, id: u64) -> int {
        choose|i: int| 0 <= i < self.units.len() && (#[trigger] self.units[i]).entity_id == id
    }

    /// The living unit with the id `id`.
    pub open spec fn unit(self, id: u64) -> UnitView {
        self.units[self.index_of(id)]
    }

    /// Whether the living unit `id` stands on row `x`, column `y`.
    pub open spec fn stands_at(self, id: u64, x: int, y: int) -> bool {
        exists|i: int|
            0 <= i < self.units.len() && (#[trigger] self.units[i]).entity_id == id
                && self.units[i].position.x == x && self.units[i].position.y == y
    }

    /// Every living unit stands on the board, and its cell names it.
    pub open spec fn units_on_grid(self) -> bool {
        forall|i: int|
            0 <= i < self.units.len() ==> {
                let u = #[trigger] self.units[i];
                &&& self.on_board(u.position.x as int, u.position.y as int)
                &&& self.grid[u.position.x as int][u.position.y as int] == Cell::Occupied(
                    u.entity_id,
                )
            }
    }

    /// Every cell that names a unit names a living one that stands there.
    pub open spec fn cells_name_units(self) -> bool {
        forall|x: int, y: int|
            self.on_board(x, y) ==> (#[trigger] self.grid[x][y] matches Cell::Occupied(id)
                ==> self.stands_at(id, x, y))
    }

    /// The board and the roster agree: the board is a square whose side a `usize`
    /// holds, ids are unique, each living unit's cell names it, and each cell that
    /// names a unit names a living one standing there.
    pub open spec fn consistent(self) -> bool {
        &&& self.size() <= usize::MAX
        &&& is_square(self.grid, self.size())
        &&& distinct_ids(self.units)
        &&& self.units_on_grid()
        &&& self.cells_name_units()
    }

    /// The game after unit `id` has stepped once in direction `mov`, or why it
    /// cannot.
    pub open spec fn move_unit(self, id: u64, mov: Movement) -> Result<GameView, GameError> {
        if !self.has_unit(id) {
            Err(GameError::UnitNotFound)
        } else {
            let i = self.index_of(id);
            let u = self.units[i];
            let (x, y) = destination(u.position, mov);
            if !self.on_board(x, y) {
                Err(GameError::OutOfBounds)
            } else if self.grid[x][y] != Cell::Empty {
                Err(GameError::CellOccupied)
            } else {
                let cleared = with_cell(
                    self.grid,
                    u.position.x as int,
                    u.position.y as int,
                    Cell::Empty,
                );
                Ok(
                    GameView {
                        grid: with_cell(cleared, x, y, Cell::Occupied(id)),
                        units: self.units.update(
                            i,
                            UnitView { position: Position { x: x as usize, y: y as usize }, ..u },
                        ),
                    },
                )
            }
        }
    }

    /// The game after unit `id` has completed an action: its count of actions has
    /// grown by one. Without such a unit nothing changes.
    pub open spec fn count_action(self, id: u64) -> GameView {
        if !self.has_unit(id) {
            self
        } else {
            let i = self.index_of(id);
            let u = self.units[i];
            GameView {
                units: self.units.update(
                    i,
                    UnitView { action_count: (u.action_count + 1) as u64, ..u },
                ),
                ..self
            }
        }
    }

    /// The game after unit `id` has spent its turn on one step in direction `mov`:
    /// the step, counted as an action. A step that cannot be made costs nothing.
    pub open spec fn step(self, id: u64, mov: Movement) -> Result<GameView, GameError> {
        match self.move_unit(id, mov) {
            Ok(moved) => Ok(moved.count_action(id)),
            Err(e) => Err(e),
        }
    }

    /// The game after unit `attacker` has used `attack` on unit `target`, and what
    /// became of the target; or why the attack cannot be made.
    ///
    /// The attack counts as the attacker's action. A target whose health falls to
    /// zero leaves the roster and the board at once.
    pub open spec fn attack(self, attacker: u64, target: u64, attack: AttackView) -> Result<
        (GameView, AttackOutcome),
        GameError,
    > {
        if !self.has_unit(attacker) || !self.has_unit(target) {
            Err(GameError::UnitNotFound)
        } else if !self.unit(attacker).position.within(
            self.unit(target).position,
            attack.range_squared,
        ) {
            Err(GameError::OutOfRange)
        } else {
            let acted = self.count_action(attacker);
            let t = self.index_of(target);
            let victim = acted.units[t];
            let left = health_after(victim.health, attack.damage);
            if left == 0 {
                Ok(
                    (
                        GameView {
                            grid: with_cell(
                                self.grid,
                                victim.position.x as int,
                                victim.position.y as int,
                                Cell::Empty,
                            ),
                            units: acted.units.remove(t),
                        },
                        AttackOutcome::TargetKilled,
                    ),
                )
            } else {
                Ok(
                    (
                        GameView {
                            units: acted.units.update(t, UnitView { health: left, ..victim }),
                            ..acted
                        },
                        AttackOutcome::TargetSurvived(left),
                    ),
                )
            }
        }
    }

    /// The units that unit `id` can reach with an attack whose squared range is
    /// `range_squared`: the living units of the other team within that range, in
    /// the order of the roster.
    pub open spec fn targets(self, id: u64, range_squared: u64) -> Seq<UnitView> {
        self.units.filter(is_target_of(self.unit(id), range_squared))
    }

    /// Whether the unit at place `i` of the roster is the one of `team` to act
    /// next: none of its team has acted less often, and those before it in the
    /// roster have acted more often.
    pub open spec fn is_next(self, team: Team, i: int) -> bool {
        &&& 0 <= i < self.units.len()
        &&& self.units[i].team == team
        &&& forall|j: int|
            0 <= j < self.units.len() && (#[trigger] self.units[j]).team == team
                ==> self.units[i].action_count <= self.units[j].action_count
        &&& forall|j: int|
            0 <= j < i && (#[trigger] self.units[j]).team == team ==> self.units[i].action_count
                < self.units[j].action_count
    }

    /// The unit of `team` to act next, if the team has a living unit.
    pub open spec fn next_unit(self, team: Team) -> Option<UnitView> {
        if self.has_team(team) {
            Some(self.units[choose|i: int| self.is_next(team, i)])
        } else {
            None
        }
    }

    /// Whether a living unit fights for `team`.
    pub open spec fn has_team(self, team: Team) -> bool {
        exists|i: int| 0 <= i < self.units.len() && (#[trigger] self.units[i]).team == team
    }

    /// How many living units fight for `team`.
    pub open spec fn team_size(self, team: Team) -> nat {
        count_team(self.units, team)
    }

    /// The number of turns in a round: the size of the larger team.
    pub open spec fn round_length(self) -> nat {
        if self.team_size(Team::Redfor) >= self.team_size(Team::Bluefor) {
            self.team_size(Team::Redfor)
        } else {
            self.team_size(Team::Bluefor)
        }
    }

    /// The sign under which row `x`, column `y` is drawn: a blank for an empty
    /// cell, a caret for terrain, and the initial of its team for a unit.
    pub open spec fn symbol(self, x: int, y: int) -> char {
        match self.grid[x][y] {
            Cell::Empty => ' ',
            Cell::Terrain => '^',
            Cell::Occupied(id) => match self.unit(id).team {
                Team::Redfor => 'R',
                Team::Bluefor => 'B',
            },
        }
    }

    /// Row `x` as it is drawn: a bar, then each cell's sign followed by a bar.
    pub open spec fn row_text(self, x: int) -> Seq<char> {
        Seq::new(
            2 * self.size() + 1,
            |k: int|
                if k % 2 == 0 {
                    '|'
                } else {
                    self.symbol(x, k / 2)
                },
        )
    }

    /// The board as it is drawn: one line for each row, the highest row first.
    pub open spec fn picture(self) -> Seq<Seq<char>> {
        Seq::new(self.size(), |k: int| self.row_text(self.size() - 1 - k))
    }

    /// The team that has won, if one has: the opponent of a team without living
    /// units. Where neither team has any, Redfor is named.
    pub open spec fn winner(self) -> Option<Team> {
        if self.team_size(Team::Bluefor) == 0 {
            Some(Team::Redfor)
        } else if self.team_size(Team::Redfor) == 0 {
            Some(Team::Bluefor)
        } else {
            None
        }
    }
}

} // verus!
