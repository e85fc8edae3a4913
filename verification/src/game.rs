//! The game: the one owner of the board and the roster.

use vstd::prelude::*;
use crate::attack::{Attack, AttackOutcome};
use crate::errors::GameError;
use crate::grid::{Cell, Grid};
use crate::model::GameView;
use crate::movement::Movement;
use crate::team::Team;
use crate::unit::{views, DamageStatus, Unit, UnitView};

verus! {

/// A game in progress. Units act through it, and it keeps the board and the
/// roster in agreement.
#[derive(Debug)]
pub struct Game {
    grid: Grid,
    units: Vec<Unit>,
}

impl View for Game {
    type V = GameView;

    closed spec fn view(&self) -> GameView {
        GameView { grid: self.grid@, units: views(self.units@) }
    }
}

impl Game {
    /// Whether the board and the roster agree. Every game that this crate hands
    /// out is well formed, and every operation keeps it so.
    pub open spec fn wf(&self) -> bool {
        self@.consistent()
    }

    /// Makes a game of a board and a roster that agree.
    pub(crate) fn assemble(grid: Grid, units: Vec<Unit>) -> (g: Game)
        requires
            (GameView { grid: grid@, units: views(units@) }).consistent(),
        ensures
            g.wf(),
            g@ == (GameView { grid: grid@, units: views(units@) }),
    {
        Game { grid, units }
    }

    /// Finds the place in the roster of the unit with the id `id`.
    fn find_index(&self, id: u64) -> (r: Option<usize>)
        ensures
            match r {
                Some(i) => i < self@.units.len() && self@.units[i as int].entity_id == id,
                None => !self@.has_unit(id),
            },
    {
        let mut i: usize = 0;
        while i < self.units.len()
            invariant
                i <= self.units.len(),
                forall|j: int| 0 <= j < i ==> (#[trigger] self@.units[j]).entity_id != id,
            decreases self.units.len() - i,
        {
            if self.units[i].entity_id() == id {
                return Some(i);
            }
            i += 1;
        }
        None
    }

    /// Returns a copy of the living unit with the id `id`, as it is now.
    pub fn get_unit(&self, id: u64) -> (r: Result<Unit, GameError>)
        requires
            self.wf(),
        ensures
            match r {
                Ok(u) => self@.has_unit(id) && u@ == self@.unit(id),
                Err(e) => !self@.has_unit(id) && e == GameError::UnitNotFound,
            },
    {
        match self.find_index(id) {
            Some(i) => {
                proof {
                    crate::laws::lemma_index_of(self@, id, i as int);
                }
                Ok(self.units[i].clone())
            },
            None => Err(GameError::UnitNotFound),
        }
    }

    /// Returns copies of all living units, as they are now, in the order in which
    /// they entered the game.
    pub fn units(&self) -> (v: Vec<Unit>)
        ensures
            views(v@) == self@.units,
    {
        let mut v: Vec<Unit> = Vec::new();
        let mut i: usize = 0;
        while i < self.units.len()
            invariant
                i <= self.units.len(),
                v.len() == i,
                forall|j: int| 0 <= j < i ==> (#[trigger] v[j])@ == self.units[j]@,
            decreases self.units.len() - i,
        {
            v.push(self.units[i].clone());
            i += 1;
        }
        v
    }

    /// Returns the number of rows of the board, which is the number of columns.
    pub fn size(&self) -> (n: usize)
        ensures
            n == self@.size(),
    {
        self.grid.size()
    }

    /// Returns what row `x`, column `y` holds, or `None` where that lies off the
    /// board.
    pub fn cell(&self, x: usize, y: usize) -> (c: Option<Cell>)
        ensures
            c == (if self@.on_board(x as int, y as int) {
                Some(self@.grid[x as int][y as int])
            } else {
                None
            }),
    {
        self.grid.get(x, y)
    }

    /// Returns how many living units fight for `team`.
    pub fn count_team(&self, team: Team) -> (n: usize)
        ensures
            n == self@.team_size(team),
    {
        let mut n: usize = 0;
        let mut i: usize = 0;
        while i < self.units.len()
            invariant
                i <= self.units.len(),
                n <= i,
                n == crate::model::count_team(self@.units.take(i as int), team),
            decreases self.units.len() - i,
        {
            assert(self@.units.take(i + 1).drop_last() =~= self@.units.take(i as int));
            if self.units[i].team() == team {
                n += 1;
            }
            i += 1;
        }
        assert(self@.units.take(i as int) =~= self@.units);
        n
    }

    /// Returns the number of turns in a round: the size of the larger team.
    pub fn count_player_turns(&self) -> (n: usize)
        ensures
            n == self@.round_length(),
    {
        let red = self.count_team(Team::Redfor);
        let blue = self.count_team(Team::Bluefor);
        if red >= blue {
            red
        } else {
            blue
        }
    }

    /// Returns the team that has won, if one has: the opponent of a team without
    /// living units.
    pub fn winner(&self) -> (w: Option<Team>)
        ensures
            w == self@.winner(),
    {
        if self.count_team(Team::Bluefor) == 0 {
            Some(Team::Redfor)
        } else if self.count_team(Team::Redfor) == 0 {
            Some(Team::Bluefor)
        } else {
            None
        }
    }

    /// Returns a copy of the unit of `team` that acts next: the one that has
    /// acted least often, and among those the one that entered the game first.
    /// Nothing changes by asking.
    pub fn find_next_unit(&self, team: Team) -> (r: Result<Unit, GameError>)
        ensures
            match r {
                Ok(u) => self@.next_unit(team) == Some(u@),
                Err(e) => self@.next_unit(team) == None::<UnitView> && e
                    == GameError::NoUnitsAvailable,
            },
    {
        let mut best: Option<usize> = None;
        let mut i: usize = 0;
        while i < self.units.len()
            invariant
                i <= self.units.len(),
                match best {
                    None => forall|j: int| 0 <= j < i ==> (#[trigger] self@.units[j]).team != team,
                    Some(b) => {
                        &&& b < i
                        &&& self@.units[b as int].team == team
                        &&& forall|j: int|
                            0 <= j < i && (#[trigger] self@.units[j]).team == team
                                ==> self@.units[b as int].action_count
                                <= self@.units[j].action_count
                        &&& forall|j: int|
                            0 <= j < b && (#[trigger] self@.units[j]).team == team
                                ==> self@.units[b as int].action_count
                                < self@.units[j].action_count
                    },
                },
            decreases self.units.len() - i,
        {
            if self.units[i].team() == team {
                let better = match best {
                    None => true,
                    Some(b) => self.units[i].action_count() < self.units[b].action_count(),
                };
                if better {
                    best = Some(i);
                }
            }
            i += 1;
        }
        match best {
            Some(b) => {
                proof {
                    let c = choose|c: int| self@.is_next(team, c);
                    crate::laws::lemma_next_is_unique(self@, team, b as int, c);
                }
                Ok(self.units[b].clone())
            },
            None => Err(GameError::NoUnitsAvailable),
        }
    }

    /// Moves the unit with the id `unit_id` one cell in direction `mov`.
    ///
    /// The step is refused where it leads off the board or onto a cell that is
    /// not empty; then nothing changes.
    pub fn move_unit(&mut self, unit_id: u64, mov: Movement) -> (r: Result<(), GameError>)
        requires
            old(self).wf(),
        ensures
            final(self).wf(),
            match r {
                Ok(()) => old(self)@.move_unit(unit_id, mov) == Ok::<GameView, GameError>(
                    final(self)@,
                ),
                Err(e) => old(self)@.move_unit(unit_id, mov) == Err::<GameView, GameError>(e)
                    && final(self)@ == old(self)@,
            },
    {
        let i = match self.find_index(unit_id) {
            Some(i) => i,
            None => {
                return Err(GameError::UnitNotFound);
            },
        };
        proof {
            crate::laws::lemma_index_of(self@, unit_id, i as int);
        }
        let from = self.units[i].position();
        let dest = match mov.apply(from, self.grid.size()) {
            Some(dest) => dest,
            None => {
                return Err(GameError::OutOfBounds);
            },
        };
        match self.grid.get(dest.x(), dest.y()) {
            Some(Cell::Empty) => {},
            _ => {
                return Err(GameError::CellOccupied);
            },
        }
        self.grid.set(from.x(), from.y(), Cell::Empty);
        self.grid.set(dest.x(), dest.y(), Cell::Occupied(unit_id));
        self.units[i].move_unit(dest);
        proof {
            crate::laws::lemma_move_keeps_consistent(old(self)@, unit_id, mov);
            assert(self@.units =~= old(self)@.move_unit(unit_id, mov)->Ok_0.units);
        }
        Ok(())
    }

    /// Records that the unit with the id `id` completed an action. Without such a
    /// unit nothing changes.
    pub fn incr_unit_action(&mut self, id: u64)
        requires
            old(self).wf(),
            old(self)@.has_unit(id) ==> old(self)@.unit(id).action_count < u64::MAX,
        ensures
            final(self).wf(),
            final(self)@ == old(self)@.count_action(id),
    {
        match self.find_index(id) {
            Some(i) => {
                proof {
                    crate::laws::lemma_index_of(self@, id, i as int);
                }
                self.units[i].inc_action_count();
                proof {
                    crate::laws::lemma_count_action_keeps_consistent(old(self)@, id);
                    assert(self@.units =~= old(self)@.count_action(id).units);
                }
            },
            None => {},
        }
    }

    /// Lets the unit `attacker` use `attack` on the unit `target`.
    ///
    /// The attack is refused where either unit is not in the game or the target
    /// is farther away than the attack reaches; then nothing changes. Otherwise
    /// the attack counts as the attacker's action, the target loses health, and a
    /// target whose health falls to zero leaves the roster and the board.
    pub fn do_attack(&mut self, attacker: u64, target: u64, attack: Attack) -> (r: Result<
        AttackOutcome,
        GameError,
    >)
        requires
            old(self).wf(),
            old(self)@.has_unit(attacker) ==> old(self)@.unit(attacker).action_count < u64::MAX,
        ensures
            final(self).wf(),
            match r {
                Ok(outcome) => old(self)@.attack(attacker, target, attack@) == Ok::<
                    (GameView, AttackOutcome),
                    GameError,
                >((final(self)@, outcome)),
                Err(e) => old(self)@.attack(attacker, target, attack@) == Err::<
                    (GameView, AttackOutcome),
                    GameError,
                >(e) && final(self)@ == old(self)@,
            },
    {
        let a = match self.find_index(attacker) {
            Some(a) => a,
            None => {
                return Err(GameError::UnitNotFound);
            },
        };
        let t = match self.find_index(target) {
            Some(t) => t,
            None => {
                return Err(GameError::UnitNotFound);
            },
        };
        proof {
            crate::laws::lemma_index_of(self@, attacker, a as int);
            crate::laws::lemma_index_of(self@, target, t as int);
            crate::laws::lemma_attack_keeps_consistent(self@, attacker, target, attack@);
        }
        let reach = attack.range_squared();
        if !self.units[a].position().is_within(self.units[t].position(), reach) {
            return Err(GameError::OutOfRange);
        }
        self.units[a].inc_action_count();
        match self.units[t].deal_damage(attack.damage()) {
            DamageStatus::Alive => {
                let left = self.units[t].health();
                assert(self@.units =~= old(self)@.attack(attacker, target, attack@)->Ok_0.0.units);
                Ok(AttackOutcome::TargetSurvived(left))
            },
            DamageStatus::Dead => {
                let victim = self.units.remove(t);
                let place = victim.position();
                self.grid.set(place.x(), place.y(), Cell::Empty);
                assert(self@.units =~= old(self)@.attack(attacker, target, attack@)->Ok_0.0.units);
                Ok(AttackOutcome::TargetKilled)
            },
        }
    }

    /// Lets the unit with the id `unit_id` spend its turn on one step in direction
    /// `mov`: the step, counted as the unit's action. A step that is refused
    /// changes nothing and costs nothing.
    pub fn step_unit(&mut self, unit_id: u64, mov: Movement) -> (r: Result<(), GameError>)
        requires
            old(self).wf(),
            old(self)@.has_unit(unit_id) ==> old(self)@.unit(unit_id).action_count < u64::MAX,
        ensures
            final(self).wf(),
            match r {
                Ok(()) => old(self)@.step(unit_id, mov) == Ok::<GameView, GameError>(final(self)@),
                Err(e) => old(self)@.step(unit_id, mov) == Err::<GameView, GameError>(e)
                    && final(self)@ == old(self)@,
            },
    {
        proof {
            if old(self)@.move_unit(unit_id, mov) is Ok {
                crate::laws::lemma_move_changes_one_unit(old(self)@, unit_id, mov);
            }
        }
        match self.move_unit(unit_id, mov) {
            Ok(()) => {
                self.incr_unit_action(unit_id);
                Ok(())
            },
            Err(e) => Err(e),
        }
    }

    /// Returns copies of the units that the unit with the id `unit_id` can reach
    /// with an attack whose squared range is `range_squared`: the living units of
    /// the other team within that range, in the order of the roster.
    pub fn targets_within(&self, unit_id: u64, range_squared: u64) -> (r: Result<
        Vec<Unit>,
        GameError,
    >)
        requires
            self.wf(),
        ensures
            match r {
                Ok(v) => self@.has_unit(unit_id) && views(v@) == self@.targets(
                    unit_id,
                    range_squared,
                ),
                Err(e) => !self@.has_unit(unit_id) && e == GameError::UnitNotFound,
            },
    {
        let a = match self.find_index(unit_id) {
            Some(a) => a,
            None => {
                return Err(GameError::UnitNotFound);
            },
        };
        proof {
            crate::laws::lemma_index_of(self@, unit_id, a as int);
        }
        let team = self.units[a].team();
        let place = self.units[a].position();
        let ghost wanted = crate::model::is_target_of(self@.unit(unit_id), range_squared);
        let mut v: Vec<Unit> = Vec::new();
        let mut i: usize = 0;
        while i < self.units.len()
            invariant
                i <= self.units.len(),
                team == self@.unit(unit_id).team,
                place == self@.unit(unit_id).position,
                wanted == crate::model::is_target_of(self@.unit(unit_id), range_squared),
                views(v@) == self@.units.take(i as int).filter(wanted),
            decreases self.units.len() - i,
        {
            proof {
                assert(self@.units.take(i + 1) =~= self@.units.take(i as int).push(
                    self@.units[i as int],
                ));
                self@.units.take(i as int).lemma_filter_push(self@.units[i as int], wanted);
            }
            if self.units[i].team() != team && place.is_within(
                self.units[i].position(),
                range_squared,
            ) {
                v.push(self.units[i].clone());
            }
            i += 1;
        }
        assert(self@.units.take(i as int) =~= self@.units);
        Ok(v)
    }

    /// Draws the board: one line for each row, the highest row first. A line is a
    /// bar, then each cell's sign followed by a bar: a blank for an empty cell, a
    /// caret for terrain, `R` or `B` for a unit of Redfor or Bluefor.
    pub fn render(&self) -> (lines: Vec<Vec<char>>)
        requires
            self.wf(),
        ensures
            lines@.map_values(|line: Vec<char>| line@) == self@.picture(),
    {
        let size = self.grid.size();
        let mut lines: Vec<Vec<char>> = Vec::new();
        let mut k: usize = 0;
        while k < size
            invariant
                self.wf(),
                size == self@.size(),
                k <= size,
                lines.len() == k,
                forall|j: int| 0 <= j < k ==> (#[trigger] lines[j])@ == self@.row_text(size - 1 - j),
            decreases size - k,
        {
            let x = size - 1 - k;
            let mut line: Vec<char> = Vec::new();
            line.push('|');
            let mut y: usize = 0;
            while y < size
                invariant
                    self.wf(),
                    size == self@.size(),
                    x < size,
                    y <= size,
                    line.len() == 2 * y + 1,
                    forall|c: int| 0 <= c < line.len() ==> (#[trigger] line[c]) == self@.row_text(
                        x as int,
                    )[c],
                decreases size - y,
            {
                let sign = match self.grid.get(x, y) {
                    Some(Cell::Terrain) => '^',
                    Some(Cell::Occupied(id)) => {
                        proof {
                            crate::laws::lemma_occupied_cell_has_unit(self@, x as int, y as int, id);
                        }
                        match self.find_index(id) {
                            Some(i) => {
                                proof {
                                    crate::laws::lemma_index_of(self@, id, i as int);
                                }
                                match self.units[i].team() {
                                    Team::Redfor => 'R',
                                    Team::Bluefor => 'B',
                                }
                            },
                            None => ' ',
                        }
                    },
                    _ => ' ',
                };
                line.push(sign);
                line.push('|');
                y += 1;
            }
            lines.push(line);
            k += 1;
        }
        lines
    }
}

} // verus!
