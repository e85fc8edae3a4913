//! What holds of every game: the board and the roster stay in agreement, and
//! each operation does what the rules say and no more.

use vstd::prelude::*;
use crate::attack::{AttackOutcome, AttackView};
use crate::errors::GameError;
use crate::grid::{lemma_with_cell, with_cell, Cell};
use crate::model::{count_team, distinct_ids, GameView};
use crate::movement::{destination, Movement};
use crate::position::Position;
use crate::team::Team;
use crate::unit::{health_after, UnitView};

verus! {

// The roster

/// Where ids are unique, the unit at place `i` is the one that its id names.
pub proof fn lemma_index_of(g: GameView, id: u64, i: int)
    requires
        distinct_ids(g.units),
        0 <= i < g.units.len(),
        g.units[i].entity_id == id,
    ensures
        g.has_unit(id),
        g.index_of(id) == i,
        g.unit(id) == g.units[i],
{
}

/// `count_team` counts no more units than there are, and none exactly when no
/// unit fights for the team.
pub proof fn lemma_count_team(units: Seq<UnitView>, team: Team)
    ensures
        count_team(units, team) <= units.len(),
        count_team(units, team) == 0 <==> forall|i: int|
            0 <= i < units.len() ==> (#[trigger] units[i]).team != team,
    decreases units.len(),
{
    if units.len() > 0 {
        let front = units.drop_last();
        lemma_count_team(front, team);
        if count_team(units, team) == 0 {
            assert forall|i: int| 0 <= i < units.len() implies (#[trigger] units[i]).team
                != team by {
                if i < front.len() {
                    assert(front[i] == units[i]);
                }
            }
        }
    }
}

/// A team counts no unit exactly when none of the living units fights for it.
pub proof fn lemma_team_size_zero(g: GameView, team: Team)
    ensures
        g.team_size(team) == 0 <==> !g.has_team(team),
        g.team_size(team) <= g.units.len(),
{
    lemma_count_team(g.units, team);
}

// The board and the roster agree, and stay in agreement

/// Each living unit is named by exactly one cell of the board: the one it
/// stands on.
pub proof fn lemma_one_cell_per_unit(g: GameView, i: int, x: int, y: int)
    requires
        g.consistent(),
        0 <= i < g.units.len(),
        g.on_board(x, y),
    ensures
        g.grid[x][y] == Cell::Occupied(g.units[i].entity_id) <==> (x == g.units[i].position.x && y
            == g.units[i].position.y),
{
    let u = g.units[i];
    if g.grid[x][y] == Cell::Occupied(u.entity_id) {
        let k = choose|k: int|
            0 <= k < g.units.len() && (#[trigger] g.units[k]).entity_id == u.entity_id
                && g.units[k].position.x == x && g.units[k].position.y == y;
        lemma_index_of(g, u.entity_id, k);
        lemma_index_of(g, u.entity_id, i);
    }
}

/// Each cell that names a unit names a living one, and that unit stands there.
pub proof fn lemma_occupied_cell_has_unit(g: GameView, x: int, y: int, id: u64)
    requires
        g.consistent(),
        g.on_board(x, y),
        g.grid[x][y] == Cell::Occupied(id),
    ensures
        g.has_unit(id),
        g.unit(id).position.x == x,
        g.unit(id).position.y == y,
{
    let k = choose|k: int|
        0 <= k < g.units.len() && (#[trigger] g.units[k]).entity_id == id && g.units[k].position.x
            == x && g.units[k].position.y == y;
    lemma_index_of(g, id, k);
}

/// A game whose board is that of a consistent game, and whose units have the
/// ids and positions of that game's units place by place, is consistent.
pub proof fn lemma_same_places_consistent(g: GameView, h: GameView)
    requires
        g.consistent(),
        h.grid == g.grid,
        h.units.len() == g.units.len(),
        forall|i: int|
            0 <= i < g.units.len() ==> (#[trigger] h.units[i]).entity_id == g.units[i].entity_id
                && h.units[i].position == g.units[i].position,
    ensures
        h.consistent(),
{
    assert forall|a: int, b: int| h.on_board(a, b) implies (#[trigger] h.grid[a][b] matches Cell::Occupied(
        other,
    ) ==> h.stands_at(other, a, b)) by {
        if let Cell::Occupied(other) = h.grid[a][b] {
            let k = choose|k: int|
                0 <= k < g.units.len() && (#[trigger] g.units[k]).entity_id == other
                    && g.units[k].position.x == a && g.units[k].position.y == b;
            assert(h.units[k].entity_id == other);
        }
    }
}

/// A step that succeeds leaves the board and the roster in agreement.
pub proof fn lemma_move_keeps_consistent(g: GameView, id: u64, mov: Movement)
    requires
        g.consistent(),
    ensures
        g.move_unit(id, mov) matches Ok(after) ==> after.consistent() && after.size() == g.size(),
{
    if let Ok(after) = g.move_unit(id, mov) {
        let i = g.index_of(id);
        lemma_index_of(g, id, i);
        let u = g.units[i];
        let (x, y) = destination(u.position, mov);
        let px = u.position.x as int;
        let py = u.position.y as int;
        let n = g.size();
        let cleared = with_cell(g.grid, px, py, Cell::Empty);
        lemma_with_cell(g.grid, n, px, py, Cell::Empty);
        lemma_with_cell(cleared, n, x, y, Cell::Occupied(id));
        assert forall|a: int, b: int| after.on_board(a, b) implies (
        #[trigger] after.grid[a][b] matches Cell::Occupied(other) ==> after.stands_at(other, a, b)) by {
            if let Cell::Occupied(other) = after.grid[a][b] {
                if a == x && b == y {
                    assert(after.units[i].entity_id == other);
                } else {
                    let k = choose|k: int|
                        0 <= k < g.units.len() && (#[trigger] g.units[k]).entity_id == other
                            && g.units[k].position.x == a && g.units[k].position.y == b;
                    assert(after.units[k] == g.units[k]);
                }
            }
        }
    }
}

/// Counting an action leaves the board and the roster in agreement.
pub proof fn lemma_count_action_keeps_consistent(g: GameView, id: u64)
    requires
        g.consistent(),
    ensures
        g.count_action(id).consistent(),
        g.count_action(id).size() == g.size(),
{
    if g.has_unit(id) {
        lemma_same_places_consistent(g, g.count_action(id));
    }
}

/// An attack that is carried out leaves the board and the roster in agreement.
pub proof fn lemma_attack_keeps_consistent(
    g: GameView,
    attacker: u64,
    target: u64,
    attack: AttackView,
)
    requires
        g.consistent(),
    ensures
        g.attack(attacker, target, attack) matches Ok(done) ==> done.0.consistent()
            && done.0.size() == g.size(),
{
    if let Ok((after, outcome)) = g.attack(attacker, target, attack) {
        let acted = g.count_action(attacker);
        lemma_count_action_keeps_consistent(g, attacker);
        let t = g.index_of(target);
        let victim = acted.units[t];
        if outcome == AttackOutcome::TargetKilled {
            let n = g.size();
            let vx = victim.position.x as int;
            let vy = victim.position.y as int;
            lemma_with_cell(g.grid, n, vx, vy, Cell::Empty);
            assert forall|a: int, b: int| after.on_board(a, b) implies (
            #[trigger] after.grid[a][b] matches Cell::Occupied(other) ==> after.stands_at(
                other,
                a,
                b,
            )) by {
                if let Cell::Occupied(other) = after.grid[a][b] {
                    let k = choose|k: int|
                        0 <= k < acted.units.len() && (#[trigger] acted.units[k]).entity_id == other
                            && acted.units[k].position.x == a && acted.units[k].position.y == b;
                    let k1 = if k < t { k } else { k - 1 };
                    assert(after.units[k1] == acted.units[k]);
                }
            }
        } else {
            lemma_same_places_consistent(acted, after);
        }
    }
}

// Steps

/// A step succeeds only onto a cell of the board that is empty. A step onto
/// terrain or onto another unit is refused with `CellOccupied`, and one that
/// leaves the board with `OutOfBounds`.
pub proof fn lemma_move_needs_empty_cell(g: GameView, id: u64, mov: Movement)
    requires
        g.has_unit(id),
    ensures
        ({
            let (x, y) = destination(g.unit(id).position, mov);
            &&& g.move_unit(id, mov) is Ok <==> g.on_board(x, y) && g.grid[x][y] == Cell::Empty
            &&& g.on_board(x, y) && g.grid[x][y] != Cell::Empty ==> g.move_unit(id, mov) == Err::<
                GameView,
                GameError,
            >(GameError::CellOccupied)
            &&& !g.on_board(x, y) ==> g.move_unit(id, mov) == Err::<GameView, GameError>(
                GameError::OutOfBounds,
            )
        }),
{
}

/// A step that succeeds changes two cells and one unit's position, and nothing
/// else: the unit now stands on the destination, which names it, and the cell
/// it left is empty.
pub proof fn lemma_move_changes_one_unit(g: GameView, id: u64, mov: Movement)
    requires
        g.consistent(),
        g.move_unit(id, mov) is Ok,
    ensures
        ({
            let after = g.move_unit(id, mov)->Ok_0;
            let from = g.unit(id).position;
            let (x, y) = destination(from, mov);
            &&& after.has_unit(id)
            &&& after.unit(id) == (UnitView {
                position: Position { x: x as usize, y: y as usize },
                ..g.unit(id)
            })
            &&& after.unit(id).position.x == x && after.unit(id).position.y == y
            &&& after.grid[x][y] == Cell::Occupied(id)
            &&& after.grid[from.x as int][from.y as int] == Cell::Empty
            &&& after.units.len() == g.units.len()
            &&& forall|other: u64|
                other != id ==> (after.has_unit(other) <==> g.has_unit(other)) && (g.has_unit(other)
                    ==> #[trigger] after.unit(other) == g.unit(other))
            &&& forall|a: int, b: int|
                g.on_board(a, b) && !(a == x && b == y) && !(a == from.x && b == from.y)
                    ==> #[trigger] after.grid[a][b] == g.grid[a][b]
        }),
{
    let after = g.move_unit(id, mov)->Ok_0;
    let i = g.index_of(id);
    let from = g.unit(id).position;
    let (x, y) = destination(from, mov);
    lemma_move_keeps_consistent(g, id, mov);
    lemma_index_of(after, id, i);
    let cleared = with_cell(g.grid, from.x as int, from.y as int, Cell::Empty);
    lemma_with_cell(g.grid, g.size(), from.x as int, from.y as int, Cell::Empty);
    lemma_with_cell(cleared, g.size(), x, y, Cell::Occupied(id));
    assert forall|other: u64| other != id implies (after.has_unit(other) <==> g.has_unit(other))
        && (g.has_unit(other) ==> #[trigger] after.unit(other) == g.unit(other)) by {
        if g.has_unit(other) {
            let k = g.index_of(other);
            lemma_index_of(after, other, k);
        }
    }
}

// Attacks

/// An attack is carried out exactly when both units are in the game and the
/// squared distance between them is at most the square of the attack's range:
/// a target exactly at the range is hit, and one any farther is out of range.
pub proof fn lemma_attack_range_is_inclusive(
    g: GameView,
    attacker: u64,
    target: u64,
    attack: AttackView,
)
    requires
        g.has_unit(attacker),
        g.has_unit(target),
    ensures
        ({
            let d = g.unit(attacker).position.distance_squared_to(g.unit(target).position);
            &&& d == attack.range_squared ==> g.attack(attacker, target, attack) is Ok
            &&& d <= attack.range_squared <==> g.attack(attacker, target, attack) is Ok
            &&& d > attack.range_squared <==> g.attack(attacker, target, attack) == Err::<
                (GameView, AttackOutcome),
                GameError,
            >(GameError::OutOfRange)
        }),
{
}

/// An attack that deals at least the target's health kills it: the target
/// leaves the roster and its cell is empty. One that deals less leaves the
/// target in the game with its health less the damage.
pub proof fn lemma_attack_damage(g: GameView, attacker: u64, target: u64, attack: AttackView)
    requires
        g.consistent(),
        g.attack(attacker, target, attack) is Ok,
    ensures
        ({
            let (after, outcome) = g.attack(attacker, target, attack)->Ok_0;
            let victim = g.unit(target);
            &&& health_after(victim.health, attack.damage) == 0 <==> attack.damage >= victim.health
            &&& attack.damage >= victim.health ==> {
                &&& outcome == AttackOutcome::TargetKilled
                &&& !after.has_unit(target)
                &&& after.units.len() == g.units.len() - 1
                &&& after.grid[victim.position.x as int][victim.position.y as int] == Cell::Empty
            }
            &&& attack.damage < victim.health ==> {
                &&& outcome == AttackOutcome::TargetSurvived((victim.health - attack.damage) as u64)
                &&& after.has_unit(target)
                &&& after.unit(target).health == victim.health - attack.damage
                &&& after.units.len() == g.units.len()
                &&& after.grid == g.grid
            }
        }),
{
    let (after, outcome) = g.attack(attacker, target, attack)->Ok_0;
    let t = g.index_of(target);
    lemma_index_of(g, target, t);
    lemma_count_action_keeps_consistent(g, attacker);
    lemma_attack_keeps_consistent(g, attacker, target, attack);
    let victim = g.units[t];
    if attack.damage >= victim.health {
        if after.has_unit(target) {
            let k = after.index_of(target);
            let k0 = if k < t { k } else { k + 1 };
            lemma_index_of(g, target, k0);
        }
        lemma_with_cell(g.grid, g.size(), victim.position.x as int, victim.position.y as int, Cell::Empty);
    } else {
        lemma_index_of(after, target, t);
    }
}

// Counting actions

/// Counting an action adds one to the count of the unit named and leaves every
/// other unit, and the board, as they were.
pub proof fn lemma_count_action_adds_one(g: GameView, actor: u64, id: u64)
    requires
        g.consistent(),
        g.has_unit(actor) ==> g.unit(actor).action_count < u64::MAX,
        g.has_unit(id),
    ensures
        g.count_action(actor).has_unit(id),
        g.count_action(actor).grid == g.grid,
        g.count_action(actor).unit(id) == (if id == actor {
            UnitView { action_count: (g.unit(id).action_count + 1) as u64, ..g.unit(id) }
        } else {
            g.unit(id)
        }),
{
    let after = g.count_action(actor);
    lemma_count_action_keeps_consistent(g, actor);
    let k = g.index_of(id);
    lemma_index_of(g, id, k);
    if g.has_unit(actor) {
        let m = g.index_of(actor);
        lemma_index_of(g, actor, m);
    }
    lemma_index_of(after, id, k);
}

/// A step that a unit spends its turn on costs it exactly one action and no
/// other unit any; a step alone, before it is counted, costs nothing.
pub proof fn lemma_step_counts_one_action(g: GameView, mover: u64, mov: Movement, id: u64)
    requires
        g.consistent(),
        g.step(mover, mov) is Ok,
        g.unit(mover).action_count < u64::MAX,
        g.has_unit(id),
    ensures
        g.step(mover, mov)->Ok_0.consistent(),
        g.step(mover, mov)->Ok_0.has_unit(id),
        g.step(mover, mov)->Ok_0.unit(id).action_count == g.unit(id).action_count + (if id
            == mover {
            1int
        } else {
            0int
        }),
        g.move_unit(mover, mov)->Ok_0.has_unit(id),
        g.move_unit(mover, mov)->Ok_0.unit(id).action_count == g.unit(id).action_count,
{
    let moved = g.move_unit(mover, mov)->Ok_0;
    let after = g.step(mover, mov)->Ok_0;
    lemma_move_keeps_consistent(g, mover, mov);
    lemma_count_action_keeps_consistent(moved, mover);
    let m = g.index_of(mover);
    lemma_index_of(g, mover, m);
    lemma_index_of(moved, mover, m);
    let k = g.index_of(id);
    lemma_index_of(g, id, k);
    lemma_index_of(moved, id, k);
    lemma_index_of(after, id, k);
}

/// An action costs the unit that performs it exactly one: after an attack that
/// was carried out, every unit still in the game has the count of actions it
/// had, and the attacker one more.
pub proof fn lemma_attack_counts_one_action(
    g: GameView,
    attacker: u64,
    target: u64,
    attack: AttackView,
    id: u64,
)
    requires
        g.consistent(),
        g.attack(attacker, target, attack) is Ok,
        g.unit(attacker).action_count < u64::MAX,
        g.attack(attacker, target, attack)->Ok_0.0.has_unit(id),
    ensures
        g.has_unit(id),
        g.attack(attacker, target, attack)->Ok_0.0.unit(id).action_count == g.unit(id).action_count
            + (if id == attacker {
            1int
        } else {
            0int
        }),
{
    let (after, outcome) = g.attack(attacker, target, attack)->Ok_0;
    let t = g.index_of(target);
    let a = g.index_of(attacker);
    lemma_index_of(g, target, t);
    lemma_index_of(g, attacker, a);
    lemma_count_action_keeps_consistent(g, attacker);
    lemma_attack_keeps_consistent(g, attacker, target, attack);
    let k = after.index_of(id);
    let k0 = if outcome == AttackOutcome::TargetKilled && k >= t { k + 1 } else { k };
    lemma_index_of(g, id, k0);
    lemma_index_of(after, id, k);
}

/// A unit's count of actions never goes down: whatever a step, an attack or the
/// counting of an action does, every unit still in the game has acted at least
/// as often as before.
pub proof fn lemma_action_count_never_decreases(
    g: GameView,
    actor: u64,
    mov: Movement,
    target: u64,
    attack: AttackView,
    id: u64,
)
    requires
        g.consistent(),
        g.has_unit(actor) ==> g.unit(actor).action_count < u64::MAX,
        g.has_unit(id),
    ensures
        g.move_unit(actor, mov) matches Ok(after) ==> after.unit(id).action_count == g.unit(
            id,
        ).action_count,
        g.step(actor, mov) matches Ok(after) ==> after.unit(id).action_count >= g.unit(
            id,
        ).action_count,
        g.count_action(actor).unit(id).action_count >= g.unit(id).action_count,
        g.attack(actor, target, attack) matches Ok(done) ==> (done.0.has_unit(id)
            ==> done.0.unit(id).action_count >= g.unit(id).action_count),
{
    lemma_count_action_adds_one(g, actor, id);
    if g.step(actor, mov) is Ok {
        lemma_step_counts_one_action(g, actor, mov, id);
    }
    if let Ok((after, outcome)) = g.attack(actor, target, attack) {
        if after.has_unit(id) {
            lemma_attack_counts_one_action(g, actor, target, attack, id);
        }
    }
}

// Whose turn it is

/// At most one unit of a team is the one to act next.
pub proof fn lemma_next_is_unique(g: GameView, team: Team, i: int, j: int)
    requires
        g.is_next(team, i),
        g.is_next(team, j),
    ensures
        i == j,
{
}

/// Among the units `units`, where one fights for `team`, one is the next of
/// `team` to act.
pub proof fn lemma_next_exists(g: GameView, team: Team)
    requires
        g.has_team(team),
    ensures
        exists|i: int| g.is_next(team, i),
    decreases g.units.len(),
{
    let last = g.units.len() - 1;
    let front = GameView { units: g.units.drop_last(), ..g };
    if front.has_team(team) {
        lemma_next_exists(front, team);
        let f = choose|f: int| front.is_next(team, f);
        let i = if g.units[last].team == team && g.units[last].action_count
            < front.units[f].action_count {
            last
        } else {
            f
        };
        assert forall|j: int| 0 <= j < g.units.len() && (#[trigger] g.units[j]).team
            == team implies g.units[i].action_count <= g.units[j].action_count by {
            if j < last {
                assert(front.units[j] == g.units[j]);
            }
        }
        assert forall|j: int| 0 <= j < i && (#[trigger] g.units[j]).team == team implies g.units[i].action_count
            < g.units[j].action_count by {
            assert(front.units[j] == g.units[j]);
        }
        assert(g.is_next(team, i));
    } else {
        assert forall|j: int| 0 <= j < last implies (#[trigger] g.units[j]).team != team by {
            assert(front.units[j] == g.units[j]);
        }
        assert(g.is_next(team, last));
    }
}

/// The unit to act next is a living unit of its team; no unit of the team has
/// acted less often, and those of the team that entered the game before it have
/// acted more often. A team has such a unit exactly when it has a living unit.
pub proof fn lemma_next_unit_is_least(g: GameView, team: Team)
    ensures
        g.next_unit(team) is Some <==> g.has_team(team),
        g.next_unit(team) is Some <==> g.team_size(team) > 0,
        g.next_unit(team) matches Some(u) ==> exists|i: int|
            g.is_next(team, i) && g.units[i] == u,
{
    lemma_team_size_zero(g, team);
    if g.has_team(team) {
        lemma_next_exists(g, team);
    }
}

/// A unit that has never acted goes before every unit of its team that has:
/// the first unit of a team that has not acted yet is the team's next.
pub proof fn lemma_unacted_goes_first(g: GameView, team: Team, i: int)
    requires
        0 <= i < g.units.len(),
        g.units[i].team == team,
        g.units[i].action_count == 0,
        forall|j: int|
            0 <= j < i && (#[trigger] g.units[j]).team == team ==> g.units[j].action_count > 0,
    ensures
        g.is_next(team, i),
        g.next_unit(team) == Some(g.units[i]),
{
    assert(g.is_next(team, i));
    let c = choose|c: int| g.is_next(team, c);
    lemma_next_is_unique(g, team, i, c);
}

/// A team without a unit to act has lost: the game then names a winner, and
/// where the other team still has units, it is the other team.
pub proof fn lemma_no_units_is_defeat(g: GameView, team: Team)
    requires
        g.next_unit(team) is None,
    ensures
        g.winner() is Some,
        g.has_team(team.opponent()) ==> g.winner() == Some(team.opponent()),
{
    lemma_team_size_zero(g, team);
    lemma_team_size_zero(g, team.opponent());
}

// What never changes

/// Counting an action changes no unit's id: the same units are in the game.
pub proof fn lemma_ids_after_count_action(g: GameView, actor: u64, id: u64)
    ensures
        g.count_action(actor).has_unit(id) <==> g.has_unit(id),
{
    let after = g.count_action(actor);
    if g.has_unit(actor) {
        if g.has_unit(id) {
            let k = g.index_of(id);
            assert(after.units[k].entity_id == id);
        }
    }
}

/// No unit enters a game in progress, and only a unit that an attack kills
/// leaves it: after a step every unit is still there, and after an attack every
/// unit but a killed target.
pub proof fn lemma_roster_only_shrinks_by_the_killed(
    g: GameView,
    actor: u64,
    mov: Movement,
    target: u64,
    attack: AttackView,
    id: u64,
)
    requires
        g.consistent(),
    ensures
        g.move_unit(actor, mov) matches Ok(after) ==> (after.has_unit(id) <==> g.has_unit(id)),
        g.step(actor, mov) matches Ok(after) ==> (after.has_unit(id) <==> g.has_unit(id)),
        g.count_action(actor).has_unit(id) <==> g.has_unit(id),
        g.attack(actor, target, attack) matches Ok(done) ==> (done.0.has_unit(id) <==> g.has_unit(id)
            && !(id == target && done.1 == AttackOutcome::TargetKilled)),
{
    lemma_ids_after_count_action(g, actor, id);
    if let Ok(moved) = g.move_unit(actor, mov) {
        lemma_move_keeps_consistent(g, actor, mov);
        lemma_move_changes_one_unit(g, actor, mov);
        lemma_ids_after_count_action(moved, actor, id);
        if id != actor {
            assert(g.has_unit(id) ==> moved.unit(id) == g.unit(id));
        }
    }
    if let Ok((after, outcome)) = g.attack(actor, target, attack) {
        let acted = g.count_action(actor);
        lemma_count_action_keeps_consistent(g, actor);
        let t = g.index_of(target);
        lemma_index_of(g, target, t);
        if outcome == AttackOutcome::TargetKilled {
            if after.has_unit(id) {
                let k = after.index_of(id);
                let k0 = if k < t { k } else { k + 1 };
                if id == target {
                    lemma_index_of(acted, target, k0);
                    lemma_index_of(acted, target, t);
                }
            }
            if acted.has_unit(id) && id != target {
                let k0 = acted.index_of(id);
                let k = if k0 < t { k0 } else { k0 - 1 };
                assert(after.units[k] == acted.units[k0]);
            }
        } else {
            if acted.has_unit(id) {
                let k = acted.index_of(id);
                assert(after.units[k].entity_id == id);
            }
        }
    }
}

/// Terrain is there for good: no step, no attack and no counting of an action
/// puts terrain on a cell or takes it off one.
pub proof fn lemma_terrain_is_permanent(
    g: GameView,
    actor: u64,
    mov: Movement,
    target: u64,
    attack: AttackView,
    x: int,
    y: int,
)
    requires
        g.consistent(),
        g.on_board(x, y),
    ensures
        g.move_unit(actor, mov) matches Ok(after) ==> (after.grid[x][y] == Cell::Terrain
            <==> g.grid[x][y] == Cell::Terrain),
        g.step(actor, mov) matches Ok(after) ==> (after.grid[x][y] == Cell::Terrain <==> g.grid[x][y]
            == Cell::Terrain),
        g.attack(actor, target, attack) matches Ok(done) ==> (done.0.grid[x][y] == Cell::Terrain
            <==> g.grid[x][y] == Cell::Terrain),
        g.count_action(actor).grid == g.grid,
{
    let n = g.size();
    if let Ok(after) = g.move_unit(actor, mov) {
        lemma_move_changes_one_unit(g, actor, mov);
        let from = g.unit(actor).position;
        assert(g.grid[from.x as int][from.y as int] == Cell::Occupied(actor)) by {
            lemma_index_of(g, actor, g.index_of(actor));
        }
    }
    if let Ok((after, outcome)) = g.attack(actor, target, attack) {
        let t = g.index_of(target);
        lemma_index_of(g, target, t);
        let victim = g.count_action(actor).units[t];
        if outcome == AttackOutcome::TargetKilled {
            lemma_with_cell(g.grid, n, victim.position.x as int, victim.position.y as int, Cell::Empty);
        }
    }
}

} // verus!
