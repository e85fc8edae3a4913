use skirmish::attack::{Attack, AttackOutcome};
use skirmish::errors::{ErrorOut, GameError};
use skirmish::grid::{Cell, Grid};
use skirmish::movement::Movement;
use skirmish::position::Position;
use skirmish::team::Team;
use skirmish::unit::{DamageStatus, Unit, DEFAULT_HEALTH};

fn soldier(id: u64, team: Team, health: u64, x: usize, y: usize) -> Unit {
    Unit::new(format!("unit {}", id), id, team, health, vec![], Position::new(x, y))
}

#[test]
fn other_team_swaps_the_sides() {
    assert_eq!(Team::Redfor.other_team(), Team::Bluefor);
    assert_eq!(Team::Bluefor.other_team(), Team::Redfor);
}

#[test]
fn other_team_twice_is_the_team_itself() {
    assert_eq!(Team::Redfor.other_team().other_team(), Team::Redfor);
    assert_eq!(Team::Bluefor.other_team().other_team(), Team::Bluefor);
}

#[test]
fn team_labels() {
    assert_eq!(Team::Redfor.label(), "Redfor");
    assert_eq!(Team::Bluefor.label(), "Bluefor");
}

#[test]
fn position_holds_its_coordinates() {
    let p = Position::new(3, 7);
    assert_eq!(p.x(), 3);
    assert_eq!(p.y(), 7);
    assert_eq!(p, Position { x: 3, y: 7 });
}

#[test]
fn position_update_replaces_both_coordinates() {
    let mut p = Position::new(3, 7);
    p.update(1, 2);
    assert_eq!(p.x(), 1);
    assert_eq!(p.y(), 2);
    assert_eq!(p, Position::new(1, 2));
}

#[test]
fn position_equality_is_by_coordinates() {
    assert_eq!(Position::new(1, 2), Position::new(1, 2));
    assert_ne!(Position::new(1, 2), Position::new(2, 1));
}

#[test]
fn distance_squared_of_a_three_four_five_triangle() {
    let a = Position::new(1, 1);
    let b = Position::new(4, 5);
    assert_eq!(a.distance_squared(b), Some(25));
    assert_eq!(b.distance_squared(a), Some(25));
}

#[test]
fn distance_squared_to_itself_is_zero() {
    let a = Position::new(9, 2);
    assert_eq!(a.distance_squared(a), Some(0));
}

#[test]
fn distance_squared_along_a_row() {
    assert_eq!(Position::new(0, 0).distance_squared(Position::new(0, 10)), Some(100));
    assert_eq!(Position::new(0, 0).distance_squared(Position::new(1, 1)), Some(2));
}

#[test]
fn distance_squared_beyond_what_can_be_held() {
    let a = Position::new(0, 0);
    let b = Position::new(usize::MAX, usize::MAX);
    if usize::BITS == 64 {
        assert_eq!(a.distance_squared(b), None);
        assert!(!a.is_within(b, u64::MAX));
    } else {
        let d = (usize::MAX as u128) * (usize::MAX as u128) * 2;
        assert_eq!(a.distance_squared(b), Some(d));
    }
}

#[test]
fn distance_squared_of_one_large_side() {
    let a = Position::new(0, 5);
    let b = Position::new(usize::MAX, 5);
    let side = usize::MAX as u128;
    assert_eq!(a.distance_squared(b), Some(side * side));
}

#[test]
fn is_within_includes_the_boundary() {
    let a = Position::new(0, 0);
    assert!(a.is_within(Position::new(0, 10), 100));
    assert!(a.is_within(Position::new(6, 8), 100));
    assert!(!a.is_within(Position::new(7, 8), 100));
    assert!(!a.is_within(Position::new(0, 11), 100));
}

#[test]
fn is_within_a_range_between_whole_numbers() {
    // A range of one and a half cells: its square, rounded down, is 2.
    let a = Position::new(5, 5);
    assert!(a.is_within(Position::new(5, 6), 2));
    assert!(a.is_within(Position::new(6, 6), 2));
    assert!(!a.is_within(Position::new(5, 7), 2));
}

#[test]
fn is_within_range_zero_is_the_cell_itself() {
    let a = Position::new(2, 2);
    assert!(a.is_within(a, 0));
    assert!(!a.is_within(Position::new(2, 3), 0));
}

#[test]
fn attack_holds_what_it_was_made_of() {
    let a = Attack::new("Fight".to_string(), 50, 1);
    assert_eq!(a.name(), "Fight");
    assert_eq!(a.damage(), 50);
    assert_eq!(a.range_squared(), 1);
}

#[test]
fn attack_clone_is_equal_in_every_part() {
    let a = Attack::new("Shoot".to_string(), 30, 100);
    let b = a.clone();
    assert_eq!(b.name(), "Shoot");
    assert_eq!(b.damage(), 30);
    assert_eq!(b.range_squared(), 100);
}

#[test]
fn unit_new_has_not_acted() {
    let attacks = vec![Attack::new("Poke".to_string(), 1, 4)];
    let u = Unit::new("Ann".to_string(), 7, Team::Redfor, 12, attacks, Position::new(2, 3));
    assert_eq!(u.name(), "Ann");
    assert_eq!(u.entity_id(), 7);
    assert_eq!(u.team(), Team::Redfor);
    assert_eq!(u.health(), 12);
    assert_eq!(u.position(), Position::new(2, 3));
    assert_eq!(u.action_count(), 0);
    let a = u.attacks();
    assert_eq!(a.len(), 1);
    assert_eq!(a[0].name(), "Poke");
    assert_eq!(a[0].damage(), 1);
    assert_eq!(a[0].range_squared(), 4);
}

#[test]
fn unit_new_default_has_the_standard_health_and_attacks() {
    let u = Unit::new_default("Bob".to_string(), 1, Team::Bluefor, Position::new(0, 0));
    assert_eq!(DEFAULT_HEALTH, 100);
    assert_eq!(u.health(), 100);
    assert_eq!(u.action_count(), 0);
    assert_eq!(u.team(), Team::Bluefor);
    assert_eq!(u.entity_id(), 1);
    assert_eq!(u.name(), "Bob");
    let a = u.attacks();
    assert_eq!(a.len(), 2);
    assert_eq!(a[0].name(), "Fight");
    assert_eq!(a[0].damage(), 50);
    assert_eq!(a[0].range_squared(), 1);
    assert_eq!(a[1].name(), "Shoot");
    assert_eq!(a[1].damage(), 30);
    assert_eq!(a[1].range_squared(), 100);
}

#[test]
fn unit_clone_is_equal_in_every_part() {
    let mut u = Unit::new_default("Bob".to_string(), 1, Team::Bluefor, Position::new(4, 5));
    u.inc_action_count();
    u.deal_damage(10);
    let c = u.clone();
    assert_eq!(c.name(), "Bob");
    assert_eq!(c.entity_id(), 1);
    assert_eq!(c.team(), Team::Bluefor);
    assert_eq!(c.health(), 90);
    assert_eq!(c.position(), Position::new(4, 5));
    assert_eq!(c.action_count(), 1);
    assert_eq!(c.attacks().len(), 2);
}

#[test]
fn deal_damage_below_health_leaves_the_difference() {
    let mut u = soldier(1, Team::Redfor, 100, 0, 0);
    assert_eq!(u.deal_damage(30), DamageStatus::Alive);
    assert_eq!(u.health(), 70);
    assert_eq!(u.deal_damage(69), DamageStatus::Alive);
    assert_eq!(u.health(), 1);
}

#[test]
fn deal_damage_equal_to_health_kills() {
    let mut u = soldier(1, Team::Redfor, 100, 0, 0);
    assert_eq!(u.deal_damage(100), DamageStatus::Dead);
    assert_eq!(u.health(), 0);
}

#[test]
fn deal_damage_above_health_stops_at_zero() {
    let mut u = soldier(1, Team::Redfor, 5, 0, 0);
    assert_eq!(u.deal_damage(u64::MAX), DamageStatus::Dead);
    assert_eq!(u.health(), 0);
}

#[test]
fn deal_no_damage_changes_nothing() {
    let mut u = soldier(1, Team::Redfor, 5, 0, 0);
    assert_eq!(u.deal_damage(0), DamageStatus::Alive);
    assert_eq!(u.health(), 5);
}

#[test]
fn deal_damage_changes_the_health_only() {
    let mut u = Unit::new_default("Bob".to_string(), 9, Team::Bluefor, Position::new(4, 5));
    u.deal_damage(1);
    assert_eq!(u.name(), "Bob");
    assert_eq!(u.entity_id(), 9);
    assert_eq!(u.team(), Team::Bluefor);
    assert_eq!(u.position(), Position::new(4, 5));
    assert_eq!(u.action_count(), 0);
    assert_eq!(u.attacks().len(), 2);
}

#[test]
fn inc_action_count_adds_one() {
    let mut u = soldier(1, Team::Redfor, 5, 0, 0);
    u.inc_action_count();
    assert_eq!(u.action_count(), 1);
    u.inc_action_count();
    u.inc_action_count();
    assert_eq!(u.action_count(), 3);
    assert_eq!(u.health(), 5);
}

#[test]
fn unit_move_unit_changes_the_position_only() {
    let mut u = soldier(1, Team::Redfor, 5, 0, 0);
    u.move_unit(Position::new(3, 4));
    assert_eq!(u.position(), Position::new(3, 4));
    assert_eq!(u.health(), 5);
    assert_eq!(u.action_count(), 0);
    assert_eq!(u.entity_id(), 1);
}

#[test]
fn grid_new_is_empty() {
    let g = Grid::new(3).unwrap();
    assert_eq!(g.size(), 3);
    for x in 0..3 {
        for y in 0..3 {
            assert_eq!(g.get(x, y), Some(Cell::Empty));
        }
    }
}

#[test]
fn grid_of_no_cells() {
    let g = Grid::new(0).unwrap();
    assert_eq!(g.size(), 0);
    assert_eq!(g.get(0, 0), None);
}

#[test]
fn grid_too_large_to_be_held() {
    assert!(Grid::new(usize::MAX).is_none());
}

#[test]
fn grid_get_off_the_board_is_none() {
    let g = Grid::new(3).unwrap();
    assert_eq!(g.get(3, 0), None);
    assert_eq!(g.get(0, 3), None);
    assert_eq!(g.get(usize::MAX, usize::MAX), None);
}

#[test]
fn grid_set_changes_one_cell() {
    let mut g = Grid::new(3).unwrap();
    assert!(g.set(1, 2, Cell::Terrain));
    assert!(g.set(2, 1, Cell::Occupied(9)));
    for x in 0..3 {
        for y in 0..3 {
            let want = if (x, y) == (1, 2) {
                Cell::Terrain
            } else if (x, y) == (2, 1) {
                Cell::Occupied(9)
            } else {
                Cell::Empty
            };
            assert_eq!(g.get(x, y), Some(want));
        }
    }
}

#[test]
fn grid_set_off_the_board_changes_nothing() {
    let mut g = Grid::new(2).unwrap();
    assert!(!g.set(2, 0, Cell::Terrain));
    assert!(!g.set(0, 2, Cell::Terrain));
    for x in 0..2 {
        for y in 0..2 {
            assert_eq!(g.get(x, y), Some(Cell::Empty));
        }
    }
}

#[test]
fn movement_apply_steps_one_cell() {
    let p = Position::new(2, 2);
    assert_eq!(Movement::Up.apply(p, 5), Some(Position::new(3, 2)));
    assert_eq!(Movement::Down.apply(p, 5), Some(Position::new(1, 2)));
    assert_eq!(Movement::Left.apply(p, 5), Some(Position::new(2, 1)));
    assert_eq!(Movement::Right.apply(p, 5), Some(Position::new(2, 3)));
}

#[test]
fn movement_apply_stops_at_the_edges() {
    assert_eq!(Movement::Down.apply(Position::new(0, 2), 5), None);
    assert_eq!(Movement::Left.apply(Position::new(2, 0), 5), None);
    assert_eq!(Movement::Up.apply(Position::new(4, 2), 5), None);
    assert_eq!(Movement::Right.apply(Position::new(2, 4), 5), None);
    assert_eq!(Movement::Up.apply(Position::new(usize::MAX, 0), usize::MAX), None);
    assert_eq!(Movement::Up.apply(Position::new(0, 9), 5), None);
}

#[test]
fn error_messages() {
    assert_eq!(GameError::OutOfRange.message(), "Target out of range");
    assert_eq!(GameError::UnitNotFound.message(), "No unit with that ID found");
    assert_eq!(GameError::OutOfBounds.message(), "Position is off the grid");
    assert_eq!(GameError::CellOccupied.message(), "Cell is already occupied");
    assert_eq!(GameError::NoUnitsAvailable.message(), "No units available");
}

#[test]
fn only_success_ends_the_turn() {
    assert!(ErrorOut::Success.ends_turn());
    assert!(!ErrorOut::SuccessIncomplete.ends_turn());
    assert!(!ErrorOut::NotFound.ends_turn());
    assert!(!ErrorOut::FailedGeneric.ends_turn());
}

#[test]
fn attack_outcomes_differ() {
    assert_ne!(AttackOutcome::TargetKilled, AttackOutcome::TargetSurvived(1));
    assert_eq!(AttackOutcome::TargetSurvived(3), AttackOutcome::TargetSurvived(3));
}
