use skirmish::command::{find_command, pick, Command, CommandKind};
use skirmish::dice::{initiative_from, seize_initiative};
use skirmish::errors::ErrorOut;
use skirmish::game::Game;
use skirmish::movement::Movement;
use skirmish::position::Position;
use skirmish::team::Team;
use skirmish::turn::{Schedule, TurnStart};
use skirmish::unit::Unit;

fn soldier(id: u64, team: Team, x: usize, y: usize) -> Unit {
    Unit::new(format!("unit {}", id), id, team, 40, vec![], Position::new(x, y))
}

fn registry() -> Vec<Command> {
    Game::new(0, vec![], vec![]).unwrap().commands()
}

#[test]
fn commands_lists_the_six_commands() {
    let commands = registry();
    let want = [
        ("attack", "Attack an enemy", CommandKind::Attack),
        ("move", "Move to a new position", CommandKind::Move),
        ("health", "Shows the health of your unit", CommandKind::Health),
        ("position", "Shows the position of your unit", CommandKind::Position),
        ("end", "End your unit's turn", CommandKind::End),
        ("help", "Shows all of the commands", CommandKind::Help),
    ];
    assert_eq!(commands.len(), want.len());
    for (c, (cmd, help, kind)) in commands.iter().zip(want) {
        assert_eq!(c.cmd(), cmd);
        assert_eq!(c.help(), help);
        assert_eq!(c.kind(), kind);
    }
}

#[test]
fn command_clone_is_equal_in_every_part() {
    let c = Command::new("wait".to_string(), "Do nothing".to_string(), CommandKind::End);
    let d = c.clone();
    assert_eq!(d.cmd(), "wait");
    assert_eq!(d.help(), "Do nothing");
    assert_eq!(d.kind(), CommandKind::End);
}

#[test]
fn find_command_knows_each_word() {
    let commands = registry();
    assert_eq!(find_command(&commands, "attack"), Ok(CommandKind::Attack));
    assert_eq!(find_command(&commands, "move"), Ok(CommandKind::Move));
    assert_eq!(find_command(&commands, "health"), Ok(CommandKind::Health));
    assert_eq!(find_command(&commands, "position"), Ok(CommandKind::Position));
    assert_eq!(find_command(&commands, "end"), Ok(CommandKind::End));
    assert_eq!(find_command(&commands, "help"), Ok(CommandKind::Help));
}

#[test]
fn find_command_does_not_find_other_words() {
    let commands = registry();
    assert_eq!(find_command(&commands, "dance"), Err(ErrorOut::NotFound));
    assert_eq!(find_command(&commands, ""), Err(ErrorOut::NotFound));
    assert_eq!(find_command(&commands, "Move"), Err(ErrorOut::NotFound));
    assert_eq!(find_command(&commands, "move "), Err(ErrorOut::NotFound));
    assert_eq!(find_command(&Vec::new(), "move"), Err(ErrorOut::NotFound));
}

#[test]
fn find_command_takes_the_first_of_two() {
    let commands = vec![
        Command::new("go".to_string(), "first".to_string(), CommandKind::Move),
        Command::new("go".to_string(), "second".to_string(), CommandKind::End),
    ];
    assert_eq!(find_command(&commands, "go"), Ok(CommandKind::Move));
}

#[test]
fn status_of_each_kind_of_command() {
    assert_eq!(CommandKind::Attack.status(true), ErrorOut::Success);
    assert_eq!(CommandKind::Attack.status(false), ErrorOut::FailedGeneric);
    assert_eq!(CommandKind::Move.status(true), ErrorOut::Success);
    assert_eq!(CommandKind::Move.status(false), ErrorOut::FailedGeneric);
    assert_eq!(CommandKind::End.status(true), ErrorOut::Success);
    assert_eq!(CommandKind::End.status(false), ErrorOut::Success);
    for kind in [CommandKind::Health, CommandKind::Position, CommandKind::Help] {
        assert_eq!(kind.status(true), ErrorOut::SuccessIncomplete);
        assert_eq!(kind.status(false), ErrorOut::SuccessIncomplete);
    }
}

#[test]
fn pick_counts_from_one() {
    assert_eq!(pick(1, 3), Some(0));
    assert_eq!(pick(3, 3), Some(2));
    assert_eq!(pick(0, 3), None);
    assert_eq!(pick(4, 3), None);
    assert_eq!(pick(1, 0), None);
    assert_eq!(pick(usize::MAX, usize::MAX), Some(usize::MAX - 1));
}

#[test]
fn movement_from_choice() {
    assert_eq!(Movement::from_choice(1), Some(Movement::Up));
    assert_eq!(Movement::from_choice(2), Some(Movement::Down));
    assert_eq!(Movement::from_choice(3), Some(Movement::Left));
    assert_eq!(Movement::from_choice(4), Some(Movement::Right));
    assert_eq!(Movement::from_choice(0), None);
    assert_eq!(Movement::from_choice(5), None);
}

#[test]
fn initiative_follows_the_coin() {
    assert_eq!(initiative_from(true), Team::Bluefor);
    assert_eq!(initiative_from(false), Team::Redfor);
}

#[test]
fn seize_initiative_names_a_team() {
    let mut red = 0;
    let mut blue = 0;
    for _ in 0..400 {
        match seize_initiative() {
            Team::Redfor => red += 1,
            Team::Bluefor => blue += 1,
        }
    }
    assert_eq!(red + blue, 400);
    // Four hundred tosses of an honest coin show both sides.
    assert!(red > 0);
    assert!(blue > 0);
}

#[test]
fn schedule_alternates_and_starts_each_round_with_the_first_team() {
    let mut s = Schedule::new(Team::Bluefor, 3);
    let mut seen = Vec::new();
    for _ in 0..7 {
        seen.push((s.team(), s.at_top()));
        s.advance();
    }
    assert_eq!(
        seen,
        vec![
            (Team::Bluefor, true),
            (Team::Redfor, false),
            (Team::Bluefor, false),
            (Team::Bluefor, true),
            (Team::Redfor, false),
            (Team::Bluefor, false),
            (Team::Bluefor, true),
        ]
    );
}

#[test]
fn schedule_of_rounds_of_one_turn_or_none() {
    let mut s = Schedule::new(Team::Redfor, 1);
    s.advance();
    assert!(s.at_top());
    assert_eq!(s.team(), Team::Redfor);
    let mut s = Schedule::new(Team::Redfor, 0);
    s.advance();
    assert!(s.at_top());
    assert_eq!(s.team(), Team::Redfor);
}

#[test]
fn start_turn_hands_out_the_next_unit() {
    let mut game = Game::new(
        4,
        vec![soldier(1, Team::Redfor, 0, 0), soldier(2, Team::Redfor, 0, 1), soldier(3, Team::Bluefor, 3, 3)],
        vec![],
    )
    .unwrap();
    match game.start_turn(Team::Redfor) {
        TurnStart::Act(u) => assert_eq!(u.entity_id(), 1),
        TurnStart::Over(_) => panic!("the game is not over"),
    }
    game.incr_unit_action(1);
    match game.start_turn(Team::Redfor) {
        TurnStart::Act(u) => assert_eq!(u.entity_id(), 2),
        TurnStart::Over(_) => panic!("the game is not over"),
    }
    match game.start_turn(Team::Bluefor) {
        TurnStart::Act(u) => assert_eq!(u.entity_id(), 3),
        TurnStart::Over(_) => panic!("the game is not over"),
    }
}

#[test]
fn start_turn_names_the_winner() {
    let game = Game::new(4, vec![soldier(1, Team::Redfor, 0, 0)], vec![]).unwrap();
    for team in [Team::Redfor, Team::Bluefor] {
        match game.start_turn(team) {
            TurnStart::Over(w) => assert_eq!(w, Team::Redfor),
            TurnStart::Act(_) => panic!("the game is over"),
        }
    }
    let game = Game::new(4, vec![soldier(1, Team::Bluefor, 0, 0)], vec![]).unwrap();
    match game.start_turn(Team::Redfor) {
        TurnStart::Over(w) => assert_eq!(w, Team::Bluefor),
        TurnStart::Act(_) => panic!("the game is over"),
    }
}
