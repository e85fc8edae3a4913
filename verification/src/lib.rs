//! A turn-based skirmish between two teams on a square board.
//!
//! The crate holds the rules of the game: where units stand, who acts next,
//! how a unit moves and how an attack is resolved. Everything is stated over
//! mathematical views of the data and proved against them.
//!
//! [`Game`] owns the board and the roster and keeps them in agreement.
//! [`GameView`] is the game as a mathematical value, with one function for
//! what each operation makes of it; the module `laws` proves what holds of
//! every game.

pub mod attack;
pub mod command;
pub mod dice;
pub mod errors;
pub mod game;
pub mod grid;
pub mod laws;
pub mod model;
pub mod movement;
pub mod position;
pub mod setup;
pub mod team;
pub mod turn;
pub mod unit;

pub use attack::{Attack, AttackOutcome, AttackView};
pub use command::{Command, CommandKind, CommandView};
pub use errors::{ErrorOut, GameError};
pub use game::Game;
pub use grid::{Cell, Grid};
pub use model::GameView;
pub use movement::Movement;
pub use position::Position;
pub use team::Team;
pub use turn::{Schedule, ScheduleView, TurnStart};
pub use unit::{DamageStatus, Unit, UnitView};
