//! The commands a player can give to the unit whose turn it is.

use vstd::prelude::*;
use crate::errors::ErrorOut;
use crate::game::Game;
use crate::movement::Movement;

verus! {

/// What a command does.
#[derive(Copy, Clone, Debug, PartialEq, Eq, Structural)]
pub enum CommandKind {
    /// Attack an enemy.
    Attack,
    /// Step to a neighbouring cell.
    Move,
    /// Show the unit's health.
    Health,
    /// Show the unit's position.
    Position,
    /// End the turn without acting.
    End,
    /// Show the commands.
    Help,
}

/// A command as the player knows it: the word to type and a line of help.
#[derive(Debug)]
pub struct Command {
    cmd: String,
    help: String,
    kind: CommandKind,
}

/// A command as a mathematical value.
pub struct CommandView {
    pub cmd: Seq<char>,
    pub help: Seq<char>,
    pub kind: CommandKind,
}

impl View for Command {
    type V = CommandView;

    closed spec fn view(&self) -> CommandView {
        CommandView { cmd: self.cmd@, help: self.help@, kind: self.kind }
    }
}

/// The commands as mathematical values, in their order.
pub open spec fn command_views(commands: Seq<Command>) -> Seq<CommandView> {
    commands.map_values(|c: Command| c@)
}

/// The commands of the game, in the order in which help shows them.
pub open spec fn registry() -> Seq<CommandView> {
    seq![
        CommandView { cmd: "attack"@, help: "Attack an enemy"@, kind: CommandKind::Attack },
        CommandView { cmd: "move"@, help: "Move to a new position"@, kind: CommandKind::Move },
        CommandView {
            cmd: "health"@,
            help: "Shows the health of your unit"@,
            kind: CommandKind::Health,
        },
        CommandView {
            cmd: "position"@,
            help: "Shows the position of your unit"@,
            kind: CommandKind::Position,
        },
        CommandView { cmd: "end"@, help: "End your unit's turn"@, kind: CommandKind::End },
        CommandView { cmd: "help"@, help: "Shows all of the commands"@, kind: CommandKind::Help },
    ]
}

/// Whether the command at place `i` is the first of `commands` that goes by
/// the word `token`.
pub open spec fn is_first_match(commands: Seq<CommandView>, token: Seq<char>, i: int) -> bool {
    &&& 0 <= i < commands.len()
    &&& commands[i].cmd == token
    &&& forall|j: int| 0 <= j < i ==> (#[trigger] commands[j]).cmd != token
}

/// Whether one of `commands` goes by the word `token`.
pub open spec fn is_known(commands: Seq<CommandView>, token: Seq<char>) -> bool {
    exists|i: int| 0 <= i < commands.len() && (#[trigger] commands[i]).cmd == token
}

/// How a command of kind `kind` ends: an action that was carried out ends the
/// turn, and so does ending it; an action that was refused has failed; a
/// command that only informs leaves the turn open.
pub open spec fn status_of(kind: CommandKind, carried_out: bool) -> ErrorOut {
    match kind {
        CommandKind::Attack | CommandKind::Move => if carried_out {
            ErrorOut::Success
        } else {
            ErrorOut::FailedGeneric
        },
        CommandKind::End => ErrorOut::Success,
        CommandKind::Health | CommandKind::Position | CommandKind::Help => ErrorOut::SuccessIncomplete,
    }
}

/// The place in a list of `count` entries that the player's choice `choice`
/// names, where the player counts from one.
pub open spec fn chosen(choice: usize, count: usize) -> Option<usize> {
    if 1 <= choice <= count {
        Some((choice - 1) as usize)
    } else {
        None
    }
}

impl Clone for Command {
    fn clone(&self) -> (c: Command)
        ensures
            c@ == self@,
    {
        Command { cmd: self.cmd.clone(), help: self.help.clone(), kind: self.kind }
    }
}

impl Command {
    /// Creates a command.
    pub fn new(cmd: String, help: String, kind: CommandKind) -> (c: Command)
        ensures
            c@ == (CommandView { cmd: cmd@, help: help@, kind }),
    {
        Command { cmd, help, kind }
    }

    /// Returns a copy of the word to type.
    pub fn cmd(&self) -> (s: String)
        ensures
            s@ == self@.cmd,
    {
        self.cmd.clone()
    }

    /// Returns a copy of the line of help.
    pub fn help(&self) -> (s: String)
        ensures
            s@ == self@.help,
    {
        self.help.clone()
    }

    /// Returns what the command does.
    pub fn kind(&self) -> (k: CommandKind)
        ensures
            k == self@.kind,
    {
        self.kind
    }
}

impl CommandKind {
    /// Returns how a command of this kind ends, given whether its action was
    /// carried out.
    pub fn status(self, carried_out: bool) -> (status: ErrorOut)
        ensures
            status == status_of(self, carried_out),
    {
        match self {
            CommandKind::Attack | CommandKind::Move => {
                if carried_out {
                    ErrorOut::Success
                } else {
                    ErrorOut::FailedGeneric
                }
            },
            CommandKind::End => ErrorOut::Success,
            _ => ErrorOut::SuccessIncomplete,
        }
    }
}

impl Movement {
    /// Returns the direction that the player's choice names: one for up, two for
    /// down, three for left, four for right.
    pub fn from_choice(choice: usize) -> (mov: Option<Movement>)
        ensures
            mov == (if choice == 1 {
                Some(Movement::Up)
            } else if choice == 2 {
                Some(Movement::Down)
            } else if choice == 3 {
                Some(Movement::Left)
            } else if choice == 4 {
                Some(Movement::Right)
            } else {
                None
            }),
    {
        match pick(choice, 4) {
            Some(0) => Some(Movement::Up),
            Some(1) => Some(Movement::Down),
            Some(2) => Some(Movement::Left),
            Some(3) => Some(Movement::Right),
            _ => None,
        }
    }
}

/// Returns the place in a list of `count` entries that the player's choice
/// names, where the player counts from one; `None` where the list has no such
/// entry.
pub fn pick(choice: usize, count: usize) -> (place: Option<usize>)
    ensures
        place == chosen(choice, count),
{
    if choice >= 1 && choice <= count {
        Some(choice - 1)
    } else {
        None
    }
}

/// Returns what the first of `commands` that goes by the word `token` does.
/// Where none goes by it, the word ends as a command that was not found.
pub fn find_command(commands: &Vec<Command>, token: &str) -> (r: Result<CommandKind, ErrorOut>)
    ensures
        match r {
            Ok(kind) => exists|i: int|
                is_first_match(command_views(commands@), token@, i) && kind
                    == (#[trigger] commands[i])@.kind,
            Err(status) => !is_known(command_views(commands@), token@) && status
                == ErrorOut::NotFound,
        },
{
    let word = token.to_owned();
    let ghost all = command_views(commands@);
    let mut i: usize = 0;
    while i < commands.len()
        invariant
            i <= commands.len(),
            word@ == token@,
            all == command_views(commands@),
            forall|j: int| 0 <= j < i ==> (#[trigger] all[j]).cmd != token@,
        decreases commands.len() - i,
    {
        if commands[i].cmd == word {
            return Ok(commands[i].kind);
        }
        i += 1;
    }
    Err(ErrorOut::NotFound)
}

impl Game {
    /// Returns the commands of the game, in the order in which help shows them.
    pub fn commands(&self) -> (commands: Vec<Command>)
        ensures
            command_views(commands@) == registry(),
    {
        let mut commands: Vec<Command> = Vec::new();
        commands.push(
            Command::new("attack".to_owned(), "Attack an enemy".to_owned(), CommandKind::Attack),
        );
        commands.push(
            Command::new("move".to_owned(), "Move to a new position".to_owned(), CommandKind::Move),
        );
        commands.push(
            Command::new(
                "health".to_owned(),
                "Shows the health of your unit".to_owned(),
                CommandKind::Health,
            ),
        );
        commands.push(
            Command::new(
                "position".to_owned(),
                "Shows the position of your unit".to_owned(),
                CommandKind::Position,
            ),
        );
        commands.push(
            Command::new("end".to_owned(), "End your unit's turn".to_owned(), CommandKind::End),
        );
        commands.push(
            Command::new("help".to_owned(), "Shows all of the commands".to_owned(), CommandKind::Help),
        );
        commands
    }
}

} // verus!
