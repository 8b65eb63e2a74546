//! One client's game: its maze, where its avatar stands, and what the
//! server answers to each line that the client sends.

use std::str::FromStr;
use vstd::prelude::*;
use vstd::std_specs::convert::FromSpecImpl;
use crate::command::command_of_token;
use crate::command::is_reading_of;
use crate::command::lemma_empty_token_is_refresh;
use crate::command::Command;
use crate::maze::Maze;
use crate::maze::MazeError;
use crate::maze::MazeModel;
use crate::maze_format::maze_of_text;
use crate::std_specs::lowercase_of;
use crate::viewport::interface_text;
use crate::viewport::render;
use crate::viewport::render_interface;
use crate::viewport::view_text;

verus! {

/// What can go wrong while a client is served.
#[derive(Debug)]
pub enum ClientConnectionError {
    /// The stream failed.
    Io(std::io::Error),
    /// The maze could not be built.
    Maze(MazeError),
    /// The client sent something that is no command; the payload is what
    /// it sent, in lower case.
    CommandParseError(String),
}

impl From<std::io::Error> for ClientConnectionError {
    fn from(e: std::io::Error) -> (r: ClientConnectionError)
        ensures
            r == ClientConnectionError::Io(e),
    {
        ClientConnectionError::Io(e)
    }
}

impl FromSpecImpl<std::io::Error> for ClientConnectionError {
    open spec fn obeys_from_spec() -> bool {
        true
    }

    open spec fn from_spec(e: std::io::Error) -> ClientConnectionError {
        ClientConnectionError::Io(e)
    }
}

impl ClientConnectionError {
    /// Whether `text` is the message of this error. The text of a stream
    /// failure is the operating system's, so only its beginning is fixed.
    pub open spec fn has_message(self, text: Seq<char>) -> bool {
        match self {
            ClientConnectionError::Io(_) => "io error: "@.is_prefix_of(text),
            ClientConnectionError::Maze(e) => text == "maze error: "@ + e.message_text(),
            ClientConnectionError::CommandParseError(offending) => text == "unknown command: "@
                + offending@,
        }
    }

    /// The error as a line for a person to read.
    pub fn message(&self) -> (text: String)
        ensures
            self.has_message(text@),
    {
        match self {
            ClientConnectionError::Io(e) => {
                let mut text = "io error: ".to_owned();
                let cause: String = e.to_string();
                text.append(cause.as_str());
                text
            },
            ClientConnectionError::Maze(e) => {
                let mut text = "maze error: ".to_owned();
                let cause: String = e.message();
                text.append(cause.as_str());
                text
            },
            ClientConnectionError::CommandParseError(offending) => {
                let mut text = "unknown command: ".to_owned();
                text.append(offending.as_str());
                text
            },
        }
    }
}

/// Where the avatar stands when a game begins.
pub const START_POSITION: (isize, isize) = (1, 1);

/// How far the avatar sees.
pub const VIEW_RADIUS: usize = 6;

/// Whether the avatar may step onto `(x, y)`: the grid has a cell there
/// and it is no wall.
pub open spec fn can_enter(maze: MazeModel, x: int, y: int) -> bool {
    maze.in_bounds(x, y) && match maze.cell_at(x, y) {
        Some(cell) => cell.traversable(),
        None => false,
    }
}

/// A line without the line feed at its end, if it has one.
pub open spec fn without_newline(line: Seq<char>) -> Seq<char> {
    if line.len() > 0 && line.last() == '\n' {
        line.drop_last()
    } else {
        line
    }
}

/// The token that a line is read as: the line without its line feed, in
/// lower case.
pub open spec fn token_of_line(line: Seq<char>) -> Seq<char> {
    lowercase_of(without_newline(line))
}

/// One client's game as mathematics.
pub ghost struct ClientConnectionModel {
    pub maze: MazeModel,
    pub position: (int, int),
    pub view_radius: int,
}

impl ClientConnectionModel {
    /// The game after an attempt to move by `(dx, dy)`: the avatar stands
    /// on the target if it may step onto it, and where it stood if not.
    pub open spec fn after_move(self, dx: int, dy: int) -> ClientConnectionModel {
        let x = self.position.0 + dx;
        let y = self.position.1 + dy;
        if can_enter(self.maze, x, y) {
            ClientConnectionModel { position: (x, y), ..self }
        } else {
            self
        }
    }

    /// The game after a command: a refresh changes nothing, a direction
    /// is an attempt to move by its step.
    pub open spec fn after(self, command: Command) -> ClientConnectionModel {
        match command {
            Command::Refresh => self,
            _ => self.after_move(command.delta().0, command.delta().1),
        }
    }

    /// The screen that shows this game.
    pub open spec fn interface(self) -> Seq<char> {
        interface_text(self.maze, self.position, self.view_radius)
    }

    /// The game after the client sent the token `token`, in lower case.
    pub open spec fn after_token(self, token: Seq<char>) -> ClientConnectionModel {
        match command_of_token(token) {
            Some(command) => self.after(command),
            None => self,
        }
    }

    /// The answer to the token `token`, in lower case: for a command an
    /// empty line and the screen of the game after it, for anything else
    /// one line that names the token.
    pub open spec fn reply_to_token(self, token: Seq<char>) -> Seq<char> {
        match command_of_token(token) {
            Some(command) => "\n"@ + self.after(command).interface(),
            None => "unknown command: "@ + token + "\n"@,
        }
    }
}

/// A command ends on the target of its step or where it began, never
/// anywhere else: on the target iff the avatar may enter it. The maze and
/// the radius stay as they are.
pub proof fn lemma_move_is_step_or_stay(game: ClientConnectionModel, command: Command)
    ensures
        ({
            let x = game.position.0 + command.delta().0;
            let y = game.position.1 + command.delta().1;
            let next = game.after(command);
            &&& next.maze == game.maze
            &&& next.view_radius == game.view_radius
            &&& can_enter(game.maze, x, y) ==> next.position == (x, y)
            &&& !can_enter(game.maze, x, y) ==> next.position == game.position
        }),
{
}

/// An avatar that stands on a cell it may enter still does so after any
/// command: a move is committed only onto such a cell.
pub proof fn lemma_avatar_stays_on_floor(game: ClientConnectionModel, command: Command)
    requires
        can_enter(game.maze, game.position.0, game.position.1),
    ensures
        can_enter(
            game.after(command).maze,
            game.after(command).position.0,
            game.after(command).position.1,
        ),
{
}

/// A refresh changes nothing, and its answer is the screen as it was.
pub proof fn lemma_refresh_keeps_game(game: ClientConnectionModel)
    ensures
        game.after(Command::Refresh) == game,
        command_of_token(Seq::<char>::empty()) == Some(Command::Refresh),
        game.after_token(Seq::<char>::empty()) == game,
        game.reply_to_token(Seq::<char>::empty()) == "\n"@ + game.interface(),
{
    lemma_empty_token_is_refresh();
}

/// One client's game: a maze of its own, the place of its avatar and how
/// far the avatar sees.
pub struct ClientConnection {
    maze: Maze,
    current_position: (isize, isize),
    view_radius: usize,
}

impl View for ClientConnection {
    type V = ClientConnectionModel;

    closed spec fn view(&self) -> ClientConnectionModel {
        ClientConnectionModel {
            maze: self.maze@,
            position: (self.current_position.0 as int, self.current_position.1 as int),
            view_radius: self.view_radius as int,
        }
    }
}

impl ClientConnection {
    /// What the server writes before it waits for a line.
    pub const PROMPT: &'static str = "> ";

    /// A new game in the maze that `maze_text` describes. A text that is
    /// no maze is refused with the parser's error.
    pub fn new(maze_text: &str) -> (r: Result<ClientConnection, ClientConnectionError>)
        ensures
            match r {
                Ok(game) => maze_of_text(maze_text@) == Ok::<MazeModel, Seq<char>>(game@.maze)
                    && game@.position == (1int, 1int) && game@.view_radius == 6,
                Err(ClientConnectionError::Maze(e)) => maze_of_text(maze_text@) == Err::<
                    MazeModel,
                    Seq<char>,
                >(e.detail()),
                Err(_) => false,
            },
    {
        match Maze::from_str(maze_text) {
            Ok(maze) => Ok(ClientConnection::with_maze(maze)),
            Err(e) => Err(ClientConnectionError::Maze(e)),
        }
    }

    /// A new game in `maze`.
    pub fn with_maze(maze: Maze) -> (game: ClientConnection)
        ensures
            game@ == (ClientConnectionModel {
                maze: maze@,
                position: (1int, 1int),
                view_radius: 6,
            }),
    {
        ClientConnection { maze, current_position: START_POSITION, view_radius: VIEW_RADIUS }
    }

    /// The maze of this game.
    pub fn maze(&self) -> (maze: &Maze)
        ensures
            maze@ == self@.maze,
    {
        &self.maze
    }

    /// Where the avatar stands.
    pub fn position(&self) -> (position: (isize, isize))
        ensures
            (position.0 as int, position.1 as int) == self@.position,
    {
        self.current_position
    }

    /// How far the avatar sees.
    pub fn view_radius(&self) -> (radius: usize)
        ensures
            radius == self@.view_radius,
    {
        self.view_radius
    }

    /// The viewport around the avatar.
    pub fn view_in_maze(&self) -> (text: String)
        ensures
            text@ == view_text(self@.maze, self@.position, self@.view_radius),
    {
        render(&self.maze, self.current_position, self.view_radius)
    }

    /// The screen that shows this game.
    pub fn interface(&self) -> (text: String)
        ensures
            text@ == self@.interface(),
    {
        render_interface(&self.maze, self.current_position, self.view_radius)
    }

    /// Reads the command on a line as it came from the client: a line
    /// feed at its end is dropped, the rest is read without regard to
    /// case.
    pub fn read_command(line: &str) -> (r: Result<Command, ClientConnectionError>)
        ensures
            is_reading_of(r, token_of_line(line@)),
    {
        let n: usize = line.unicode_len();
        if n > 0 && line.get_char(n - 1) == '\n' {
            let bare: &str = line.substring_char(0, n - 1);
            Command::from_str(bare)
        } else {
            Command::from_str(line)
        }
    }

    /// Tries to move the avatar by `(dx, dy)` and returns the screen
    /// after the attempt. The avatar moves iff the target is in bounds
    /// and its cell is no wall; a blocked move is no error.
    pub fn try_move(&mut self, dx: isize, dy: isize) -> (screen: String)
        ensures
            final(self)@ == old(self)@.after_move(dx as int, dy as int),
            screen@ == final(self)@.interface(),
    {
        let (x, y) = self.current_position;
        match (x.checked_add(dx), y.checked_add(dy)) {
            (Some(tx), Some(ty)) => {
                if self.maze.in_bounds(tx, ty) {
                    if let Some(target_cell) = self.maze.get_cell(tx as usize, ty as usize) {
                        if target_cell.is_traversable() {
                            self.current_position = (tx, ty);
                        }
                    }
                }
            },
            _ => {},
        }
        self.interface()
    }

    /// Applies a command and returns the screen after it. A refresh
    /// leaves the avatar where it stands.
    pub fn apply_command(&mut self, command: Command) -> (screen: String)
        ensures
            final(self)@ == old(self)@.after(command),
            screen@ == final(self)@.interface(),
    {
        match command {
            Command::Refresh => self.interface(),
            Command::MoveLeft => self.try_move(-1, 0),
            Command::MoveRight => self.try_move(1, 0),
            Command::MoveUp => self.try_move(0, -1),
            Command::MoveDown => self.try_move(0, 1),
        }
    }

    /// Answers what was read from a line. A command is applied, and the
    /// answer is an empty line and the new screen. An error leaves the
    /// game as it is, and the answer is its message on a line of its own.
    pub fn answer(&mut self, reading: Result<Command, ClientConnectionError>) -> (reply: String)
        ensures
            match reading {
                Ok(command) => {
                    &&& final(self)@ == old(self)@.after(command)
                    &&& reply@ == "\n"@ + final(self)@.interface()
                },
                Err(e) => {
                    &&& final(self)@ == old(self)@
                    &&& reply@.len() > 0
                    &&& reply@.last() == '\n'
                    &&& e.has_message(reply@.drop_last())
                },
            },
    {
        match reading {
            Ok(command) => {
                let mut reply = "\n".to_owned();
                let screen: String = self.apply_command(command);
                reply.append(screen.as_str());
                reply
            },
            Err(e) => {
                let mut reply: String = e.message();
                let ghost message = reply@;
                reply.push('\n');
                assert(reply@.drop_last() =~= message);
                reply
            },
        }
    }

    /// Answers one line from the client: the line is read as a command,
    /// and what was read is answered. A line that is no command leaves
    /// the game as it is, and the answer names what was sent.
    pub fn handle(&mut self, line: &str) -> (reply: String)
        ensures
            final(self)@ == old(self)@.after_token(token_of_line(line@)),
            reply@ == old(self)@.reply_to_token(token_of_line(line@)),
    {
        let reading = ClientConnection::read_command(line);
        let reply: String = self.answer(reading);
        proof {
            reveal_strlit("\n");
        }
        reply
    }
}

} // verus!
