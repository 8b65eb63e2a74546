//! The command language: four directions and a refresh.

use std::str::FromStr;
use vstd::prelude::*;
use crate::client_connection::ClientConnectionError;
use crate::std_specs::lowercase_of;

verus! {

/// What a client can ask for.
#[derive(Debug, Clone, Copy, PartialEq, Eq, Structural)]
pub enum Command {
    /// One step towards greater `x`.
    MoveRight,
    /// One step towards smaller `x`.
    MoveLeft,
    /// One step towards smaller `y`.
    MoveUp,
    /// One step towards greater `y`.
    MoveDown,
    /// Show the screen again.
    Refresh,
}

/// The command that a token in lower case stands for: a direction by its
/// name or its key, a refresh by the empty token. Nothing else is a
/// command, neither a prefix of a name nor a name with something added.
pub open spec fn command_of_token(token: Seq<char>) -> Option<Command> {
    if token == "left"@ || token == "a"@ {
        Some(Command::MoveLeft)
    } else if token == "right"@ || token == "d"@ {
        Some(Command::MoveRight)
    } else if token == "up"@ || token == "w"@ {
        Some(Command::MoveUp)
    } else if token == "down"@ || token == "s"@ {
        Some(Command::MoveDown)
    } else if token.len() == 0 {
        Some(Command::Refresh)
    } else {
        None
    }
}

/// Whether `r` is what reading the lower-case `token` must give: the
/// command that it stands for, or an error that carries the token.
pub open spec fn is_reading_of(r: Result<Command, ClientConnectionError>, token: Seq<char>) -> bool {
    match r {
        Ok(command) => command_of_token(token) == Some(command),
        Err(ClientConnectionError::CommandParseError(offending)) => {
            command_of_token(token) is None && offending@ == token
        },
        Err(_) => false,
    }
}

/// The tokens of the command language, character by character.
pub proof fn lemma_command_tokens()
    ensures
        "left"@ == seq!['l', 'e', 'f', 't'],
        "right"@ == seq!['r', 'i', 'g', 'h', 't'],
        "up"@ == seq!['u', 'p'],
        "down"@ == seq!['d', 'o', 'w', 'n'],
        "a"@ == seq!['a'],
        "d"@ == seq!['d'],
        "w"@ == seq!['w'],
        "s"@ == seq!['s'],
{
    reveal_strlit("left");
    reveal_strlit("right");
    reveal_strlit("up");
    reveal_strlit("down");
    reveal_strlit("a");
    reveal_strlit("d");
    reveal_strlit("w");
    reveal_strlit("s");
}

/// The empty token asks for a refresh.
pub proof fn lemma_empty_token_is_refresh()
    ensures
        command_of_token(Seq::<char>::empty()) == Some(Command::Refresh),
{
    lemma_command_tokens();
    assert(Seq::<char>::empty().len() == 0);
}

impl Command {
    /// The step on the grid that this command asks for; none for a refresh.
    pub open spec fn delta(self) -> (int, int) {
        match self {
            Command::MoveLeft => (-1, 0),
            Command::MoveRight => (1, 0),
            Command::MoveUp => (0, -1),
            Command::MoveDown => (0, 1),
            Command::Refresh => (0, 0),
        }
    }

    /// Reads a token that is already in lower case.
    pub fn from_lowercase(token: &str) -> (r: Result<Command, ClientConnectionError>)
        ensures
            is_reading_of(r, token@),
    {
        let given: String = token.to_owned();
        if given == "left".to_owned() || given == "a".to_owned() {
            Ok(Command::MoveLeft)
        } else if given == "right".to_owned() || given == "d".to_owned() {
            Ok(Command::MoveRight)
        } else if given == "up".to_owned() || given == "w".to_owned() {
            Ok(Command::MoveUp)
        } else if given == "down".to_owned() || given == "s".to_owned() {
            Ok(Command::MoveDown)
        } else if token.is_empty() {
            Ok(Command::Refresh)
        } else {
            Err(ClientConnectionError::CommandParseError(given))
        }
    }
}

impl FromStr for Command {
    type Err = ClientConnectionError;

    /// Reads a command without regard to case: the token is put in lower
    /// case and then read by `from_lowercase`.
    fn from_str(s: &str) -> (r: Result<Command, ClientConnectionError>)
        ensures
            is_reading_of(r, lowercase_of(s@)),
    {
        let lowered: String = s.to_lowercase();
        Command::from_lowercase(lowered.as_str())
    }
}

} // verus!
