use maze_master::client_connection::{
    ClientConnection, ClientConnectionError, START_POSITION, VIEW_RADIUS,
};
use maze_master::command::Command;
use maze_master::maze::{Maze, MazeError};
use maze_master::viewport::{render, render_interface};
use std::str::FromStr;

const WALLED: &str = "###\n#.#\n###";
const OPEN: &str = "...\n...\n...";
const TITLE: &str = "~~ MAZE MASTER ~~\n";
const HELP: &str = "available commands: up, down, left, right (or use WASD)\n";

fn game(text: &str) -> ClientConnection {
    match ClientConnection::new(text) {
        Ok(game) => game,
        Err(e) => panic!("no game: {}", e.message()),
    }
}

fn walled_screen() -> String {
    let void = ".............\n";
    let mut screen = String::new();
    screen.push_str("~~ MAZE MASTER ~~\n");
    screen.push_str("\n");
    for _ in 0..5 {
        screen.push_str(void);
    }
    screen.push_str(".....###.....\n");
    screen.push_str(".....#@#.....\n");
    screen.push_str(".....###.....\n");
    for _ in 0..5 {
        screen.push_str(void);
    }
    screen.push_str("\n");
    screen.push_str("available commands: up, down, left, right (or use WASD)\n");
    screen.push_str("\n");
    screen
}

#[test]
fn game_starts_at_one_one_with_radius_six() {
    let game = game(WALLED);
    assert_eq!(START_POSITION, (1, 1));
    assert_eq!(VIEW_RADIUS, 6);
    assert_eq!(game.position(), (1, 1));
    assert_eq!(game.view_radius(), 6);
    assert_eq!(game.maze().width(), 3);
    assert_eq!(game.maze().height(), 3);
}

#[test]
fn prompt_has_no_line_feed() {
    assert_eq!(ClientConnection::PROMPT, "> ");
}

#[test]
fn walled_in_avatar_never_moves() {
    let mut game = game(WALLED);
    for command in [
        Command::MoveLeft,
        Command::MoveRight,
        Command::MoveUp,
        Command::MoveDown,
        Command::Refresh,
    ] {
        let screen = game.apply_command(command);
        assert_eq!(game.position(), (1, 1));
        assert_eq!(screen, walled_screen());
    }
}

#[test]
fn open_maze_move_right_then_blocked_by_the_edge() {
    let mut game = game(OPEN);
    assert_eq!(game.position(), (1, 1));
    game.apply_command(Command::MoveRight);
    assert_eq!(game.position(), (2, 1));
    game.apply_command(Command::MoveRight);
    assert_eq!(game.position(), (2, 1));
}

#[test]
fn each_direction_moves_by_its_unit_step() {
    for (command, target) in [
        (Command::MoveLeft, (0, 1)),
        (Command::MoveRight, (2, 1)),
        (Command::MoveUp, (1, 0)),
        (Command::MoveDown, (1, 2)),
    ] {
        let mut game = game(OPEN);
        game.apply_command(command);
        assert_eq!(game.position(), target);
    }
}

#[test]
fn move_changes_position_by_the_step_or_not_at_all() {
    let text = "..#.\n.#..\n*..#\n....";
    let maze = Maze::from_str(text).unwrap();
    let steps = [
        (Command::MoveLeft, (-1, 0)),
        (Command::MoveRight, (1, 0)),
        (Command::MoveUp, (0, -1)),
        (Command::MoveDown, (0, 1)),
    ];
    // walk every path of three commands from the start
    for first in steps.iter() {
        for second in steps.iter() {
            for third in steps.iter() {
                let mut game = game(text);
                for (command, (dx, dy)) in [first, second, third] {
                    let (x, y) = game.position();
                    let (tx, ty) = (x + dx, y + dy);
                    let free = maze.in_bounds(tx, ty)
                        && maze.get_cell(tx as usize, ty as usize).unwrap().is_traversable();
                    game.apply_command(*command);
                    if free {
                        assert_eq!(game.position(), (tx, ty));
                    } else {
                        assert_eq!(game.position(), (x, y));
                    }
                }
            }
        }
    }
}

#[test]
fn goal_can_be_entered() {
    let mut game = game("#*#\n#.#\n###");
    game.apply_command(Command::MoveUp);
    assert_eq!(game.position(), (1, 0));
    game.apply_command(Command::MoveUp);
    assert_eq!(game.position(), (1, 0));
}

#[test]
fn refresh_keeps_position_and_shows_the_screen() {
    let mut game = game(OPEN);
    game.apply_command(Command::MoveDown);
    let before = game.position();
    let shown = game.interface();
    let screen = game.apply_command(Command::Refresh);
    assert_eq!(game.position(), before);
    assert_eq!(screen, shown);
    assert_eq!(screen, game.interface());
}

#[test]
fn blocked_move_still_shows_the_screen() {
    let mut game = game(WALLED);
    let screen = game.apply_command(Command::MoveLeft);
    assert_eq!(screen, walled_screen());
    assert_eq!(screen, game.interface());
}

#[test]
fn applied_move_shows_the_new_screen() {
    let mut game = game(OPEN);
    let before = game.interface();
    let screen = game.apply_command(Command::MoveRight);
    assert_ne!(screen, before);
    assert_eq!(screen, game.interface());
    assert_eq!(screen, render_interface(game.maze(), (2, 1), 6));
}

#[test]
fn interface_wraps_the_view() {
    let game = game(WALLED);
    assert_eq!(game.interface(), walled_screen());
    let view = game.view_in_maze();
    assert_eq!(view, render(game.maze(), (1, 1), 6));
    assert_eq!(game.interface(), format!("{}\n{}\n{}\n", TITLE, view, HELP));
}

#[test]
fn render_interface_with_a_small_radius() {
    let maze = Maze::from_str(OPEN).unwrap();
    let expected = "~~ MAZE MASTER ~~\n\n...\n.@.\n...\n\navailable commands: up, down, left, right (or use WASD)\n\n";
    assert_eq!(render_interface(&maze, (1, 1), 1), expected);
}

#[test]
fn try_move_by_any_step() {
    let mut game = game("....\n....\n....\n....");
    game.try_move(2, 2);
    assert_eq!(game.position(), (3, 3));
    game.try_move(-3, -1);
    assert_eq!(game.position(), (0, 2));
    game.try_move(-1, 0);
    assert_eq!(game.position(), (0, 2));
    game.try_move(0, 2);
    assert_eq!(game.position(), (0, 2));
    let screen = game.try_move(0, 0);
    assert_eq!(game.position(), (0, 2));
    assert_eq!(screen, game.interface());
}

#[test]
fn try_move_beyond_the_number_line_stays() {
    let mut game = game(OPEN);
    game.try_move(isize::MAX, 0);
    assert_eq!(game.position(), (1, 1));
    game.try_move(0, isize::MAX);
    assert_eq!(game.position(), (1, 1));
    game.try_move(isize::MIN, isize::MIN);
    assert_eq!(game.position(), (1, 1));
}

#[test]
fn line_with_a_command_is_applied_and_answered_with_the_screen() {
    let mut game = game(OPEN);
    let reply = game.handle("d\n");
    assert_eq!(game.position(), (2, 1));
    assert_eq!(reply, format!("\n{}", game.interface()));
    let reply = game.handle("LEFT\n");
    assert_eq!(game.position(), (1, 1));
    assert_eq!(reply, format!("\n{}", game.interface()));
    let reply = game.handle("w");
    assert_eq!(game.position(), (1, 0));
    assert_eq!(reply, format!("\n{}", game.interface()));
    let reply = game.handle("Down\n");
    assert_eq!(game.position(), (1, 1));
    assert_eq!(reply, format!("\n{}", game.interface()));
}

#[test]
fn empty_line_refreshes() {
    let mut game = game(WALLED);
    assert_eq!(game.handle("\n"), format!("\n{}", walled_screen()));
    assert_eq!(game.handle(""), format!("\n{}", walled_screen()));
    assert_eq!(game.position(), (1, 1));
}

#[test]
fn unknown_line_is_answered_with_one_line() {
    let mut game = game(OPEN);
    assert_eq!(game.handle("xyz\n"), "unknown command: xyz\n");
    assert_eq!(game.handle("xyz"), "unknown command: xyz\n");
    assert_eq!(game.handle("Jump\n"), "unknown command: jump\n");
    assert_eq!(game.position(), (1, 1));
}

#[test]
fn only_one_line_feed_is_dropped() {
    let mut game = game(OPEN);
    assert_eq!(game.handle("left\r\n"), "unknown command: left\r\n");
    assert_eq!(game.handle("left\n\n"), "unknown command: left\n\n");
    assert_eq!(game.handle("\n\n"), "unknown command: \n\n");
    assert_eq!(game.position(), (1, 1));
}

#[test]
fn read_command_drops_the_line_feed() {
    assert_eq!(ClientConnection::read_command("a\n").unwrap(), Command::MoveLeft);
    assert_eq!(ClientConnection::read_command("A").unwrap(), Command::MoveLeft);
    assert_eq!(ClientConnection::read_command("RIGHT\n").unwrap(), Command::MoveRight);
    assert_eq!(ClientConnection::read_command("\n").unwrap(), Command::Refresh);
    assert_eq!(ClientConnection::read_command("").unwrap(), Command::Refresh);
    match ClientConnection::read_command("up \n") {
        Err(ClientConnectionError::CommandParseError(text)) => assert_eq!(text, "up "),
        other => panic!("expected a command parse error, got {:?}", other),
    }
}

#[test]
fn text_that_is_no_maze_gives_no_game() {
    match ClientConnection::new("#.x") {
        Err(ClientConnectionError::Maze(MazeError::MazeParsingFailed(detail))) => {
            assert_eq!(detail, "unknown character: x")
        }
        _ => panic!("expected a maze error"),
    }
    match ClientConnection::new("") {
        Err(e @ ClientConnectionError::Maze(_)) => {
            assert_eq!(e.message(), "maze error: failed to parse maze format: no first line")
        }
        _ => panic!("expected a maze error"),
    }
}

#[test]
fn error_messages() {
    let e = ClientConnectionError::CommandParseError("xyz".to_string());
    assert_eq!(e.message(), "unknown command: xyz");
    let e = ClientConnectionError::Maze(MazeError::MazeParsingFailed("no first line".to_string()));
    assert_eq!(e.message(), "maze error: failed to parse maze format: no first line");
    let e = ClientConnectionError::Io(std::io::Error::new(std::io::ErrorKind::Other, "gone"));
    assert_eq!(e.message(), "io error: gone");
}

#[test]
fn stream_failure_becomes_an_error() {
    let cause = std::io::Error::new(std::io::ErrorKind::BrokenPipe, "pipe");
    let e = ClientConnectionError::from(cause);
    match &e {
        ClientConnectionError::Io(inner) => {
            assert_eq!(inner.kind(), std::io::ErrorKind::BrokenPipe)
        }
        other => panic!("expected a stream failure, got {:?}", other),
    }
    assert!(e.message().starts_with("io error: "));
}

#[test]
fn game_in_the_default_maze_is_walled_in() {
    let mut game = ClientConnection::with_maze(Maze::default());
    assert_eq!(game.position(), (1, 1));
    assert_eq!(game.view_radius(), 6);
    for line in ["a\n", "d\n", "w\n", "s\n", "\n"] {
        game.handle(line);
        assert_eq!(game.position(), (1, 1));
    }
}

#[test]
fn start_may_lie_outside_a_small_maze() {
    let mut game = game(".");
    assert_eq!(game.position(), (1, 1));
    game.handle("a\n");
    assert_eq!(game.position(), (1, 1));
    game.handle("w\n");
    assert_eq!(game.position(), (1, 1));
}

#[test]
fn two_games_do_not_see_each_other() {
    let mut first = game(OPEN);
    let mut second = game(OPEN);
    let untouched = second.interface();
    first.handle("d\n");
    first.handle("s\n");
    assert_eq!(first.position(), (2, 2));
    assert_eq!(second.position(), (1, 1));
    assert_eq!(second.interface(), untouched);
    second.handle("a\n");
    assert_eq!(second.position(), (0, 1));
    assert_eq!(first.position(), (2, 2));
    assert_eq!(first.maze().width(), 3);
    assert_eq!(second.maze().width(), 3);
}

#[test]
fn games_in_different_mazes_keep_their_own() {
    let mut walled = game(WALLED);
    let mut open = game(OPEN);
    walled.handle("d\n");
    open.handle("d\n");
    assert_eq!(walled.position(), (1, 1));
    assert_eq!(open.position(), (2, 1));
    assert_eq!(walled.interface(), walled_screen());
    assert_ne!(open.interface(), walled_screen());
}
