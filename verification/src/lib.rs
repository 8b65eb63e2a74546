//! A text maze game for line-oriented clients: the grid, the circular
//! viewport around the avatar, the command language and the per-connection
//! state machine.
//!
//! Nothing here touches a socket. A server reads a line from its client,
//! hands it to [`client_connection::ClientConnection::handle`] and
//! writes back the text it gets.

pub mod client_connection;
pub mod command;
pub mod maze;
pub mod maze_format;
pub mod row_major;
pub mod std_specs;
pub mod viewport;
