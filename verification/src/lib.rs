//! A small multiplayer word-guessing game served over a persistent socket
//! connection: the binary wire codec, the guessing-game state machine, the
//! session registry of connected users and ongoing games, the command
//! interpreter, and the broadcast bus that fans command side-messages out to
//! every connection.
//!
//! Everything here is verified. The socket listeners, the per-connection
//! threads and the terminal client around this library live outside it and
//! only exchange plain values with it.

pub mod binary_message;
pub mod client;
pub mod guess_game;
pub mod message;
pub mod server;
pub mod server_commands;
pub mod server_process;
pub mod text;
