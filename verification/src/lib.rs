//! Verified core of a game-server orchestration daemon: the slot table of
//! running game servers, the decisions taken for each client request, and
//! the text that is handed to the game-server processes.
pub mod application;
pub mod config;
pub mod errors;
pub mod handlers;
pub mod protocol;
pub mod random;
pub mod servers_handler;
pub mod shutdown;
pub mod start;
pub mod state;
pub mod text;
pub mod wire;
