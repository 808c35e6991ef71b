//! Mancala: the rule engine for one board and the registry of games in progress.

pub mod constants;
pub mod rules;
pub mod game_objects;
pub mod proto;
pub mod text;
pub mod registry;
pub mod server_input_handler;
pub mod client_input_handler;
