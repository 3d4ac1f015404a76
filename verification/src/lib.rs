//! A relay for emulators that play one game over a network: it reads the logins of clients, keeps
//! them in rooms by game, and passes their controller inputs and commands around.

pub mod bytes;
pub mod cli;
pub mod client;
pub mod config;
pub mod registry;
pub mod room;
pub mod text;
pub mod types;
