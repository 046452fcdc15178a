//! The launch of a game.

pub mod arguments;
pub mod environment;
pub mod linux_setup;
pub mod start;
pub mod types;
