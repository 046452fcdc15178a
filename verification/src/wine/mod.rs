//! The Wine prefix, Proton and the runtimes around them.

pub mod command;
pub mod deck;
pub mod dirs;
pub mod error;
pub mod proton;
pub mod reg_files;
pub mod reg_setup;
pub mod registry_map;
pub mod routing;
pub mod runtime;
