//! Where games and the launcher itself are registered.

pub mod error;
pub mod linux;
pub mod macos;
pub mod resolve;
pub mod steam;
pub mod windows;
