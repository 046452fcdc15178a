//! Launch, Wine prefix and registry logic of a game launcher, verified.

pub mod achievements;
pub mod background_service;
pub mod encoding;
pub mod github;
pub mod host_namespace;
pub mod launch;
pub mod login;
pub mod number;
pub mod path;
pub mod pattern;
pub mod registry;
pub mod text;
pub mod unicode;
pub mod wine;
