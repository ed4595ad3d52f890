//! Checks runner core: configuration, run state and the runner protocol.

pub mod text;
pub mod config;
pub mod checks;
pub mod app;
pub mod protocol;
pub mod keys;
pub mod display;
pub mod properties;
