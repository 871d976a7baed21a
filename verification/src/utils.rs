//! Helpers shared by the commands.

pub mod unified_config;
pub mod runtime;
pub mod environment;
pub mod kill_switch;
pub mod config;
pub mod language;
