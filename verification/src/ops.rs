//! Operations shared by several commands.

pub mod compile;
pub mod generate_sdk;
