//! Verified core of the Control Path command line tool.

pub mod error;
pub mod json;
pub mod text;
pub mod paths;
pub mod commands;
pub mod utils;
pub mod ops;
pub mod monorepo;
pub mod saas;
pub mod generator;
