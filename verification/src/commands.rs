//! The commands of the command line tool: their options and the decisions they make.

pub mod debug;
pub mod evaluation;
pub mod compile;
pub mod completion;
pub mod dev;
pub mod generate_sdk;
pub mod setup;
pub mod validate;
pub mod watch;
pub mod ci;
pub mod init;
pub mod flag;
pub mod env;
pub mod workflow;
pub mod kill_switch;
pub mod overrides;
pub mod services;
pub mod explain;
pub mod flag_listing;
