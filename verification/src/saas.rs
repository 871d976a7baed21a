//! The SaaS boundary: what is reported, synced, downloaded and verified.

pub mod client;
pub mod report;
pub mod endpoints;
pub mod ast;
pub mod ast_cache;
pub mod http;
pub mod sync;
pub mod fake;
