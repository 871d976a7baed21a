//! Monorepo support: services, their directories and the paths of their files.

pub mod detection;
pub mod paths;
pub mod service;
