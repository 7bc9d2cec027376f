//! A small home-automation registry: smart devices identified by a
//! (location, name) pair, each reporting a validity-gated state summary,
//! collected into a deterministically ordered report.

pub mod devices;
pub mod registry;
pub mod strutil;
