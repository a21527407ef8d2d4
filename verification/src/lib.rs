//! An embeddable rule engine: trees of condition/action rules that share a
//! typed key/value context and are traversed best-first or as a chain.

pub mod context;
pub mod engine;
pub mod error;
pub mod hooks;
pub mod rule;
pub mod runner;
