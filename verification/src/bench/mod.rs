//! The end-to-end benchmark: what it does, in which order, and what it makes
//! of its measurements.
pub mod bedrock;
pub mod cli;
pub mod disk;
pub mod harness;
pub mod plan;
pub mod polling;
pub mod scenarios;
pub mod sizes;
