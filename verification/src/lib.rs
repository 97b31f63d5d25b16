//! A single-server queueing simulation with bounded, chained buffering,
//! together with a small vacancy registry used for salary statistics.

pub mod agency;
pub mod benchmark;
pub mod chain;
pub mod config;
pub mod cpu;
pub mod decimal;
pub mod generator;
pub mod history;
pub mod process;
pub mod protocol;
pub mod random;
pub mod server;
pub mod text;
