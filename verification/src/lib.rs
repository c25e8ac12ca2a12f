//! Scheduling core of a file-watching command runner.

pub mod cargo;
pub mod compile;
pub mod debounce;
pub mod decide;
pub mod delay;
pub mod deps;
pub mod errors;
pub mod event;
pub mod filter;
pub mod job;
pub mod names;
pub mod options;
pub mod outcome;
pub mod plan;
pub mod report;
pub mod schedule;
pub mod text;
pub mod timelock;
