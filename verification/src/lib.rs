//! Command-line configuration discovery and synchronous channel utilities:
//! a broadcast channel, a value-change watcher built on it, and a
//! priority receiver that always hands out the largest pending message.

pub mod cli;
pub mod crossbeam;
