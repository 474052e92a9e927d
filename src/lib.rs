//! Resolution of a watch-and-run job into the command to launch and the
//! policies that go with it.

pub mod features;
pub mod job;
pub mod env_vars;
pub mod command;
pub mod paths;
pub mod mission;
