//! The verified core of `gearbox`, a small agent that answers a task by asking a model and
//! reading files of one workspace for it.
//!
//! The crate decides; it performs no input or output. A caller sends the requests, opens the
//! files and hands back what it saw as plain values.

pub mod agent;
pub mod config;
pub mod json;
pub mod model;
pub mod outcome;
pub mod response;
pub mod text;
pub mod tool;
