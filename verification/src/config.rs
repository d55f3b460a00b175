//! What the user asked for: the configuration file and the command line.

pub mod cli;
pub mod file;
