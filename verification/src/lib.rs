//! Verified core of `box`, a small manager for development containers:
//! the engine command line used to start a container, the steps around it,
//! and the rules for reading container configuration files.

pub mod text;
pub mod terminfo;
pub mod start;
pub mod config;
pub mod help;
pub mod cli;
