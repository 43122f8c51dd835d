//! Decision logic of a terminal front end for the `pelagos` container runtime.
//!
//! Nothing here runs a command, reads a file or draws on a screen. Where something has to be
//! asked of the outside, one function says what to ask and another takes the answer.

pub mod actions;
pub mod cli;
pub mod command;
pub mod config;
pub mod event_loop;
pub mod images;
pub mod order;
pub mod paths;
pub mod reading;
pub mod run_args;
pub mod runner;
pub mod subscription;
pub mod terminal;
pub mod text;
