//! A line-oriented command interpreter core.
//!
//! The library covers everything a small shell decides: splitting a line
//! into statement groups and conditional chains, rewriting redirection
//! operators into relay stages, expanding aliases and `$NAME` variables,
//! resolving each pipeline stage to a builtin, user function, instant
//! directive or external command, and planning how the stages are wired
//! together.  The host program performs the plans (spawning processes,
//! opening files, reading the terminal); every decision it acts on is
//! computed and specified here.

pub mod builtins;
pub mod colors;
pub mod execute;
pub mod instants;
pub mod parse_command;
pub mod redirect;
pub mod resolve;
pub mod state;
pub mod text;
