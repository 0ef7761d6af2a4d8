//! A verified core for a small process launcher.
//!
//! The launcher reads a configuration (command path, argument list, a map of
//! per-variable environment rules, and a detach flag), merges command-line
//! overrides into it, resolves each environment rule against the inherited
//! environment, and produces a launch plan for the child process. Everything
//! up to the actual spawn is pure computation and is verified here; the
//! surrounding I/O (argument parsing, config-file reading, spawning) lives
//! outside the library and only hands plain values in and out.

use vstd::prelude::*;

pub mod config;
pub mod launch;
pub mod rules;

verus! {

} // verus!
