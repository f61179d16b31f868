//! The command line's plain parts.
use vstd::prelude::*;

verus! {

/// The subcommands of `db`.
#[derive(Debug, Clone, Copy, PartialEq, Eq, Structural)]
pub enum Subcommands {
    /// Execute database migrations
    Migration,
    /// Lists current and local database versions
    Version,
}

/// The log configuration.
#[derive(Debug, Clone, Copy, PartialEq, Eq, Structural)]
pub struct Logs {
    /// Log events to journald.
    pub journald: bool,
}

} // verus!
