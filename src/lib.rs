//! Conflict-resolution policy for LR(1)/LALR(1) parse-table construction.
//!
//! A table builder that finds more than one viable action for a
//! (state, lookahead) cell consults a [`Config`] to filter and rank the
//! candidates. [`resolve_cell`] and [`build_table`] carry out that
//! resolution and say, in their contracts, exactly which action wins,
//! which report is produced and which error ends the pass.

pub mod config;
pub mod conflict;
pub mod grammar;
pub mod laws;
pub mod resolve;

pub use config::{
    Config, DefaultConfig, default_favor_shift, default_priority_of, default_reduce_on,
    default_warn_on_resolved_conflicts,
};
pub use conflict::{
    Action, ConflictError, ConflictKind, ParseTable, Resolution, ResolvedConflict, TableCell,
};
pub use grammar::{Rhs, Symbol};
pub use resolve::{build_table, resolve_cell};
