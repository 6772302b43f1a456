//! Verified core of ezMigrations: parsing and rewriting EF Core migration
//! sources, interpreting `dotnet ef` and `git` output, planning the managed
//! branch switch and squash workflows, and the saved-project configuration.
#![allow(unused_imports)]

pub mod text;
pub mod csharp;
pub mod paths;
pub mod parser;
pub mod sql_object;
pub mod dotnet;
pub mod ops;
pub mod branch_switch;
pub mod squash;
pub mod git;
pub mod state;
pub mod db_history;
pub mod calendar;
pub mod diagnostics;
pub mod terminal;
pub mod reads;
pub mod mcp;
pub mod watch;
pub mod readback;
