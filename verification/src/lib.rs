//! The command execution and cancellation core of an interactive shell.
//!
//! The crate holds the decisions of the shell: how a line is split and routed,
//! where an executable is looked for, what the built-in commands answer, and how
//! the recursive copy and delete proceed and stop. Reading the terminal, touching
//! the file system and starting processes are left to the caller, which hands the
//! facts in as plain values.
//!
//! - [`commands`]: the registry of built-ins and the help listing.
//! - [`dispatch`]: from a line to a built-in or an executable.
//! - [`supervisor`]: the one running command, its interruption and its end.
//! - [`resolver`] and [`search_path`]: the search for an executable.
//! - [`fileops`]: the recursive copy and delete, and the making of directories.
//! - [`variables`]: the variable store and its substitution into lines.
//! - [`listing`], [`builtins`]: what the other built-ins print.
//! - [`session`], [`editor`]: the prompt, the history and the line being typed.
//! - [`text`], [`pathname`], [`paint`]: strings, paths and colour.

pub mod builtins;
pub mod commands;
pub mod dispatch;
pub mod editor;
pub mod fileops;
pub mod listing;
pub mod paint;
pub mod pathname;
pub mod resolver;
pub mod search_path;
pub mod session;
pub mod supervisor;
pub mod text;
pub mod variables;
