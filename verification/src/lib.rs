//! A command-line argument framework built around a declarative tree of
//! commands, subcommands, named options and positional slots, together with
//! the note-keeping helpers of the `rustic` tool that uses it.
//!
//! The tree is resolved against the raw token list to select an active
//! command, the remaining tokens are classified into option and positional
//! bindings, the bindings are folded into a multivalue argument map, and
//! help and version text are derived from the same tree.

pub mod args_map;
pub mod binder;
pub mod cli_command;
pub mod cli_parser;
pub mod config;
pub mod dispatch;
pub mod help;
pub mod laws;
pub mod notes;
pub mod print_utils;
pub mod text;
