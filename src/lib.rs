//! A small interactive shell's core: the command-structure builder, the
//! execution engine and the environment they share, each with its contract.
//!
//! - `parser` turns a line into a tree of tokens, by the precedence chain
//!   pipeline, quoting, command substitution, `>>`, `>`, plain words;
//!   `build` is the model the builder is proved against.
//! - `exec` walks such a tree as a state machine: each step says what the
//!   outside world is to do (open a file, make a pipe, run a process) and
//!   takes back the answer.
//! - `config` and `symbol_table` hold the variables and the capability
//!   tables; `builtins` and `keywords` are the capabilities.
//! - `editor` decides what keys do to the line being read and joins
//!   continuation lines; `args` reads the options; `log` shapes the trace.
//! - `laws` proves properties that relate these functions.
use vstd::prelude::*;

pub mod args;
pub mod builtins;
pub mod config;
pub mod editor;
pub mod exec;
pub mod keywords;
pub mod laws;
pub mod log;
pub mod number;
pub mod parser;
pub mod symbol_table;
pub mod text;
pub mod tree;

verus! {

} // verus!
