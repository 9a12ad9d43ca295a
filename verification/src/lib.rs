//! An embeddable POSIX/bash-style shell engine core.
//!
//! The crate models the state a shell carries between commands (variables with
//! a scope stack, registered functions, a builtin registry, a directory stack,
//! an open-file table) and executes parsed command programs against that
//! state: builtin dispatch, function invocation, pipelines, and-or lists,
//! subshells, groups and redirections.  Host-facing glue (real process
//! spawning, terminals, the clock) stays outside; the engine works on plain
//! values and the contracts pin down what every operation does to the state.

pub mod arith;
pub mod ast;
pub mod builtins;
pub mod engine;
pub mod env;
pub mod error;
pub mod events;
pub mod fsinfo;
pub mod openfiles;
pub mod process;
pub mod prompt;
pub mod results;
pub mod shell;
pub mod signal;
pub mod strings;
pub mod testexpr;
pub mod variables;
