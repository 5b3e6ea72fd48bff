//! A declarative task runner: tasks are named, ordered lists of shell
//! commands whose templates may hold `${name}` placeholders.  Placeholders
//! are resolved from call-time arguments, task-file variables, or an
//! environment snapshot, expanded recursively with a convergence bound, and
//! the resulting commands are sequenced through a small state machine that
//! tracks fire-and-forget executions still in flight.
pub mod argument;
pub mod command;
pub mod configuration;
pub mod data;
pub mod error;
pub mod puff;
pub mod runner;
pub mod shell;
pub mod task;
pub mod text;
pub mod vars;
