//! Decisions of runtime builtins that the evaluator drives.

pub mod format;
pub mod queued_input;
