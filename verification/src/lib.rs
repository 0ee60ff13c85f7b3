//! The byte-level core and the decisions of a CLIPS-style rules runtime:
//! `format` scanning, rendering and its builtin's decisions, field scanning
//! and `read`, the iterator-bind check of action bodies, the decisions of
//! right-hand-side actions and of the engine's run loop, the engine's
//! limits and action-loop budget, the lifecycle of a cancelable request,
//! and the map of exported fact handles.

pub mod actions;
pub mod byte_buffer;
pub mod callable_validation;
pub mod config;
pub mod formatting;
pub mod engine;
pub mod evaluator;
pub mod field_scanner;
pub mod host;
pub mod pinned;
