//! Pure format scanning and rendering: no evaluation, routers, STRING
//! creation, diagnostic flags, user-facing resource ceiling or snapshot state.

pub mod argument;
pub mod format_parser;
pub mod format_types;
pub mod integer_bytes;
pub mod noncanonical;
pub mod directive;
pub mod float_render;
