//! Build-time metadata derivation for error enums.
//!
//! The library reads a model of an annotated enum declaration, validates the
//! per-variant metadata (`status_code`, `error_code`), and produces the
//! derived `error_code` / `status_code` / `error_response` members, both as a
//! metadata table that can be evaluated directly and as rendered source text.

pub mod ast;
pub mod attr_args;
pub mod body;
pub mod diag;
pub mod response_error;
pub mod status;
pub mod text;
pub mod use_case_error;
pub mod users;
pub mod utils;
