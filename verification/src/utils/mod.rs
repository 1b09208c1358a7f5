//! Helpers of the pass.

pub mod json_to_es_ast;
pub mod strings;
