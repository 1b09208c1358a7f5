//! Injects configured attributes into the JSX elements of a module whose tag
//! is bound to a configured import.

pub mod ast;
pub mod config;
pub mod json;
pub mod laws;
pub mod regex;
pub mod transform;
pub mod utils;
