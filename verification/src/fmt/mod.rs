//! The source formatter for the framework's template macros.
pub mod indent;
pub mod laws;
pub mod raw;
pub mod rules;
pub mod scan;
pub mod source;
