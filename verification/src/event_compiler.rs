//! The compiler of event definition files: raw syntax tree, type checker
//! and the Rust source that is written for a checked file.

pub mod compiler_rust;
pub mod parsing;
pub mod type_checking;
