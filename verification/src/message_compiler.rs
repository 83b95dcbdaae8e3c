//! The interface-definition compiler: raw syntax tree, type checker and the
//! shape of what is generated from a checked file.

pub mod compiler_rust;
pub mod parsing;
pub mod type_checking;
