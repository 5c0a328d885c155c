//! The type representation of Roto's type checker.

pub mod builtin_docs;
pub mod error;
pub mod types;
