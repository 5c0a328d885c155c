//! Roto: the syntax frontend, the type representation of the type checker,
//! the registration of host items and the structured diagnostics of the
//! compiler, each with its behaviour stated as a contract.

pub mod file_tree;
pub mod pipeline;
pub mod runtime;
pub mod syntax;
pub mod tools;
pub mod typechecker;
