//! Errors of the type checker, as the compiler reports them.

use crate::syntax::meta::MetaId;
use vstd::prelude::*;

verus! {

/// The level of a label of a type error.
#[derive(Clone, Copy, Debug, PartialEq, Eq, Structural)]
pub enum Level {
    Error,
    Info,
}

/// A message attached to the span of an AST node.
#[derive(Clone, Debug, PartialEq, Eq)]
pub struct Label {
    pub level: Level,
    pub id: MetaId,
    pub message: String,
}

/// An error found by the type checker: what it says, the AST node where it
/// occurred, its labels and its notes.
#[derive(Clone, Debug, PartialEq, Eq)]
pub struct TypeError {
    pub description: String,
    pub location: MetaId,
    pub labels: Vec<Label>,
    pub notes: Vec<String>,
}

} // verus!
