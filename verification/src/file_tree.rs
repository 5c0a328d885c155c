//! The source files of a Roto script.

use vstd::prelude::*;

verus! {

/// A source file of a script: its name, the module it makes, its contents,
/// the line at which it starts in the file it was taken from, and the
/// positions of the files of its child modules.
#[derive(Clone, Debug, PartialEq, Eq)]
pub struct SourceFile {
    pub name: String,
    pub module_name: String,
    pub contents: String,
    pub location_offset: usize,
    pub children: Vec<usize>,
}

impl SourceFile {
    /// The name of this file.
    pub fn name(&self) -> (res: String)
        ensures
            res@ == self.name@,
    {
        self.name.clone()
    }
}

/// The source files of a script; the first is its root module.
#[derive(Clone, Debug, Default)]
pub struct FileTree {
    pub files: Vec<SourceFile>,
}

} // verus!
