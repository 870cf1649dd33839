//! Modules of the high-level IR.

use vstd::prelude::*;
use crate::hir::{Content, Imports};
use crate::ids::Path;
use crate::text::{split_char, split_on};

verus! {

/// Module of the HIR: its path, its imports and its homogeneous content.
pub struct HIRModule {
    /// module name as a sequence of segments (`(dir(,dir)*,)*file_name`)
    pub name: Path,
    pub imports: Vec<Imports>,
    pub content: Content,
}

impl HIRModule {
    /// A module named by a `/`-separated path.
    pub fn new(path: String, imports: Vec<Imports>, content: Content) -> (r: Self)
        ensures
            r.name@ == split_on(path@, '/'),
            r.imports@ == imports@,
            r.content == content,
    {
        let segments = HIRModule::string_to_vec(&path);
        HIRModule { name: Path::new(segments), imports, content }
    }

    /// The segments of a `/`-separated path, empty segments included.
    pub fn string_to_vec(path_str: &String) -> (r: Vec<String>)
        ensures
            r@.map_values(|x: String| x@) == split_on(path_str@, '/'),
    {
        split_char(path_str.as_str(), '/')
    }
}

} // verus!
