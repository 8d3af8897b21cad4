//! Display options of a listing.

use vstd::prelude::*;
use crate::size::Format;

verus! {

/// What a listing shows, and where.
pub struct Args {
    /// Show creation dates.
    pub creation_date: bool,
    /// Show modification dates.
    pub modification_date: bool,
    /// Show access dates.
    pub access_date: bool,
    /// Show sizes.
    pub size: bool,
    /// Show entries whose name starts with a dot.
    pub sys: bool,
    /// Give directories the total size of their subtree.
    pub recursive: bool,
    /// Unit system of sizes.
    pub format: Format,
    /// Directory to list.
    pub path: String,
}

impl Args {
    /// Whether any column needs the entries' metadata.
    pub open spec fn spec_wants_metadata(&self) -> bool {
        self.creation_date || self.modification_date || self.access_date || self.size
    }

    /// Whether metadata has to be read at all; when no column needs it the
    /// read is skipped.
    pub fn wants_metadata(&self) -> (r: bool)
        ensures
            r == self.spec_wants_metadata(),
    {
        self.creation_date || self.modification_date || self.access_date || self.size
    }

    /// Whether the subtree below an entry has to be walked for its size.
    pub fn wants_tree_walk(&self, is_dir: bool) -> (r: bool)
        ensures
            r == (self.size && self.recursive && is_dir),
    {
        self.size && self.recursive && is_dir
    }
}

} // verus!
