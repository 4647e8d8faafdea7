//! Version-control settings and ref descriptions.
use vstd::prelude::*;

verus! {

/// Where repositories live and how large a push may be.
#[derive(Clone, Debug)]
pub struct VcsConfig {
    pub repositories_root: String,
    pub jj_binary_path: String,
    pub max_push_size_mb: u64,
    pub max_file_size_mb: u64,
}

/// A named reference to a commit.
pub struct GitRef {
    pub name: String,
    pub commit_id: String,
    pub ref_type: RefType,
}

/// What a reference names.
#[derive(Clone, Copy, Debug, PartialEq, Eq, Structural)]
pub enum RefType {
    Branch,
    Tag,
    Commit,
}

/// Operations on repositories that need no state of their own.
pub struct VcsOperations;

impl VcsOperations {
    pub fn new() -> (r: VcsOperations) {
        VcsOperations
    }
}

} // verus!
