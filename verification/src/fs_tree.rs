//! Nodes of the served directory tree. The walk over the disk is the
//! calling layer's work; assembling entries into nodes — which entries
//! carry a children list, and how the modification time is rendered —
//! is decided and verified here.

use vstd::prelude::*;

use crate::text::{i64_to_string, spec_dec_i64_chars};

verus! {

/// A path-like value rendered as slash-separated text.
pub trait PathToString {
    /// The value's text, lossy where the platform's encoding demands.
    fn to_lossy_string(&self) -> String;
}

/// Parameters of the single-directory listing: which directory to
/// list.
#[derive(Clone, Debug)]
pub struct LoadInDirParams {
    pub path: String,
}

/// One node of the directory tree the server reports: its name, its
/// path, its modification time as a decimal timestamp, and its
/// children — absent for a file, present (possibly empty) for a
/// directory.
#[derive(Debug)]
pub struct FileNode {
    pub label: String,
    pub path: String,
    pub last_modified: String,
    pub children: Option<Vec<FileNode>>,
}

impl FileNode {
    /// The node for one directory entry: a file gets no children
    /// list, a directory an empty one, to be filled by deeper walks.
    pub fn from_entry(label: String, path: String, modified_ts: i64, is_dir: bool) -> (r:
        FileNode)
        ensures
            r.label@ == label@,
            r.path@ == path@,
            r.last_modified@ == spec_dec_i64_chars(modified_ts),
            is_dir ==> (r.children matches Some(c) && c@.len() == 0),
            !is_dir ==> r.children is None,
    {
        let children: Option<Vec<FileNode>> = if is_dir {
            Some(Vec::new())
        } else {
            None
        };
        FileNode { label, path, last_modified: i64_to_string(modified_ts), children }
    }

    /// The node for a walked directory, with the children the walk
    /// collected, in their collected order.
    pub fn dir_node(label: String, path: String, modified_ts: i64, children: Vec<FileNode>) -> (r:
        FileNode)
        ensures
            r.label@ == label@,
            r.path@ == path@,
            r.last_modified@ == spec_dec_i64_chars(modified_ts),
            r.children matches Some(c) && c@ == children@,
    {
        FileNode { label, path, last_modified: i64_to_string(modified_ts), children: Some(
            children,
        ) }
    }
}

} // verus!
