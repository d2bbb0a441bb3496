//! A plain model of the directory tree that a scan walks: each node records
//! what the walker observed at one directory.

use vstd::prelude::*;
use crate::strings::str_eq;

verus! {

/// One directory as observed on disk.
///
/// `children` holds the subdirectories that enumerating the directory
/// revealed, in enumeration order; an unreadable directory has no children.
/// `has_metadata_dir` records whether the version-control metadata
/// subdirectory (`.git`) exists directly under this directory.
/// `origin_url` is the origin remote URL if one could be read here, `None`
/// when it could not be determined.
pub struct DirNode {
    pub name: String,
    pub path: String,
    pub has_metadata_dir: bool,
    pub origin_url: Option<String>,
    pub children: Vec<DirNode>,
}

/// Directory names that a scan never enters nor counts: the metadata
/// directory and the dependency cache directory.
pub open spec fn skip_dir_name(name: Seq<char>) -> bool {
    name == ".git"@ || name == "node_modules"@
}

/// Number of nodes in the tree rooted at `n`, the root included.
pub open spec fn node_count(n: DirNode) -> int
    decreases n,
{
    1 + kids_count(n.children@)
}

/// Total number of nodes in the trees rooted at the nodes of `cs`.
pub open spec fn kids_count(cs: Seq<DirNode>) -> int
    decreases cs,
{
    if cs.len() == 0 {
        0
    } else {
        node_count(cs[0]) + kids_count(cs.drop_first())
    }
}

pub proof fn lemma_kids_count_nonneg(cs: Seq<DirNode>)
    ensures
        kids_count(cs) >= 0,
    decreases cs,
{
    if cs.len() > 0 {
        lemma_node_count_pos(cs[0]);
        lemma_kids_count_nonneg(cs.drop_first());
    }
}

pub proof fn lemma_node_count_pos(n: DirNode)
    ensures
        node_count(n) >= 1,
    decreases n,
{
    lemma_kids_count_nonneg(n.children@);
}

/// A directory is a repository root exactly when the metadata subdirectory
/// exists directly under it.
pub fn is_git_repo(directory: &DirNode) -> (r: bool)
    ensures
        r == directory.has_metadata_dir,
{
    directory.has_metadata_dir
}

/// Whether a directory of this name is left out of a scan entirely.
pub fn is_skipped_dir_name(name: &str) -> (r: bool)
    ensures
        r == skip_dir_name(name@),
{
    if str_eq(name, ".git") {
        true
    } else {
        str_eq(name, "node_modules")
    }
}

} // verus!
