//! Plain directory trees of a git folder: each folder with the names of its
//! files and its sub-folders.

use vstd::prelude::*;

use crate::listing::{file_names, split_entries, sub_trees, Entry};
use crate::text::{name_or_empty, strings_view};

verus! {

/// One folder of the tree.
#[derive(Debug)]
pub struct Node {
    pub folder: String,
    pub files: Vec<String>,
    pub children: Vec<Box<Node>>,
}

impl Node {
    /// Builds the node for a folder from its name (empty where the name could
    /// not be read) and its directory listing: the files with a readable name
    /// and the sub-trees built for its sub-directories, in listing order.
    pub fn from_listing(folder: Option<String>, entries: Vec<Entry<Box<Node>>>) -> (node: Node)
        ensures
            node.folder@ == name_or_empty(folder),
            strings_view(node.files@) == file_names(entries@),
            node.children@ == sub_trees(entries@),
    {
        let (files, children) = split_entries(entries);
        let folder = match folder {
            Some(name) => name,
            None => String::new(),
        };
        Node { folder, files, children }
    }
}

} // verus!
