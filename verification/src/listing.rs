//! What a directory listing contributes to a folder node: the names of its
//! files and the sub-trees built for its sub-directories, each in listing
//! order.

use vstd::prelude::*;

verus! {

/// One entry of a directory listing, as the walker saw it.
#[derive(Debug)]
pub enum Entry<T> {
    /// A regular file; its name, where the name is valid UTF-8.
    File(Option<String>),
    /// A sub-directory; the sub-tree built for it, where one was built.
    Dir(Option<T>),
    /// Anything that is neither a file nor a directory.
    Other,
}

/// The file names that a listing contributes, in order: those of the files
/// whose name could be read.
pub open spec fn file_names<T>(entries: Seq<Entry<T>>) -> Seq<Seq<char>>
    decreases entries.len(),
{
    if entries.len() == 0 {
        Seq::empty()
    } else {
        let rest = file_names(entries.drop_last());
        match entries.last() {
            Entry::File(Some(name)) => rest.push(name@),
            _ => rest,
        }
    }
}

/// The sub-trees that a listing contributes, in order: those built for its
/// sub-directories.
pub open spec fn sub_trees<T>(entries: Seq<Entry<T>>) -> Seq<T>
    decreases entries.len(),
{
    if entries.len() == 0 {
        Seq::empty()
    } else {
        let rest = sub_trees(entries.drop_last());
        match entries.last() {
            Entry::Dir(Some(tree)) => rest.push(tree),
            _ => rest,
        }
    }
}

/// Sorts a listing into the folder's file names and its sub-trees, keeping
/// the listing's order; files without a readable name, directories without a
/// sub-tree and other entries are passed over.
pub fn split_entries<T>(entries: Vec<Entry<T>>) -> (r: (Vec<String>, Vec<T>))
    ensures
        r.0@.map_values(|s: String| s@) == file_names(entries@),
        r.1@ == sub_trees(entries@),
{
    let ghost all = entries@;
    assert(all.len() == entries.len());
    let mut rest = entries;
    let mut files: Vec<String> = Vec::new();
    let mut trees: Vec<T> = Vec::new();
    let mut k: usize = 0;
    while rest.len() > 0
        invariant
            k <= all.len(),
            all.len() <= usize::MAX,
            rest@ == all.skip(k as int),
            rest@.len() == all.len() - k,
            files@.map_values(|s: String| s@) == file_names(all.take(k as int)),
            trees@ == sub_trees(all.take(k as int)),
        decreases rest@.len(),
    {
        assert(rest@.len() > 0);
        assert(k < all.len());
        let entry = rest.remove(0);
        proof {
            assert(all.take(k + 1).drop_last() =~= all.take(k as int));
            assert(all.take(k + 1).last() == all[k as int]);
        }
        match entry {
            Entry::File(Some(name)) => {
                files.push(name);
                assert(files@.map_values(|s: String| s@) =~= file_names(all.take(k as int)).push(
                    all[k as int]->File_0->0@,
                ));
            },
            Entry::Dir(Some(tree)) => {
                trees.push(tree);
            },
            _ => {},
        }
        assert(rest@ =~= all.skip(k + 1));
        k = k + 1;
    }
    assert(all.take(k as int) =~= all);
    (files, trees)
}

} // verus!
