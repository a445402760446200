//! Directory trees of a git folder in which every folder carries a content
//! hash over its name, its file names, its sub-folders' hashes and the branch
//! that git reports for it.

use vstd::prelude::*;
use vstd::utf8::{encode_utf8, encode_utf8_decode_utf8, is_ascii_chars, is_ascii_chars_encode_utf8};

use crate::digest::{sha256, sha256_digest};
use crate::listing::{file_names, split_entries, sub_trees, Entry};
use crate::text::{name_or_empty, opt_view, strings_view, lemma_trimmed_is_trimmed, trim_text, trimmed, utf8_text};
use vstd::utf8::{decode_utf8, valid_utf8};
use crate::hex::{hex_lower, is_lower_hex_char, is_lower_hex_text, lemma_hex_lower_shape, to_hex_lower};

verus! {

/// One folder of the tree: its name, the names of the files in it, its
/// sub-folders, its content hash and the git branch checked out there.
#[derive(Debug)]
pub struct Node {
    pub folder: String,
    pub files: Vec<String>,
    pub children: Vec<Box<Node>>,
    pub hash: String,
    pub branch: Option<String>,
}

/// The UTF-8 bytes of several strings, one after the other.
pub open spec fn concat_utf8(strs: Seq<Seq<char>>) -> Seq<u8>
    decreases strs.len(),
{
    if strs.len() == 0 {
        Seq::empty()
    } else {
        concat_utf8(strs.drop_last()) + encode_utf8(strs.last())
    }
}

/// The bytes that a folder's hash is computed over: the folder name, each
/// file name, each sub-folder's hash and, if there is one, the branch name,
/// in that order.
pub open spec fn hash_input(
    folder: Seq<char>,
    files: Seq<Seq<char>>,
    child_hashes: Seq<Seq<char>>,
    branch: Option<Seq<char>>,
) -> Seq<u8> {
    encode_utf8(folder) + concat_utf8(files) + concat_utf8(child_hashes) + match branch {
        Some(b) => encode_utf8(b),
        None => Seq::empty(),
    }
}

/// The hash of a folder with the given contents: the lower-case hex text of
/// the SHA-256 digest of `hash_input`.
pub open spec fn content_hash(
    folder: Seq<char>,
    files: Seq<Seq<char>>,
    child_hashes: Seq<Seq<char>>,
    branch: Option<Seq<char>>,
) -> Seq<char> {
    hex_lower(sha256(hash_input(folder, files, child_hashes, branch)))
}

/// The stored hash of each sub-folder.
pub open spec fn hashes_of(children: Seq<Box<Node>>) -> Seq<Seq<char>> {
    children.map_values(|c: Box<Node>| c.hash@)
}

/// Every text is 64 lower-case hex digits, as every current folder hash is.
pub open spec fn all_full_hashes(hs: Seq<Seq<char>>) -> bool {
    forall|i: int| 0 <= i < hs.len() ==> (#[trigger] hs[i]).len() == 64 && is_lower_hex_text(hs[i])
}

proof fn lemma_full_hash_bytes(h: Seq<char>)
    requires
        h.len() == 64,
        is_lower_hex_text(h),
    ensures
        encode_utf8(h).len() == 64,
{
    assert(is_ascii_chars(h)) by {
        assert forall|i: int| 0 <= i < h.len() implies '\0' <= #[trigger] h[i] <= '\u{7f}' by {
            assert(is_lower_hex_char(h[i]));
        }
    }
    is_ascii_chars_encode_utf8(h);
}

proof fn lemma_concat_full_hashes_len(hs: Seq<Seq<char>>)
    requires
        all_full_hashes(hs),
    ensures
        concat_utf8(hs).len() == 64 * hs.len(),
    decreases hs.len(),
{
    if hs.len() > 0 {
        assert(all_full_hashes(hs.drop_last())) by {
            assert forall|i: int| 0 <= i < hs.drop_last().len() implies (#[trigger] hs.drop_last()[i]).len() == 64
                && is_lower_hex_text(hs.drop_last()[i]) by {
                assert(hs.drop_last()[i] == hs[i]);
            }
        }
        lemma_concat_full_hashes_len(hs.drop_last());
        lemma_full_hash_bytes(hs.last());
    }
}

proof fn lemma_concat_full_hashes_injective(h1: Seq<Seq<char>>, h2: Seq<Seq<char>>)
    requires
        all_full_hashes(h1),
        all_full_hashes(h2),
        concat_utf8(h1) == concat_utf8(h2),
    ensures
        h1 == h2,
    decreases h1.len(),
{
    lemma_concat_full_hashes_len(h1);
    lemma_concat_full_hashes_len(h2);
    assert(h1.len() == h2.len());
    if h1.len() > 0 {
        let n = h1.len() as int;
        let a1 = h1.drop_last();
        let a2 = h2.drop_last();
        assert(all_full_hashes(a1)) by {
            assert forall|i: int| 0 <= i < a1.len() implies (#[trigger] a1[i]).len() == 64 && is_lower_hex_text(a1[i]) by {
                assert(a1[i] == h1[i]);
            }
        }
        assert(all_full_hashes(a2)) by {
            assert forall|i: int| 0 <= i < a2.len() implies (#[trigger] a2[i]).len() == 64 && is_lower_hex_text(a2[i]) by {
                assert(a2[i] == h2[i]);
            }
        }
        lemma_concat_full_hashes_len(a1);
        lemma_concat_full_hashes_len(a2);
        let c1 = concat_utf8(h1);
        let e1 = encode_utf8(h1.last());
        let e2 = encode_utf8(h2.last());
        assert(c1 == concat_utf8(a1) + e1);
        assert(concat_utf8(h2) == concat_utf8(a2) + e2);
        let cut = 64 * (n - 1);
        assert(c1.subrange(0, cut) =~= concat_utf8(a1));
        assert(c1.subrange(0, cut) =~= concat_utf8(a2));
        assert(c1.subrange(cut, c1.len() as int) =~= e1);
        assert(c1.subrange(cut, c1.len() as int) =~= e2);
        encode_utf8_decode_utf8(h1.last());
        encode_utf8_decode_utf8(h2.last());
        lemma_concat_full_hashes_injective(a1, a2);
        assert(h1 =~= a1.push(h1.last()));
        assert(h2 =~= a2.push(h2.last()));
    }
}

/// A folder's hash input binds every sub-folder hash: two folders with the
/// same name, file names and branch whose sub-folder hashes are all 64 hex
/// digits have the same hash input only when they have the same sub-folder
/// hashes, in the same order; a change in any one sub-folder's hash, or one
/// sub-folder more or less, changes the input.
pub proof fn lemma_hash_input_binds_child_hashes(
    folder: Seq<char>,
    files: Seq<Seq<char>>,
    h1: Seq<Seq<char>>,
    h2: Seq<Seq<char>>,
    branch: Option<Seq<char>>,
)
    requires
        all_full_hashes(h1),
        all_full_hashes(h2),
        hash_input(folder, files, h1, branch) == hash_input(folder, files, h2, branch),
    ensures
        h1 == h2,
{
    let pre = encode_utf8(folder) + concat_utf8(files);
    let post = match branch {
        Some(b) => encode_utf8(b),
        None => Seq::<u8>::empty(),
    };
    let x1 = hash_input(folder, files, h1, branch);
    let x2 = hash_input(folder, files, h2, branch);
    assert(x1 =~= pre + concat_utf8(h1) + post);
    assert(x2 =~= pre + concat_utf8(h2) + post);
    lemma_concat_full_hashes_len(h1);
    lemma_concat_full_hashes_len(h2);
    assert(concat_utf8(h1).len() == concat_utf8(h2).len());
    let lo = pre.len() as int;
    let hi = lo + concat_utf8(h1).len();
    assert(x1.subrange(lo, hi) =~= concat_utf8(h1));
    assert(x2.subrange(lo, hi) =~= concat_utf8(h2));
    lemma_concat_full_hashes_injective(h1, h2);
}

/// Two trees hold the same text in every field, at every level.
pub open spec fn same_tree(a: Node, b: Node) -> bool
    decreases a,
{
    &&& a.folder@ == b.folder@
    &&& strings_view(a.files@) == strings_view(b.files@)
    &&& a.hash@ == b.hash@
    &&& opt_view(a.branch) == opt_view(b.branch)
    &&& a.children@.len() == b.children@.len()
    &&& forall|i: int|
        0 <= i < a.children@.len() ==> same_tree(*#[trigger] a.children@[i], *b.children@[i])
}

/// Every node of the tree, this one included, stores the 64-digit hash that
/// its contents call for, so each hash covers the hashes below it.
pub open spec fn tree_hashes_current(n: Node) -> bool
    decreases n,
{
    &&& n.hash_is_current()
    &&& n.hash@.len() == 64
    &&& forall|i: int|
        0 <= i < n.children@.len() ==> tree_hashes_current(*#[trigger] n.children@[i])
}

/// Two nodes hold the same text in every field but their own hash: same
/// folder name, file names and branch, and sub-trees that are alike at every
/// level, hashes included.
pub open spec fn same_content(a: Node, b: Node) -> bool {
    &&& a.folder@ == b.folder@
    &&& strings_view(a.files@) == strings_view(b.files@)
    &&& opt_view(a.branch) == opt_view(b.branch)
    &&& a.children@.len() == b.children@.len()
    &&& forall|i: int|
        0 <= i < a.children@.len() ==> same_tree(*#[trigger] a.children@[i], *b.children@[i])
}

proof fn lemma_concat_utf8_push(strs: Seq<Seq<char>>, s: Seq<char>)
    ensures
        concat_utf8(strs.push(s)) == concat_utf8(strs) + encode_utf8(s),
{
    assert(strs.push(s).drop_last() =~= strs);
}

impl Node {
    /// The hash that the node's own contents call for.
    pub open spec fn expected_hash(&self) -> Seq<char> {
        content_hash(
            self.folder@,
            strings_view(self.files@),
            hashes_of(self.children@),
            opt_view(self.branch),
        )
    }

    /// The stored hash is the one its contents call for.
    pub open spec fn hash_is_current(&self) -> bool {
        self.hash@ == self.expected_hash()
    }

    /// Hashes the folder name, each file name, each sub-folder's stored hash
    /// and the branch name, if any, in that order, with SHA-256, and renders
    /// the digest in lower-case hex.
    pub fn calculate_hash(&self) -> (r: String)
        ensures
            r@ == self.expected_hash(),
            r@.len() == 64,
            is_lower_hex_text(r@),
    {
        let mut data: Vec<u8> = Vec::new();
        data.extend_from_slice(self.folder.as_str().as_bytes());
        assert(data@ =~= encode_utf8(self.folder@));
        let ghost files = strings_view(self.files@);
        let mut i: usize = 0;
        while i < self.files.len()
            invariant
                i <= self.files@.len(),
                files == strings_view(self.files@),
                data@ == encode_utf8(self.folder@) + concat_utf8(files.take(i as int)),
            decreases self.files@.len() - i,
        {
            let ghost before = data@;
            data.extend_from_slice(self.files[i].as_str().as_bytes());
            proof {
                assert(data@ =~= before + encode_utf8(self.files@[i as int]@));
                assert(files.take(i + 1) =~= files.take(i as int).push(self.files@[i as int]@));
                lemma_concat_utf8_push(files.take(i as int), self.files@[i as int]@);
            }
            i = i + 1;
        }
        assert(files.take(i as int) =~= files);
        let ghost prefix = data@;
        let ghost hashes = hashes_of(self.children@);
        let mut j: usize = 0;
        while j < self.children.len()
            invariant
                j <= self.children@.len(),
                hashes == hashes_of(self.children@),
                data@ == prefix + concat_utf8(hashes.take(j as int)),
            decreases self.children@.len() - j,
        {
            let ghost before = data@;
            data.extend_from_slice(self.children[j].hash.as_str().as_bytes());
            proof {
                assert(data@ =~= before + encode_utf8(self.children@[j as int].hash@));
                assert(hashes.take(j + 1) =~= hashes.take(j as int).push(self.children@[j as int].hash@));
                lemma_concat_utf8_push(hashes.take(j as int), self.children@[j as int].hash@);
            }
            j = j + 1;
        }
        assert(hashes.take(j as int) =~= hashes);
        let ghost before_branch = data@;
        match &self.branch {
            Some(b) => {
                data.extend_from_slice(b.as_str().as_bytes());
                assert(data@ =~= before_branch + encode_utf8(b@));
            },
            None => {},
        }
        assert(data@ =~= hash_input(self.folder@, files, hashes, opt_view(self.branch)));
        let digest = sha256_digest(data.as_slice());
        proof {
            lemma_hex_lower_shape(digest@);
        }
        to_hex_lower(digest.as_slice())
    }

    /// Builds a node from its contents and stores the hash they call for.
    pub fn new(folder: String, files: Vec<String>, children: Vec<Box<Node>>, branch: Option<String>) -> (node: Node)
        ensures
            node.folder == folder,
            node.files == files,
            node.children == children,
            node.branch == branch,
            node.hash_is_current(),
            node.hash@.len() == 64,
            is_lower_hex_text(node.hash@),
            (forall|i: int| 0 <= i < children@.len() ==> tree_hashes_current(*#[trigger] children@[i]))
                ==> tree_hashes_current(node),
    {
        let mut node = Node { folder, files, children, hash: String::new(), branch };
        node.hash = node.calculate_hash();
        node
    }

    /// Builds the node for a folder from its name (empty where the name could
    /// not be read), its directory listing and its branch: the files with a
    /// readable name and the sub-trees built for its sub-directories, in
    /// listing order, with the hash they call for.
    pub fn from_listing(folder: Option<String>, entries: Vec<Entry<Box<Node>>>, branch: Option<String>) -> (node: Node)
        ensures
            node.folder@ == name_or_empty(folder),
            strings_view(node.files@) == file_names(entries@),
            node.children@ == sub_trees(entries@),
            node.branch == branch,
            node.hash_is_current(),
            node.hash@.len() == 64,
            is_lower_hex_text(node.hash@),
            (forall|i: int|
                0 <= i < sub_trees(entries@).len() ==> tree_hashes_current(*#[trigger] sub_trees(entries@)[i]))
                ==> tree_hashes_current(node),
    {
        let (files, children) = split_entries(entries);
        let folder = match folder {
            Some(name) => name,
            None => String::new(),
        };
        Node::new(folder, files, children, branch)
    }

    /// A copy of the node whose hash is recomputed from its contents; the
    /// contents themselves are copied unchanged.
    pub fn clone_with_new_hash(&self) -> (r: Node)
        ensures
            same_content(r, *self),
            r.hash_is_current(),
            r.hash@.len() == 64,
            is_lower_hex_text(r.hash@),
    {
        let mut cloned = self.clone();
        cloned.hash = cloned.calculate_hash();
        cloned
    }
}

/// A folder's hash is a function of its contents: two nodes with the same
/// folder name, file names, branch and sub-folder hashes call for the same
/// hash.
pub proof fn lemma_hash_depends_only_on_content(a: Node, b: Node)
    requires
        same_content(a, b),
    ensures
        a.expected_hash() == b.expected_hash(),
{
    assert forall|i: int| 0 <= i < a.children@.len() implies a.children@[i].hash@ == b.children@[i].hash@ by {
        assert(same_tree(*a.children@[i], *b.children@[i]));
    }
    assert(hashes_of(a.children@) =~= hashes_of(b.children@));
}

/// Re-hashing a node whose stored hash is current changes nothing: a copy
/// with the same contents and a current hash is equal to it in every field,
/// at every level.
pub proof fn lemma_rehash_of_current_node(n: Node, r: Node)
    requires
        n.hash_is_current(),
        same_content(r, n),
        r.hash_is_current(),
    ensures
        same_tree(r, n),
{
    lemma_hash_depends_only_on_content(r, n);
}

/// What a walk read of one folder: its name (where it could be read), its
/// directory listing, with the listings of its sub-directories in place, and
/// the git branch reported for it.
#[derive(Debug)]
pub struct FolderListing {
    pub folder: Option<String>,
    pub entries: Vec<Entry<FolderListing>>,
    pub branch: Option<String>,
}

/// The tree was built from the walk: each node holds its folder's name (empty
/// where it could not be read), the readable file names and the branch, and
/// its sub-trees were built, in order, from the listings of its
/// sub-directories.
pub open spec fn built_from(n: Node, l: FolderListing) -> bool
    decreases n,
{
    &&& n.folder@ == name_or_empty(l.folder)
    &&& strings_view(n.files@) == file_names(l.entries@)
    &&& n.branch == l.branch
    &&& n.children@.len() == sub_trees(l.entries@).len()
    &&& forall|i: int|
        0 <= i < n.children@.len() ==> built_from(*#[trigger] n.children@[i], sub_trees(l.entries@)[i])
}

proof fn lemma_file_names_push<T>(s: Seq<Entry<T>>, e: Entry<T>)
    ensures
        file_names(s.push(e)) == match e {
            Entry::File(Some(name)) => file_names(s).push(name@),
            _ => file_names(s),
        },
        sub_trees(s.push(e)) == match e {
            Entry::Dir(Some(t)) => sub_trees(s).push(t),
            _ => sub_trees(s),
        },
{
    assert(s.push(e).drop_last() =~= s);
}

/// Builds the whole hashed tree of a walk, bottom-up: every folder becomes a
/// node by `Node::from_listing`, after its sub-folders. Every node of the
/// result, the root included, stores the 64-digit hash its contents call for.
pub fn build_tree(listing: FolderListing) -> (node: Node)
    ensures
        tree_hashes_current(node),
        built_from(node, listing),
    decreases listing,
{
    let ghost whole = listing;
    let FolderListing { folder, entries, branch } = listing;
    let ghost all = entries@;
    assert(all.len() == entries.len());
    let mut rest = entries;
    let mut converted: Vec<Entry<Box<Node>>> = Vec::new();
    let mut k: usize = 0;
    while rest.len() > 0
        invariant
            whole == listing,
            all == whole.entries@,
            all.len() <= usize::MAX,
            k <= all.len(),
            rest@ == all.skip(k as int),
            rest@.len() == all.len() - k,
            file_names(converted@) == file_names(all.take(k as int)),
            sub_trees(converted@).len() == sub_trees(all.take(k as int)).len(),
            forall|i: int|
                0 <= i < sub_trees(converted@).len() ==> tree_hashes_current(
                    *#[trigger] sub_trees(converted@)[i],
                ),
            forall|i: int|
                0 <= i < sub_trees(converted@).len() ==> built_from(
                    *#[trigger] sub_trees(converted@)[i],
                    sub_trees(all.take(k as int))[i],
                ),
        decreases rest@.len(),
    {
        assert(k < all.len());
        let entry = rest.remove(0);
        let ghost e = entry;
        assert(e == all[k as int]);
        let ghost before = converted@;
        let c: Entry<Box<Node>> = match entry {
            Entry::File(name) => Entry::File(name),
            Entry::Dir(Some(sub)) => {
                proof {
                    assert(decreases_to!(whole => whole.entries));
                    assert(decreases_to!(whole.entries => whole.entries@));
                    assert(decreases_to!(whole.entries@ => whole.entries@[k as int]));
                    assert(e == whole.entries@[k as int]);
                    assert(decreases_to!(whole.entries@[k as int] => e->Dir_0));
                    assert(decreases_to!(e->Dir_0 => sub));
                    assert(decreases_to!(whole => sub));
                }
                Entry::Dir(Some(Box::new(build_tree(sub))))
            },
            Entry::Dir(None) => Entry::Dir(None),
            Entry::Other => Entry::Other,
        };
        let ghost cg = c;
        converted.push(c);
        proof {
            assert(all.take(k + 1) =~= all.take(k as int).push(all[k as int]));
            lemma_file_names_push(before, cg);
            lemma_file_names_push(all.take(k as int), all[k as int]);
            assert forall|i: int| 0 <= i < sub_trees(converted@).len() implies tree_hashes_current(
                *#[trigger] sub_trees(converted@)[i],
            ) && built_from(*sub_trees(converted@)[i], sub_trees(all.take(k + 1))[i]) by {
                if i < sub_trees(before).len() {
                    assert(sub_trees(converted@)[i] == sub_trees(before)[i]);
                    assert(sub_trees(all.take(k + 1))[i] == sub_trees(all.take(k as int))[i]);
                }
            }
        }
        assert(rest@ =~= all.skip(k + 1));
        k = k + 1;
    }
    assert(all.take(k as int) =~= all);
    let node = Node::from_listing(folder, converted, branch);
    assert(node.children@ == sub_trees(converted@));
    node
}

/// The branch that a finished `git rev-parse --abbrev-ref HEAD` reports: its
/// output with surrounding white space removed, where the command succeeded
/// and printed valid UTF-8; no branch otherwise.
pub fn branch_from_output(succeeded: bool, stdout: &[u8]) -> (r: Option<String>)
    ensures
        r is Some <==> succeeded && valid_utf8(stdout@),
        r matches Some(b) ==> b@ == trimmed(decode_utf8(stdout@)),
        r matches Some(b) ==> trimmed(b@) == b@,
{
    if succeeded {
        match utf8_text(stdout) {
            Some(text) => {
                proof {
                    lemma_trimmed_is_trimmed(text@);
                }
                Some(trim_text(text))
            },
            None => None,
        }
    } else {
        None
    }
}

impl Clone for Node {
    /// A deep copy, equal to the original in every field, at every level.
    fn clone(&self) -> (r: Self)
        ensures
            same_tree(r, *self),
        decreases self,
    {
        let mut children: Vec<Box<Node>> = Vec::new();
        let mut i: usize = 0;
        while i < self.children.len()
            invariant
                i <= self.children@.len(),
                children@.len() == i,
            forall|k: int| 0 <= k < i ==> same_tree(*#[trigger] children@[k], *self.children@[k]),
            decreases self.children@.len() - i,
        {
            proof {
                assert(decreases_to!(self => self.children));
                assert(decreases_to!(self.children => self.children@));
                assert(decreases_to!(self.children@ => self.children@[i as int]));
            }
            let child: &Node = &self.children[i];
            let copy = Box::new(child.clone());
            children.push(copy);
            i = i + 1;
        }
        let mut files: Vec<String> = Vec::new();
        let mut k: usize = 0;
        while k < self.files.len()
            invariant
                k <= self.files@.len(),
                files@ == self.files@.take(k as int),
            decreases self.files@.len() - k,
        {
            files.push(self.files[k].clone());
            assert(files@ =~= self.files@.take(k + 1));
            k = k + 1;
        }
        assert(files@ =~= self.files@);
        let branch = match &self.branch {
            Some(b) => Some(b.clone()),
            None => None,
        };
        Node { folder: self.folder.clone(), files, children, hash: self.hash.clone(), branch }
    }
}

} // verus!
