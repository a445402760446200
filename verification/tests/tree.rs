use gnostr_cleaner::listing::{split_entries, Entry};
use gnostr_cleaner::tree::Node;

#[test]
fn tree_node_from_listing() {
    let sub = Node::from_listing(Some("sub".to_string()), vec![Entry::File(Some("s.txt".to_string()))]);
    let node = Node::from_listing(
        Some(".git".to_string()),
        vec![Entry::Other, Entry::Dir(Some(Box::new(sub))), Entry::File(Some("HEAD".to_string())), Entry::File(None)],
    );
    assert_eq!(node.folder, ".git");
    assert_eq!(node.files, vec!["HEAD".to_string()]);
    assert_eq!(node.children.len(), 1);
    assert_eq!(node.children[0].folder, "sub");
    assert_eq!(node.children[0].files, vec!["s.txt".to_string()]);
}

#[test]
fn empty_listing_gives_empty_node() {
    let node = Node::from_listing(None, Vec::new());
    assert_eq!(node.folder, "");
    assert!(node.files.is_empty());
    assert!(node.children.is_empty());
}

#[test]
fn split_keeps_listing_order() {
    let (files, trees) = split_entries(vec![
        Entry::File(Some("b".to_string())),
        Entry::Dir(Some(2u32)),
        Entry::File(Some("a".to_string())),
        Entry::Dir(Some(1u32)),
        Entry::Dir(None),
    ]);
    assert_eq!(files, vec!["b".to_string(), "a".to_string()]);
    assert_eq!(trees, vec![2, 1]);
}
