use gnostr_cleaner::branches::{branch_from_output, build_tree, FolderListing, Node};
use gnostr_cleaner::text::trim_text;
use gnostr_cleaner::hex::to_hex_lower;
use gnostr_cleaner::keys::keys_for_node;
use gnostr_cleaner::listing::Entry;

fn sample() -> Node {
    Node::new(
        "test_folder".to_string(),
        vec!["file1.txt".to_string(), "file2.txt".to_string()],
        vec![],
        Some("main".to_string()),
    )
}

#[test]
fn test_node_calculate_hash() {
    let node = Node::new(
        "test_folder".to_string(),
        vec!["file1.txt".to_string(), "file2.txt".to_string()],
        vec![],
        Some("main".to_string()),
    );
    let hash = node.calculate_hash();
    assert!(!hash.is_empty());
}

#[test]
fn test_node_clone_with_new_hash() {
    let node1 = Node::new(
        "test_folder".to_string(),
        vec!["file1.txt".to_string(), "file2.txt".to_string()],
        vec![],
        Some("main".to_string()),
    );
    let node2 = node1.clone_with_new_hash();
    assert_eq!(node1.hash, node2.hash);
    assert_eq!(node1.folder, node2.folder);
    assert_eq!(node1.branch, node2.branch);
}

#[test]
fn hash_is_sha256_of_fields_in_order() {
    let node = sample();
    assert_eq!(node.hash, "86315e70ab5d19fe5bec4020fe7ee9ba582d2ba3f9c72a6c48bc28c340e69fb1");
    assert_eq!(node.calculate_hash(), node.hash);
}

#[test]
fn hash_of_empty_node_is_digest_of_nothing() {
    let node = Node::new(String::new(), vec![], vec![], None);
    assert_eq!(node.hash, "e3b0c44298fc1c149afbf4c8996fb92427ae41e4649b934ca495991b7852b855");
}

#[test]
fn hash_covers_children_hashes_and_branch() {
    let leaf = Node::new("leaf".to_string(), vec![], vec![], None);
    assert_eq!(leaf.hash, "9f91161f43433e49a6de6db680d79f60159f2e4ac9172621a12846428158440b");
    let root = Node::new(
        "root".to_string(),
        vec!["a.txt".to_string()],
        vec![Box::new(leaf)],
        Some("dev".to_string()),
    );
    assert_eq!(root.hash, "cffd1bd0a4d843afcb936d94c5cd8bf22b1ad02465b2855f0cf77ab564a1f56b");
    assert_eq!(root.hash.len(), 64);
}

#[test]
fn clone_is_deep_and_equal() {
    let leaf = Node::new("leaf".to_string(), vec!["x".to_string()], vec![], None);
    let root = Node::new("root".to_string(), vec![], vec![Box::new(leaf)], Some("dev".to_string()));
    let copy = root.clone();
    assert_eq!(copy.folder, root.folder);
    assert_eq!(copy.hash, root.hash);
    assert_eq!(copy.children.len(), 1);
    assert_eq!(copy.children[0].files, vec!["x".to_string()]);
    assert_eq!(copy.children[0].hash, root.children[0].hash);
}

#[test]
fn rehash_repairs_a_stale_hash() {
    let mut node = sample();
    node.hash = "stale".to_string();
    let fixed = node.clone_with_new_hash();
    assert_eq!(fixed.hash, "86315e70ab5d19fe5bec4020fe7ee9ba582d2ba3f9c72a6c48bc28c340e69fb1");
    assert_eq!(node.hash, "stale");
}

#[test]
fn from_listing_keeps_readable_files_and_built_subtrees() {
    let sub = Node::from_listing(Some("sub_dir".to_string()), vec![Entry::File(Some("sub_file.txt".to_string()))], None);
    let entries = vec![
        Entry::File(Some("test_file.txt".to_string())),
        Entry::File(None),
        Entry::Other,
        Entry::Dir(Some(Box::new(sub))),
        Entry::Dir(None),
    ];
    let node = Node::from_listing(None, entries, None);
    assert_eq!(node.folder, "");
    assert_eq!(node.files, vec!["test_file.txt".to_string()]);
    assert_eq!(node.children.len(), 1);
    assert_eq!(node.children[0].folder, "sub_dir".to_string());
    assert_eq!(node.children[0].files, vec!["sub_file.txt".to_string()]);
    assert!(node.branch.is_none());
    assert_eq!(node.hash, node.calculate_hash());
}

#[test]
fn branch_is_trimmed_output_of_a_successful_command() {
    assert_eq!(branch_from_output(true, b"test_branch\n"), Some("test_branch".to_string()));
    assert_eq!(branch_from_output(true, b"  main \r\n"), Some("main".to_string()));
    assert_eq!(branch_from_output(false, b"main\n"), None);
    assert_eq!(branch_from_output(true, &[0xff, 0xfe]), None);
}

#[test]
fn hex_is_lower_case_two_digits_per_byte() {
    assert_eq!(to_hex_lower(&[0x0a, 0x14, 0x1e]), "0a141e");
    assert_eq!(to_hex_lower(&[0xff, 0x00, 0xab]), "ff00ab");
    assert_eq!(to_hex_lower(&[]), "");
}

#[test]
fn keys_come_from_the_hash_when_it_is_a_valid_secret() {
    let node = sample();
    let (secret, public) = keys_for_node(&node).expect("a valid secret");
    assert_eq!(to_hex_lower(&secret), node.hash);
    let keys = nostr_sdk::Keys::parse(&node.hash).unwrap();
    assert_eq!(public, keys.public_key().to_bytes());

    let mut zero = sample();
    zero.hash = "0".repeat(64);
    assert!(keys_for_node(&zero).is_none());

    let mut too_big = sample();
    too_big.hash = "f".repeat(64);
    assert!(keys_for_node(&too_big).is_none());
}

#[test]
fn trim_removes_unicode_white_space_at_both_ends_only() {
    assert_eq!(trim_text("  a b\t\n"), "a b");
    assert_eq!(trim_text("\u{3000}\u{a0}x\u{2029}"), "x");
    assert_eq!(trim_text(" \r\n "), "");
    assert_eq!(trim_text(""), "");
    assert_eq!(trim_text("\u{200b}x"), "\u{200b}x");
    let once = trim_text(" \u{85} main \u{2003}");
    assert_eq!(once, "main");
    assert_eq!(trim_text(&once), once);
}

fn check_hashes(n: &Node) {
    assert_eq!(n.hash, n.calculate_hash());
    assert_eq!(n.hash.len(), 64);
    for c in &n.children {
        check_hashes(c);
    }
}

#[test]
fn every_node_of_a_built_tree_has_a_current_hash() {
    let leaf = Node::from_listing(Some("leaf".to_string()), vec![Entry::File(Some("f".to_string()))], None);
    let mid = Node::from_listing(Some("mid".to_string()), vec![Entry::Dir(Some(Box::new(leaf)))], Some("dev".to_string()));
    let root = Node::from_listing(Some("root".to_string()), vec![Entry::Dir(Some(Box::new(mid)))], None);
    check_hashes(&root);
}

#[test]
fn build_tree_hashes_every_level() {
    let leaf = FolderListing {
        folder: Some("leaf".to_string()),
        entries: vec![Entry::File(Some("f".to_string())), Entry::File(None)],
        branch: None,
    };
    let root = FolderListing {
        folder: Some("root".to_string()),
        entries: vec![Entry::Other, Entry::Dir(Some(leaf)), Entry::Dir(None), Entry::File(Some("a.txt".to_string()))],
        branch: Some("dev".to_string()),
    };
    let node = build_tree(root);
    assert_eq!(node.folder, "root");
    assert_eq!(node.files, vec!["a.txt".to_string()]);
    assert_eq!(node.branch, Some("dev".to_string()));
    assert_eq!(node.children.len(), 1);
    assert_eq!(node.children[0].folder, "leaf");
    assert_eq!(node.children[0].files, vec!["f".to_string()]);
    check_hashes(&node);
}
