use filegram::fs_tree::{FsTree, NodeId, ScanNode, DIR_ENTRY_SIZE};

fn file(parent: usize, name: &str, size: u64) -> ScanNode {
    ScanNode {
        name: name.into(),
        path: format!("/test/{name}"),
        size,
        is_dir: false,
        parent,
    }
}

fn dir(parent: usize, name: &str) -> ScanNode {
    ScanNode {
        name: name.into(),
        path: format!("/test/{name}"),
        size: 0,
        is_dir: true,
        parent,
    }
}

#[test]
fn directory_size_aggregates_children() {
    let tree = FsTree::from_arena(&[
        dir(0, "root"),
        file(0, "a", 100),
        file(0, "b", 200),
        file(0, "c", 300),
    ]);
    assert_eq!(tree.node(tree.root).size, DIR_ENTRY_SIZE + 600);
}

#[test]
fn children_sorted_descending_by_size() {
    let tree = FsTree::from_arena(&[
        dir(0, "root"),
        file(0, "small", 100),
        file(0, "big", 300),
        file(0, "mid", 200),
    ]);
    let sizes: Vec<u64> = tree
        .node(tree.root)
        .children
        .iter()
        .map(|&id| tree.node(id).size)
        .collect();
    assert_eq!(sizes, vec![300, 200, 100]);
}

#[test]
fn nested_directories_aggregate_to_root() {
    let tree = FsTree::from_arena(&[
        dir(0, "root"),
        dir(0, "sub"),
        file(1, "a", 500),
        file(0, "b", 50),
    ]);
    let root = tree.node(tree.root);
    assert_eq!(root.size, DIR_ENTRY_SIZE + (DIR_ENTRY_SIZE + 500) + 50);
    let first = tree.node(root.children[0]);
    assert!(first.is_dir);
    assert_eq!(first.size, DIR_ENTRY_SIZE + 500);
}

#[test]
fn empty_directory_has_entry_size() {
    let tree = FsTree::from_arena(&[dir(0, "root")]);
    assert_eq!(tree.node(tree.root).size, DIR_ENTRY_SIZE);
    assert!(tree.node(tree.root).children.is_empty());
}

#[test]
fn interleaved_appends_resolve_to_same_tree() {
    let tree = FsTree::from_arena(&[
        dir(0, "root"),
        dir(0, "sub1"),
        dir(0, "sub2"),
        file(2, "in2", 700),
        file(1, "in1", 40),
        file(0, "top", 5),
    ]);
    let root = tree.node(tree.root);
    assert_eq!(
        root.size,
        DIR_ENTRY_SIZE + (DIR_ENTRY_SIZE + 40) + (DIR_ENTRY_SIZE + 700) + 5
    );
    let names: Vec<&str> = root
        .children
        .iter()
        .map(|&id| tree.node(id).name.as_str())
        .collect();
    assert_eq!(names, vec!["sub2", "sub1", "top"]);
}

#[test]
fn remove_child_updates_parent_and_ancestors() {
    let mut tree = FsTree::from_arena(&[
        dir(0, "root"),
        dir(0, "sub"),
        file(1, "a", 500),
        file(0, "top", 50),
    ]);
    let sub = NodeId(1);
    let root = tree.root;
    assert!(tree.remove_child(sub, NodeId(2), &[root]));
    assert!(tree.node(sub).children.is_empty());
    assert_eq!(tree.node(sub).size, DIR_ENTRY_SIZE);
    assert_eq!(tree.node(tree.root).size, DIR_ENTRY_SIZE * 2 + 50);
    assert_eq!(tree.node(tree.root).children.len(), 2);
}

#[test]
fn remove_child_saturates_on_broken_ancestors() {
    let mut tree = FsTree::from_arena(&[
        dir(0, "root"),
        dir(0, "sub"),
        file(1, "big", 500),
        file(0, "small", 10),
    ]);
    let small = NodeId(3);
    assert!(tree.remove_child(NodeId(1), NodeId(2), &[small]));
    assert_eq!(tree.node(small).size, 0);
}

#[test]
fn remove_child_rejects_non_direct_child() {
    let mut tree = FsTree::from_arena(&[dir(0, "root"), dir(0, "sub"), file(1, "a", 500)]);
    let before = tree.node(tree.root).size;
    let root = tree.root;
    assert!(!tree.remove_child(root, NodeId(2), &[]));
    assert_eq!(tree.node(tree.root).size, before);
    assert_eq!(tree.node(NodeId(1)).children.len(), 1);
}

#[test]
fn partial_arena_is_a_valid_snapshot() {
    let mut arena = vec![dir(0, "root"), dir(0, "sub"), file(0, "top", 10)];
    let partial = FsTree::from_arena(&arena);
    assert_eq!(partial.node(partial.root).size, DIR_ENTRY_SIZE * 2 + 10);
    let sub_id = partial.node(partial.root).children[0];
    assert_eq!(partial.node(sub_id).name.as_str(), "sub");

    arena.push(file(1, "late", 999));
    let full = FsTree::from_arena(&arena);
    assert_eq!(full.node(sub_id).name.as_str(), "sub");
    assert_eq!(full.node(sub_id).size, DIR_ENTRY_SIZE + 999);
    assert_eq!(full.node(sub_id).children.len(), 1);
}

#[test]
fn equal_sizes_keep_arena_order() {
    let tree = FsTree::from_arena(&[
        dir(0, "root"),
        file(0, "first", 70),
        file(0, "second", 70),
        file(0, "third", 90),
    ]);
    let names: Vec<&str> = tree
        .node(tree.root)
        .children
        .iter()
        .map(|&id| tree.node(id).name.as_str())
        .collect();
    assert_eq!(names, vec!["third", "first", "second"]);
}

#[test]
fn a_folder_weighs_its_entry_and_its_children() {
    let tree = FsTree::from_arena(&[
        dir(0, "root"),
        dir(0, "a"),
        dir(1, "b"),
        file(2, "x", 7),
        file(1, "y", 11),
    ]);
    for node in &tree.nodes {
        if node.is_dir {
            let children: u64 = node.children.iter().map(|&id| tree.node(id).size).sum();
            assert_eq!(node.size, DIR_ENTRY_SIZE + children, "{}", node.name);
        }
    }
}

#[test]
fn try_from_arena_builds_a_well_formed_arena() {
    let tree = FsTree::try_from_arena(&[
        dir(0, "root"),
        dir(0, "sub"),
        file(1, "deep", 70),
        file(0, "top", 30),
    ])
    .expect("a root with every entry after its parent");
    assert_eq!(tree.node(tree.root).size, DIR_ENTRY_SIZE * 2 + 100);
    assert_eq!(tree.node(NodeId(1)).size, DIR_ENTRY_SIZE + 70);
}

#[test]
fn try_from_arena_refuses_an_empty_arena() {
    assert!(FsTree::try_from_arena(&[]).is_none());
}

#[test]
fn try_from_arena_refuses_a_child_before_its_parent() {
    assert!(FsTree::try_from_arena(&[dir(0, "root"), file(2, "early", 5), dir(0, "late")]).is_none());
}

#[test]
fn try_from_arena_refuses_a_total_beyond_64_bits() {
    assert!(FsTree::try_from_arena(&[dir(0, "root"), file(0, "huge", u64::MAX - 10)]).is_none());
    assert!(FsTree::try_from_arena(&[dir(0, "root"), file(0, "big", u64::MAX - DIR_ENTRY_SIZE)]).is_some());
}

#[test]
fn root_size_is_the_total_of_every_entry() {
    // Whatever the nesting, each entry counts once at the root.
    let arena = [
        dir(0, "root"),
        dir(0, "a"),
        dir(1, "b"),
        file(2, "x", 11),
        file(1, "y", 22),
        file(0, "z", 33),
    ];
    let tree = FsTree::from_arena(&arena);
    assert_eq!(tree.node(tree.root).size, DIR_ENTRY_SIZE * 3 + 66);
}
