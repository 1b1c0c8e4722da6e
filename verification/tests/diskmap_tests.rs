use filegram::diskmap::{
    rest_brick, brick_caption, brick_key, brick_label, plural, rest_label, zoom_direction, Brick, FileKind,
    Zoom,
};
use filegram::fs_tree::{FsNode, FsTree, NodeId, ScanNode};

fn nested_tree() -> FsTree {
    let node = |name: &str, parent: usize, size: u64, is_dir: bool| ScanNode {
        name: name.into(),
        path: "/root".to_string(),
        size,
        is_dir,
        parent,
    };
    FsTree::from_arena(&[
        node("root", 0, 0, true),
        node("sub", 0, 0, true),
        node("a", 1, 700, false),
        node("b", 1, 300, false),
        node("c", 0, 500, false),
    ])
}

#[test]
fn classify_maps_extensions_to_kinds() {
    let cases = [
        ("photo.JPG", FileKind::Image),
        ("clip.mp4", FileKind::Video),
        ("song.flac", FileKind::Audio),
        ("report.PDF", FileKind::Document),
        ("backup.tar.gz", FileKind::Archive),
        ("main.rs", FileKind::Code),
        ("page.ts", FileKind::Code),
        ("README", FileKind::Generic),
        (".gitignore", FileKind::Generic),
        ("data.unknownext", FileKind::Generic),
    ];
    for (name, expected) in cases {
        assert!(
            FileKind::classify(name) == expected,
            "classify({name:?}) mismatched"
        );
    }
}

#[test]
fn zoom_direction_detects_parent_child_navigation() {
    let tree = nested_tree();
    let (root, sub, file) = (NodeId(0), NodeId(1), NodeId(2));
    assert_eq!(zoom_direction(&tree, Some(root), sub), Zoom::In);
    assert_eq!(zoom_direction(&tree, Some(sub), root), Zoom::Out);
    assert_eq!(zoom_direction(&tree, None, root), Zoom::Snap);
    assert_eq!(zoom_direction(&tree, Some(root), root), Zoom::Snap);
    assert_eq!(zoom_direction(&tree, Some(file), NodeId(4)), Zoom::Snap);
    assert_eq!(zoom_direction(&tree, Some(NodeId(99)), root), Zoom::Snap);
    assert_eq!(zoom_direction(&tree, Some(root), NodeId(99)), Zoom::Snap);
}

#[test]
fn rest_label_lists_size_and_counts() {
    assert_eq!(rest_label(4, 2, 408_192), "… 398.6 KB (4 files, 2 folders)");
    assert_eq!(rest_label(1, 0, 500), "… 500 B (1 file)");
    assert_eq!(rest_label(0, 3, 12_288), "… 12.0 KB (3 folders)");
}

#[test]
fn rest_label_without_counts_keeps_the_parentheses() {
    assert_eq!(rest_label(0, 0, 0), "… 0 B ()");
}

#[test]
fn plural_adds_an_s_except_for_one() {
    assert_eq!(plural(0, "file"), "0 files");
    assert_eq!(plural(1, "file"), "1 file");
    assert_eq!(plural(21, "folder"), "21 folders");
}

#[test]
fn brick_captions_carry_the_name_and_the_size() {
    let tree = nested_tree();
    let (name, size) = brick_caption(&tree, NodeId(1));
    assert_eq!(name, "sub");
    assert_eq!(size, "5.0 KB");
    assert_eq!(brick_label(&tree, NodeId(4)), "c 500 B");
}

#[test]
fn bricks_are_matched_by_node_and_the_rest_by_its_place() {
    assert_eq!(brick_key(Brick::Node(NodeId(7))), Some(NodeId(7)));
    assert_eq!(brick_key(Brick::Rest { files: 3, dirs: 1, size: 9 }), None);
}

#[test]
fn classify_takes_the_text_after_the_last_dot() {
    assert!(FileKind::classify("archive.tar.GZ") == FileKind::Archive);
    assert!(FileKind::classify("notes.") == FileKind::Generic);
    assert!(FileKind::classify("Makefile.Toml") == FileKind::Code);
}

#[test]
fn the_rest_brick_counts_files_folders_and_their_size() {
    let tree = nested_tree();
    let folder = tree.node(NodeId(1)).size;
    assert_eq!(tree.node(NodeId(4)).size, 500);
    assert_eq!(
        rest_brick(&tree, &[NodeId(1), NodeId(4)]),
        Some(Brick::Rest { files: 1, dirs: 1, size: folder + 500 })
    );
    assert_eq!(
        rest_brick(&tree, &[NodeId(2), NodeId(3), NodeId(4)]),
        Some(Brick::Rest { files: 3, dirs: 0, size: 1_500 })
    );
    assert_eq!(rest_brick(&tree, &[]), Some(Brick::Rest { files: 0, dirs: 0, size: 0 }));
}

#[test]
fn a_rest_brick_too_large_for_a_u64_is_refused() {
    let huge = |name: &str| FsNode {
        name: name.into(),
        path: format!("/{}", name),
        size: u64::MAX,
        is_dir: false,
        children: Vec::new(),
    };
    let tree = FsTree { nodes: vec![huge("a"), huge("b")], root: NodeId(0) };
    assert_eq!(rest_brick(&tree, &[NodeId(0)]), Some(Brick::Rest { files: 1, dirs: 0, size: u64::MAX }));
    assert_eq!(rest_brick(&tree, &[NodeId(0), NodeId(1)]), None);
}
