//! The map's decisions that need no geometry: brick identities, captions,
//! file categories and the direction of a level change.

use vstd::prelude::*;
use crate::format::{human_size, human_size_text};
use crate::fs_tree::{FsNode, FsTree, NodeId};
use crate::text::{
    ascii_lower, chars_of, decimal, last_index_of, lemma_last_index_of, push_decimal, push_str,
    string_of, to_ascii_lower,
};

verus! {

/// A first-level map tile: either a real tree node or the aggregate rest
/// brick that collapses the tail of small items.
#[derive(Debug, Clone, Copy, PartialEq, Eq, Structural)]
pub enum Brick {
    Node(NodeId),
    Rest { files: usize, dirs: usize, size: u64 },
}

/// "N word" with a naive English plural (an "s" suffix unless N == 1).
pub open spec fn plural_text(n: nat, word: Seq<char>) -> Seq<char> {
    decimal(n) + seq![' '] + word + if n == 1 {
        Seq::<char>::empty()
    } else {
        seq!['s']
    }
}

/// "N word" with a naive English plural (an "s" suffix unless N == 1).
pub fn plural(n: u64, word: &str) -> (s: String)
    ensures
        s@ == plural_text(n as nat, word@),
{
    let mut out: Vec<char> = Vec::new();
    push_decimal(&mut out, n);
    out.push(' ');
    push_str(&mut out, word);
    if n != 1 {
        out.push('s');
    }
    proof {
        assert(out@ =~= plural_text(n as nat, word@));
    }
    string_of(out.as_slice())
}

/// The rest brick caption: `… SIZE (N files, M folders)`, each count only
/// when it is not zero.
pub open spec fn rest_label_text(files: nat, dirs: nat, size: nat) -> Seq<char> {
    let f = plural_text(files, "file"@);
    let d = plural_text(dirs, "folder"@);
    let counts = if files > 0 && dirs > 0 {
        f + seq![',', ' '] + d
    } else if files > 0 {
        f
    } else if dirs > 0 {
        d
    } else {
        Seq::empty()
    };
    seq!['…', ' '] + human_size_text(size) + seq![' ', '('] + counts + seq![')']
}

/// The rest brick caption: combined size and the collapsed entry counts.
pub fn rest_label(files: usize, dirs: usize, size: u64) -> (s: String)
    ensures
        s@ == rest_label_text(files as nat, dirs as nat, size as nat),
{
    let mut out: Vec<char> = Vec::new();
    out.push('…');
    out.push(' ');
    let shown = human_size(size);
    push_str(&mut out, shown.as_str());
    out.push(' ');
    out.push('(');
    let ghost head = out@;
    if files > 0 {
        let f = plural(files as u64, "file");
        push_str(&mut out, f.as_str());
    }
    if dirs > 0 {
        if files > 0 {
            out.push(',');
            out.push(' ');
        }
        let d = plural(dirs as u64, "folder");
        push_str(&mut out, d.as_str());
    }
    out.push(')');
    proof {
        assert(out@ =~= rest_label_text(files as nat, dirs as nat, size as nat));
    }
    string_of(out.as_slice())
}

/// The brick caption split into its two parts: the node's name and its
/// human-readable size.
pub fn brick_caption(tree: &FsTree, id: NodeId) -> (caption: (&str, String))
    requires
        id.0 < tree.nodes@.len(),
    ensures
        caption.0@ == tree.nodes@[id.0 as int].name@,
        caption.1@ == human_size_text(tree.nodes@[id.0 as int].size as nat),
{
    let node = tree.node(id);
    (node.name.as_str(), human_size(node.size))
}

/// The full caption as one string, `NAME SIZE`: what has to fit for a brick
/// to carry a label at all.
pub fn brick_label(tree: &FsTree, id: NodeId) -> (label: String)
    requires
        id.0 < tree.nodes@.len(),
    ensures
        label@ == tree.nodes@[id.0 as int].name@ + seq![' '] + human_size_text(
            tree.nodes@[id.0 as int].size as nat,
        ),
{
    let (name, size) = brick_caption(tree, id);
    let mut out: Vec<char> = Vec::new();
    push_str(&mut out, name);
    out.push(' ');
    push_str(&mut out, size.as_str());
    string_of(out.as_slice())
}

/// How many of the nodes `ids` are folders.
pub open spec fn folders_among(nodes: Seq<FsNode>, ids: Seq<NodeId>) -> nat
    decreases ids.len(),
{
    if ids.len() == 0 {
        0
    } else {
        folders_among(nodes, ids.drop_last()) + if nodes[ids.last().0 as int].is_dir {
            1nat
        } else {
            0nat
        }
    }
}

/// How many of the nodes `ids` are files.
pub open spec fn files_among(nodes: Seq<FsNode>, ids: Seq<NodeId>) -> nat
    decreases ids.len(),
{
    if ids.len() == 0 {
        0
    } else {
        files_among(nodes, ids.drop_last()) + if nodes[ids.last().0 as int].is_dir {
            0nat
        } else {
            1nat
        }
    }
}

/// The sizes of the nodes `ids` added up.
pub open spec fn size_among(nodes: Seq<FsNode>, ids: Seq<NodeId>) -> nat
    decreases ids.len(),
{
    if ids.len() == 0 {
        0
    } else {
        size_among(nodes, ids.drop_last()) + nodes[ids.last().0 as int].size as nat
    }
}

/// The rest brick that collapses the nodes `ids`: how many files and
/// folders they are and their combined size; `None` when that size does
/// not fit in a `u64`.
pub fn rest_brick(tree: &FsTree, ids: &[NodeId]) -> (r: Option<Brick>)
    requires
        forall|i: int| 0 <= i < ids@.len() ==> (#[trigger] ids@[i]).0 < tree.nodes@.len(),
    ensures
        r is Some <==> size_among(tree.nodes@, ids@) <= u64::MAX,
        r is Some ==> r == Some(
            Brick::Rest {
                files: files_among(tree.nodes@, ids@) as usize,
                dirs: folders_among(tree.nodes@, ids@) as usize,
                size: size_among(tree.nodes@, ids@) as u64,
            },
        ),
{
    let mut files: usize = 0;
    let mut dirs: usize = 0;
    let mut size: u64 = 0;
    let mut k: usize = 0;
    while k < ids.len()
        invariant
            k <= ids@.len(),
            forall|i: int| 0 <= i < ids@.len() ==> (#[trigger] ids@[i]).0 < tree.nodes@.len(),
            files == files_among(tree.nodes@, ids@.take(k as int)),
            dirs == folders_among(tree.nodes@, ids@.take(k as int)),
            files + dirs == k,
            size == size_among(tree.nodes@, ids@.take(k as int)),
        decreases ids@.len() - k,
    {
        proof {
            assert(ids@.take(k + 1).drop_last() =~= ids@.take(k as int));
            assert(ids@.take(k + 1).last() == ids@[k as int]);
        }
        let node = tree.node(ids[k]);
        if node.is_dir {
            dirs += 1;
        } else {
            files += 1;
        }
        match size.checked_add(node.size) {
            Some(total) => size = total,
            None => {
                proof {
                    lemma_size_among_grows(tree.nodes@, ids@, k as int + 1);
                }
                return None;
            },
        }
        k += 1;
    }
    proof {
        assert(ids@.take(k as int) =~= ids@);
    }
    Some(Brick::Rest { files, dirs, size })
}

proof fn lemma_size_among_grows(nodes: Seq<FsNode>, ids: Seq<NodeId>, k: int)
    requires
        0 <= k <= ids.len(),
    ensures
        size_among(nodes, ids.take(k)) <= size_among(nodes, ids),
    decreases ids.len() - k,
{
    if k < ids.len() {
        lemma_size_among_grows(nodes, ids, k + 1);
        assert(ids.take(k + 1).drop_last() =~= ids.take(k));
    } else {
        assert(ids.take(k) =~= ids);
    }
}

/// The identity of a brick across snapshots: nodes match by id, while the
/// collapsed tail, whose counts and size change every snapshot, is always
/// the single trailing rest brick.
pub fn brick_key(brick: Brick) -> (key: Option<NodeId>)
    ensures
        key == match brick {
            Brick::Node(id) => Some(id),
            Brick::Rest { .. } => None,
        },
{
    match brick {
        Brick::Node(id) => Some(id),
        Brick::Rest { .. } => None,
    }
}

/// A coarse file category, derived from a name's extension, that selects
/// which watermark glyph a file brick draws.
#[derive(Debug, Clone, Copy, PartialEq, Eq, Structural)]
pub enum FileKind {
    Image,
    Video,
    Audio,
    Document,
    Archive,
    Code,
    Generic,
}

/// Extensions of image files.
pub const IMAGE_EXTENSIONS: [&'static str; 14] = [
    "png", "jpg", "jpeg", "gif", "bmp", "webp", "svg", "tif", "tiff", "heic", "heif", "ico", "avif", "raw",
];

/// Extensions of video files.
pub const VIDEO_EXTENSIONS: [&'static str; 12] = [
    "mp4", "mkv", "mov", "avi", "webm", "flv", "wmv", "m4v", "mpg", "mpeg", "3gp", "m2ts",
];

/// Extensions of audio files.
pub const AUDIO_EXTENSIONS: [&'static str; 10] = [
    "mp3", "wav", "flac", "aac", "ogg", "m4a", "wma", "opus", "aiff", "mid",
];

/// Extensions of document files.
pub const DOCUMENT_EXTENSIONS: [&'static str; 17] = [
    "pdf", "doc", "docx", "txt", "md", "rtf", "odt", "odp", "ods", "pages", "xls", "xlsx", "ppt", "pptx", "csv", "tex", "epub",
];

/// Extensions of archive files.
pub const ARCHIVE_EXTENSIONS: [&'static str; 11] = [
    "zip", "rar", "7z", "tar", "gz", "tgz", "bz2", "xz", "zst", "iso", "dmg",
];

/// Extensions of code files.
pub const CODE_EXTENSIONS: [&'static str; 32] = [
    "rs", "js", "ts", "tsx", "jsx", "py", "c", "cc", "cpp", "cxx", "h", "hpp", "java", "go", "rb", "php", "html", "htm", "css", "scss", "json", "xml", "yaml", "yml", "toml", "sh", "bash", "zsh", "sql", "swift", "kt", "lua",
];

/// The extension of a file name, lower-cased: what follows its last dot;
/// empty when there is no dot.
pub open spec fn extension_of(name: Seq<char>) -> Seq<char> {
    let i = last_index_of(name, '.');
    if i >= 0 {
        name.skip(i + 1).map_values(|c: char| ascii_lower(c))
    } else {
        Seq::empty()
    }
}

/// Whether `ext` is one of `table`.
pub open spec fn listed<const N: usize>(table: [&'static str; N], ext: Seq<char>) -> bool {
    exists|i: int| 0 <= i < N && (#[trigger] table@[i])@ == ext
}

/// The category of an extension; unknown ones, and none, are generic.
pub open spec fn kind_of_extension(ext: Seq<char>) -> FileKind {
    if listed(IMAGE_EXTENSIONS, ext) {
        FileKind::Image
    } else if listed(VIDEO_EXTENSIONS, ext) {
        FileKind::Video
    } else if listed(AUDIO_EXTENSIONS, ext) {
        FileKind::Audio
    } else if listed(DOCUMENT_EXTENSIONS, ext) {
        FileKind::Document
    } else if listed(ARCHIVE_EXTENSIONS, ext) {
        FileKind::Archive
    } else if listed(CODE_EXTENSIONS, ext) {
        FileKind::Code
    } else {
        FileKind::Generic
    }
}

fn listed_in<const N: usize>(table: [&'static str; N], ext: &[char]) -> (r: bool)
    ensures
        r == listed(table, ext@),
{
    let mut i: usize = 0;
    while i < N
        invariant
            i <= N,
            forall|j: int| 0 <= j < i ==> (#[trigger] table@[j])@ != ext@,
        decreases N - i,
    {
        if crate::text::equals_str(ext, table[i]) {
            return true;
        }
        i += 1;
    }
    false
}

impl FileKind {
    /// Maps a file name to a category by its lower-cased extension. Names
    /// with no extension, and any unknown one, fall back to
    /// [`FileKind::Generic`], so every file brick still shows a watermark.
    pub fn classify(name: &str) -> (kind: FileKind)
        ensures
            kind == kind_of_extension(extension_of(name@)),
    {
        let chars = chars_of(name);
        proof {
            lemma_last_index_of(chars@, '.');
        }
        let mut i: usize = chars.len();
        while i > 0 && chars[i - 1] != '.'
            invariant
                i <= chars@.len(),
                last_index_of(chars@, '.') < i,
                last_index_of(chars@, '.') >= 0 ==> chars@[last_index_of(chars@, '.')] == '.',
            decreases i,
        {
            i -= 1;
        }
        let mut ext: Vec<char> = Vec::new();
        if i > 0 {
            proof {
                assert(last_index_of(chars@, '.') == i - 1);
            }
            let mut k: usize = i;
            while k < chars.len()
                invariant
                    i <= k <= chars@.len(),
                    ext@ == chars@.subrange(i as int, k as int).map_values(|c: char| ascii_lower(c)),
                decreases chars@.len() - k,
            {
                ext.push(to_ascii_lower(chars[k]));
                proof {
                    assert(chars@.subrange(i as int, k + 1) =~= chars@.subrange(i as int, k as int).push(
                        chars@[k as int],
                    ));
                    assert(ext@ =~= chars@.subrange(i as int, k + 1).map_values(
                        |c: char| ascii_lower(c),
                    ));
                }
                k += 1;
            }
            proof {
                assert(chars@.subrange(i as int, chars@.len() as int) =~= chars@.skip(i as int));
            }
        } else {
            proof {
                assert(last_index_of(chars@, '.') == -1);
            }
        }
        let e = ext.as_slice();
        if listed_in(IMAGE_EXTENSIONS, e) {
            FileKind::Image
        } else if listed_in(VIDEO_EXTENSIONS, e) {
            FileKind::Video
        } else if listed_in(AUDIO_EXTENSIONS, e) {
            FileKind::Audio
        } else if listed_in(DOCUMENT_EXTENSIONS, e) {
            FileKind::Document
        } else if listed_in(ARCHIVE_EXTENSIONS, e) {
            FileKind::Archive
        } else if listed_in(CODE_EXTENSIONS, e) {
            FileKind::Code
        } else {
            FileKind::Generic
        }
    }
}

/// How a level change enters the screen.
#[derive(Debug, Clone, Copy, PartialEq, Eq, Structural)]
pub enum Zoom {
    /// No parent-child relation (first layout, rescan, resize): instant.
    Snap,
    /// Into a child folder: the new level grows out of the clicked brick.
    In,
    /// Back to the parent: the map shrinks into the brick of the folder
    /// being left.
    Out,
}

/// The navigation direction between the displayed level and the new one:
/// into a child, back to the parent, or a snap for anything else, ids
/// outside the tree (left over from a replaced tree) included.
pub open spec fn zoom_between(tree: FsTree, old: Option<NodeId>, new: NodeId) -> Zoom {
    match old {
        None => Zoom::Snap,
        Some(o) => if o == new || o.0 >= tree.nodes@.len() || new.0 >= tree.nodes@.len() {
            Zoom::Snap
        } else if tree.nodes@[o.0 as int].children@.contains(new) {
            Zoom::In
        } else if tree.nodes@[new.0 as int].children@.contains(o) {
            Zoom::Out
        } else {
            Zoom::Snap
        },
    }
}

fn holds_child(children: &Vec<NodeId>, id: NodeId) -> (r: bool)
    ensures
        r == children@.contains(id),
{
    let mut i: usize = 0;
    while i < children.len()
        invariant
            i <= children@.len(),
            forall|j: int| 0 <= j < i ==> children@[j] != id,
        decreases children@.len() - i,
    {
        if children[i] == id {
            proof {
                assert(children@[i as int] == id);
            }
            return true;
        }
        i += 1;
    }
    false
}

/// The navigation direction between the displayed level and the new one.
/// A rescan replaces the tree wholesale and may leave an id from the
/// previous arena behind: such ids snap instead of failing.
pub fn zoom_direction(tree: &FsTree, old: Option<NodeId>, new: NodeId) -> (z: Zoom)
    ensures
        z == zoom_between(*tree, old, new),
{
    let old = match old {
        Some(o) => o,
        None => return Zoom::Snap,
    };
    if old == new || old.0 >= tree.nodes.len() || new.0 >= tree.nodes.len() {
        return Zoom::Snap;
    }
    if holds_child(&tree.nodes[old.0].children, new) {
        Zoom::In
    } else if holds_child(&tree.nodes[new.0].children, old) {
        Zoom::Out
    } else {
        Zoom::Snap
    }
}

} // verus!
