//! Volume capacity, mounted volume roots and their display names.

use vstd::prelude::*;
use vstd::utf8::{decode_utf8, decode_utf8_encode_utf8, encode_utf8, valid_utf8};
use crate::path::{compare_paths, components, file_name, lemma_path_order, path_less, same_path, NAME};
use crate::text::{
    chars_of, equals_str, has_prefix, slice_chars, split_chars, split_on, starts_with_str, string_of,
    words, words_of,
};

verus! {

#[derive(Debug, Clone, Copy, PartialEq, Eq, Structural)]
pub struct DiskUsage {
    pub used: u64,
    pub total: u64,
}

impl DiskUsage {
    /// The usage of a volume of `total` bytes of which `available` are
    /// free: what is not available counts as used, never below zero.
    pub fn from_space(total: u64, available: u64) -> (u: DiskUsage)
        ensures
            u.total == total,
            u.used == if available <= total {
                total - available
            } else {
                0
            },
    {
        DiskUsage { used: total.saturating_sub(available), total }
    }
}

#[derive(Debug, Clone, Copy, PartialEq, Eq, Structural)]
pub enum DiskKind {
    /// Fixed drive, also the fallback when the OS gives no usable answer.
    Internal,
    Removable,
    Network,
    /// Only Windows reports these.
    Optical,
}

#[derive(Debug, Clone, PartialEq, Eq)]
pub struct DiskRoot {
    pub path: String,
    pub kind: DiskKind,
}

/// A filesystem type without the `fuse.` prefix that FUSE mounts carry.
pub open spec fn fs_base(fstype: Seq<char>) -> Seq<char> {
    if has_prefix(fstype, "fuse."@) {
        fstype.skip("fuse."@.len() as int)
    } else {
        fstype
    }
}

/// Whether a filesystem type names a network filesystem: any `nfs`
/// flavour, or one of the known remote ones, also behind FUSE.
pub open spec fn is_network_fs_type(fstype: Seq<char>) -> bool {
    let t = fs_base(fstype);
    ||| has_prefix(t, "nfs"@)
    ||| t == "cifs"@
    ||| t == "smbfs"@
    ||| t == "smb3"@
    ||| t == "sshfs"@
    ||| t == "davfs"@
    ||| t == "davfs2"@
    ||| t == "webdav"@
    ||| t == "afpfs"@
    ||| t == "ftp"@
    ||| t == "curlftpfs"@
    ||| t == "9p"@
}

/// Whether a filesystem type name is a network filesystem.
pub fn is_network_fs(fstype: &str) -> (r: bool)
    ensures
        r == is_network_fs_type(fstype@),
{
    let chars = chars_of(fstype);
    let t = if starts_with_str(chars.as_slice(), "fuse.") {
        let prefix = chars_of("fuse.");
        slice_chars(chars.as_slice(), prefix.len(), chars.len())
    } else {
        chars
    };
    let t = t.as_slice();
    starts_with_str(t, "nfs") || equals_str(t, "cifs") || equals_str(t, "smbfs") || equals_str(
        t,
        "smb3",
    ) || equals_str(t, "sshfs") || equals_str(t, "davfs") || equals_str(t, "davfs2")
        || equals_str(t, "webdav") || equals_str(t, "afpfs") || equals_str(t, "ftp") || equals_str(
        t,
        "curlftpfs",
    ) || equals_str(t, "9p")
}

/// Whether `b` starts with an octal escape `\ooo` of the mount table: a
/// backslash, a digit up to `3` and two octal digits, so that the value
/// fits a byte.
pub open spec fn is_octal_escape(b: Seq<u8>) -> bool {
    &&& b.len() >= 4
    &&& b[0] == 92
    &&& 48 <= b[1] <= 51
    &&& 48 <= b[2] <= 55
    &&& 48 <= b[3] <= 55
}

/// The byte an octal escape at the start of `b` stands for.
pub open spec fn octal_value(b: Seq<u8>) -> u8 {
    ((b[1] - 48) * 64 + (b[2] - 48) * 8 + (b[3] - 48)) as u8
}

/// `b` with every octal escape decoded; other bytes pass through.
pub open spec fn unescaped(b: Seq<u8>) -> Seq<u8>
    decreases b.len(),
{
    if b.len() == 0 {
        Seq::empty()
    } else if is_octal_escape(b) {
        seq![octal_value(b)] + unescaped(b.skip(4))
    } else {
        seq![b[0]] + unescaped(b.skip(1))
    }
}

/// Decodes the `\ooo` octal escapes of the mount table (`\040` space,
/// `\011` tab, `\012` newline, `\134` backslash). Anything else passes
/// through.
pub fn unescape_bytes(bytes: &[u8]) -> (r: Vec<u8>)
    ensures
        r@ == unescaped(bytes@),
{
    let mut out: Vec<u8> = Vec::new();
    let mut i: usize = 0;
    assert(bytes@.skip(0) =~= bytes@);
    while i < bytes.len()
        invariant
            i <= bytes@.len(),
            unescaped(bytes@) == out@ + unescaped(bytes@.skip(i as int)),
        decreases bytes@.len() - i,
    {
        let ghost rest = bytes@.skip(i as int);
        // A byte is at most three octal digits (`\377`), so the leading
        // digit stops at '3'.
        if bytes[i] == 92 && bytes.len() - i > 3 && 48 <= bytes[i + 1] && bytes[i + 1] <= 51 && 48
            <= bytes[i + 2] && bytes[i + 2] <= 55 && 48 <= bytes[i + 3] && bytes[i + 3] <= 55 {
            let value: u8 = (bytes[i + 1] - 48) * 64 + (bytes[i + 2] - 48) * 8 + (bytes[i + 3]
                - 48);
            proof {
                assert(rest[0] == bytes@[i as int] && rest[1] == bytes@[i + 1] && rest[2]
                    == bytes@[i + 2] && rest[3] == bytes@[i + 3]);
                assert(is_octal_escape(rest));
                assert(rest.skip(4) =~= bytes@.skip(i + 4));
            }
            out.push(value);
            proof {
                assert(out@ + unescaped(bytes@.skip(i + 4)) =~= (out@.drop_last() + seq![
                    octal_value(rest),
                ]) + unescaped(rest.skip(4)));
            }
            i += 4;
        } else {
            proof {
                assert(rest[0] == bytes@[i as int]);
                if i + 3 < bytes@.len() {
                    assert(rest[1] == bytes@[i + 1] && rest[2] == bytes@[i + 2] && rest[3]
                        == bytes@[i + 3]);
                }
                assert(!is_octal_escape(rest));
                assert(rest.skip(1) =~= bytes@.skip(i + 1));
            }
            out.push(bytes[i]);
            proof {
                assert(out@ + unescaped(bytes@.skip(i + 1)) =~= (out@.drop_last() + seq![rest[0]])
                    + unescaped(rest.skip(1)));
            }
            i += 1;
        }
    }
    proof {
        assert(bytes@.skip(i as int) =~= Seq::<u8>::empty());
        assert(out@ + Seq::<u8>::empty() =~= out@);
    }
    out
}

/// The text `String::from_utf8_lossy` makes of `bytes`: the bytes decoded
/// as UTF-8, each invalid sequence replaced by U+FFFD.
pub uninterp spec fn lossy_text(bytes: Seq<u8>) -> Seq<char>;

/// `String::from_utf8_lossy`, owned. Its result is named by `lossy_text`;
/// bytes that are valid UTF-8 come back decoded unchanged, and bytes that
/// are not come back with at least one U+FFFD in place of what was
/// invalid, as the standard documentation says.
#[verifier::external_body]
fn lossy_string(bytes: &[u8]) -> (s: String)
    ensures
        s@ == lossy_text(bytes@),
        valid_utf8(bytes@) ==> s@ == decode_utf8(bytes@),
        !valid_utf8(bytes@) ==> s@.contains('\u{FFFD}'),
{
    String::from_utf8_lossy(bytes).into_owned()
}

/// The path a mount-table field names, its escapes decoded.
pub open spec fn mount_path(point: Seq<char>) -> Seq<char> {
    lossy_text(unescaped(encode_utf8(point)))
}

/// Whether the bytes of a mount-table field, escapes decoded, are valid
/// UTF-8.
pub open spec fn mount_bytes_valid(point: Seq<char>) -> bool {
    valid_utf8(unescaped(encode_utf8(point)))
}

/// The text of a mount-table field whose bytes, escapes decoded, are valid
/// UTF-8: those bytes read as UTF-8.
pub open spec fn decoded_mount_path(point: Seq<char>) -> Seq<char> {
    decode_utf8(unescaped(encode_utf8(point)))
}

/// The bytes of a drive mount point, escapes decoded, are at least two:
/// its leading `/` and the first letter of the directory it is under.
proof fn lemma_drive_mount_bytes(point: Seq<char>)
    requires
        is_drive_mount(point),
    ensures
        unescaped(encode_utf8(point)).len() >= 2,
{
    reveal_strlit("/media");
    reveal_strlit("/run/media");
    reveal_strlit("/mnt");
    assert(point.len() >= 4);
    if in_dir(point, "/media"@) {
        assert(point.take(6)[0] == point[0] && point.take(6)[1] == point[1]);
    } else if in_dir(point, "/run/media"@) {
        assert(point.take(10)[0] == point[0] && point.take(10)[1] == point[1]);
    } else {
        assert(point.take(4)[0] == point[0] && point.take(4)[1] == point[1]);
    }
    assert(point[0] == '/');
    assert(point[1] == 'm' || point[1] == 'r');
    let first = point[0] as u32;
    let second = point[1] as u32;
    lemma_ascii_byte(first);
    lemma_ascii_byte(second);
    let rest = point.drop_first();
    assert(rest[0] == point[1]);
    let tail = encode_utf8(rest);
    assert(tail == vstd::utf8::encode_scalar(second) + encode_utf8(rest.drop_first()));
    let e = encode_utf8(point);
    assert(e == vstd::utf8::encode_scalar(first) + tail);
    assert(e[0] == 47u8);
    assert(tail[0] == 109u8 || tail[0] == 114u8);
    assert(!is_octal_escape(e));
    assert(e.skip(1) =~= tail);
    assert(!is_octal_escape(tail));
    assert(unescaped(e) == seq![e[0]] + unescaped(e.skip(1)));
    assert(unescaped(tail) == seq![tail[0]] + unescaped(tail.skip(1)));
}

/// The byte an ASCII character is encoded as is its code.
proof fn lemma_ascii_byte(c: u32)
    requires
        c <= 0x7F,
    ensures
        vstd::utf8::encode_scalar(c) == seq![c as u8],
{
    assert(((c & 0x7F) as u8) == c as u8) by (bit_vector)
        requires
            c <= 0x7F,
    ;
}

/// Decodes the octal escapes of a mount point and reads the bytes as
/// UTF-8, replacing what is not. A drive mount point never decodes to the
/// system root `/`.
pub fn unescape_mount_point(point: &str) -> (r: String)
    ensures
        r@ == mount_path(point@),
        mount_bytes_valid(point@) ==> r@ == decoded_mount_path(point@),
        is_drive_mount(point@) ==> r@ != seq!['/'],
{
    let decoded = unescape_bytes(point.as_bytes());
    let r = lossy_string(decoded.as_slice());
    proof {
        if is_drive_mount(point@) {
            lemma_drive_mount_bytes(point@);
            let b = decoded@;
            if r@ =~= seq!['/'] {
                if valid_utf8(b) {
                    decode_utf8_encode_utf8(b);
                    lemma_ascii_byte('/' as u32);
                    assert(encode_utf8(seq!['/']) == vstd::utf8::encode_scalar('/' as u32)
                        + encode_utf8(seq!['/'].drop_first()));
                    assert(encode_utf8(seq!['/']).len() == 1);
                } else {
                    assert(r@.contains('\u{FFFD}'));
                }
            }
        }
    }
    r
}

/// Display name of a volume root: its last component when that is a name
/// (`/Volumes/Data` -> `Data`), otherwise the path itself (`/`).
pub open spec fn root_label_text(path: Seq<char>) -> Seq<char> {
    match file_name(path) {
        Some(name) => name,
        None => path,
    }
}

/// Display name of a volume root: directory name (`/Volumes/Data` ->
/// `Data`), or the path itself for bare roots (`/`).
pub fn root_label(path: &str) -> (r: String)
    ensures
        r@ == root_label_text(path@),
{
    let chars = chars_of(path);
    let parts = components(chars.as_slice());
    let n = parts.len();
    proof {
        let v = parts@.map_values(|c: (u8, Vec<char>)| (c.0, c.1@));
        if n > 0 {
            assert(v.last() == (parts@[n - 1].0, parts@[n - 1].1@));
        }
    }
    if n > 0 && parts[n - 1].0 == NAME {
        string_of(parts[n - 1].1.as_slice())
    } else {
        path.to_owned()
    }
}


/// The device, mount point and filesystem type of a mount-table line: its
/// first three words, when it has them.
pub open spec fn mount_fields(line: Seq<char>) -> Option<(Seq<char>, Seq<char>, Seq<char>)> {
    let w = words(line);
    if w.len() >= 3 {
        Some((w[0], w[1], w[2]))
    } else {
        None
    }
}

/// Whether `point` is the directory `dir` itself or lies under it (a
/// sibling such as `/mnt2` for `/mnt` does not count).
pub open spec fn in_dir(point: Seq<char>, dir: Seq<char>) -> bool {
    has_prefix(point, dir) && (point.len() == dir.len() || point[dir.len() as int] == '/')
}

/// Whether desktop Linux mounts drives at `point`: at or under `/media`,
/// `/run/media` or `/mnt`.
pub open spec fn is_drive_mount(point: Seq<char>) -> bool {
    in_dir(point, "/media"@) || in_dir(point, "/run/media"@) || in_dir(point, "/mnt"@)
}

/// Whether one of `kept` is mounted at the same path as `point`.
pub open spec fn mount_taken(kept: Seq<(Seq<char>, Seq<char>, Seq<char>)>, point: Seq<char>) -> bool {
    exists|i: int|
        0 <= i < kept.len() && same_path(mount_path((#[trigger] kept[i]).1), mount_path(point))
}

/// The drive mounts among the lines of a mount table, in table order; a
/// later mount of a path already seen (a bind mount) is left out.
pub open spec fn drive_mounts(lines: Seq<Seq<char>>) -> Seq<(Seq<char>, Seq<char>, Seq<char>)>
    decreases lines.len(),
{
    if lines.len() == 0 {
        Seq::empty()
    } else {
        let kept = drive_mounts(lines.drop_last());
        match mount_fields(lines.last()) {
            Some(f) => if is_drive_mount(f.1) && !mount_taken(kept, f.1) {
                kept.push(f)
            } else {
                kept
            },
            None => kept,
        }
    }
}

/// The kind of a mount: network by its filesystem type, otherwise removable
/// or internal as the device was found to be.
pub open spec fn kind_from(fstype: Seq<char>, removable: bool) -> DiskKind {
    if is_network_fs_type(fstype) {
        DiskKind::Network
    } else if removable {
        DiskKind::Removable
    } else {
        DiskKind::Internal
    }
}

/// Whether `root` is what mount `m` (device, mount point, filesystem type)
/// gives: its decoded path (read as UTF-8 where its bytes are valid UTF-8),
/// and its kind with the answer `removable` gave for the device.
pub open spec fn is_root_of<F: Fn(&str) -> bool>(
    root: DiskRoot,
    m: (Seq<char>, Seq<char>, Seq<char>),
    removable: F,
) -> bool {
    &&& root.path@ == mount_path(m.1)
    &&& mount_bytes_valid(m.1) ==> root.path@ == decoded_mount_path(m.1)
    &&& if is_network_fs_type(m.2) {
        root.kind == DiskKind::Network
    } else {
        exists|d: &str, b: bool|
            d@ == m.0 && #[trigger] call_ensures(removable, (d,), b) && root.kind == kind_from(m.2, b)
    }
}

/// Two roots with the same path and kind.
pub open spec fn same_root(a: DiskRoot, b: DiskRoot) -> bool {
    a.path@ == b.path@ && a.kind == b.kind
}

fn in_dir_exec(point: &[char], dir: &str) -> (r: bool)
    ensures
        r == in_dir(point@, dir@),
{
    let d = chars_of(dir);
    starts_with_str(point, dir) && (point.len() == d.len() || (point.len() > d.len() && point[d.len()]
        == '/'))
}

fn drive_mount(point: &[char]) -> (r: bool)
    ensures
        r == is_drive_mount(point@),
{
    in_dir_exec(point, "/media") || in_dir_exec(point, "/run/media") || in_dir_exec(point, "/mnt")
}

/// The roots of the drive mounts of a mount table, in table order.
fn collect_drive_mounts<F: Fn(&str) -> bool>(mounts: &str, removable: &F) -> (found: Vec<DiskRoot>)
    requires
        forall|d: &str| #[trigger] removable.requires((d,)),
    ensures
        found@.len() == drive_mounts(split_on(mounts@, '\n')).len(),
        forall|i: int|
            0 <= i < found@.len() ==> is_root_of(
                #[trigger] found@[i],
                drive_mounts(split_on(mounts@, '\n'))[i],
                *removable,
            ),
        distinct_paths(found@),
        forall|i: int| 0 <= i < found@.len() ==> (#[trigger] found@[i]).path@ != seq!['/'],
{
    let chars = chars_of(mounts);
    let lines = split_chars(chars.as_slice(), '\n');
    let ghost views = split_on(mounts@, '\n');
    proof {
        assert(lines@.map_values(|p: Vec<char>| p@) =~= views);
    }
    let mut found: Vec<DiskRoot> = Vec::new();
    let ghost mut kept: Seq<(Seq<char>, Seq<char>, Seq<char>)> = Seq::empty();
    let mut k: usize = 0;
    while k < lines.len()
        invariant
            k <= lines@.len(),
            lines@.map_values(|p: Vec<char>| p@) == views,
            forall|d: &str| #[trigger] removable.requires((d,)),
            kept == drive_mounts(views.take(k as int)),
            found@.len() == kept.len(),
            forall|i: int| 0 <= i < found@.len() ==> is_root_of(#[trigger] found@[i], kept[i], *removable),
            forall|i: int, j: int|
                0 <= i < j < found@.len() ==> !same_path(found@[i].path@, found@[j].path@),
            forall|i: int| 0 <= i < found@.len() ==> (#[trigger] found@[i]).path@ != seq!['/'],
        decreases lines@.len() - k,
    {
        proof {
            assert(views.take(k + 1).drop_last() =~= views.take(k as int));
            assert(views.take(k + 1).last() == lines@[k as int]@);
        }
        let line = lines[k].as_slice();
        let w = words_of(line);
        proof {
            assert(w@.len() == words(line@).len());
        }
        if w.len() >= 3 {
            let ghost f = (w@[0]@, w@[1]@, w@[2]@);
            proof {
                assert(mount_fields(line@) == Some(f));
            }
            if drive_mount(w[1].as_slice()) {
                let point = string_of(w[1].as_slice());
                let path = unescape_mount_point(point.as_str());
                let mut taken = false;
                let mut i: usize = 0;
                while i < found.len() && !taken
                    invariant
                        i <= found@.len(),
                        found@.len() == kept.len(),
                        forall|q: int|
                            0 <= q < found@.len() ==> is_root_of(#[trigger] found@[q], kept[q], *removable),
                        path@ == mount_path(f.1),
                        forall|q: int| 0 <= q < found@.len() ==> (#[trigger] found@[q]).path@ != seq!['/'],
                        taken ==> mount_taken(kept, f.1),
                        !taken ==> forall|q: int|
                            0 <= q < i ==> !same_path(mount_path((#[trigger] kept[q]).1), path@),
                    decreases found@.len() - i + (if taken { 0int } else { 1int }),
                {
                    if compare_paths(found[i].path.as_str(), path.as_str()) == 0 {
                        proof {
                            assert(is_root_of(found@[i as int], kept[i as int], *removable));
                            assert(same_path(mount_path(kept[i as int].1), mount_path(f.1)));
                        }
                        taken = true;
                    } else {
                        proof {
                            assert(is_root_of(found@[i as int], kept[i as int], *removable));
                        }
                        i += 1;
                    }
                }
                if !taken {
                    proof {
                        assert(!mount_taken(kept, f.1)) by {
                            if mount_taken(kept, f.1) {
                                let q = choose|q: int|
                                    0 <= q < kept.len() && same_path(
                                        mount_path((#[trigger] kept[q]).1),
                                        mount_path(f.1),
                                    );
                                assert(!same_path(mount_path(kept[q].1), path@));
                            }
                        }
                    }
                    let fstype = string_of(w[2].as_slice());
                    let device = string_of(w[0].as_slice());
                    let kind = if is_network_fs(fstype.as_str()) {
                        DiskKind::Network
                    } else {
                        let dev = device.as_str();
                        let answer = removable(dev);
                        proof {
                            assert(call_ensures(*removable, (dev,), answer));
                        }
                        if answer {
                            DiskKind::Removable
                        } else {
                            DiskKind::Internal
                        }
                    };
                    let ghost old_found = found@;
                    let root = DiskRoot { path, kind };
                    proof {
                        assert(is_root_of(root, f, *removable));
                    }
                    found.push(root);
                    proof {
                        assert(point@ == w@[1]@);
                        assert forall|q: int| 0 <= q < found@.len() implies (#[trigger] found@[q]).path@
                            != seq!['/'] by {
                            if q < old_found.len() {
                                assert(found@[q] == old_found[q]);
                            }
                        }
                        kept = kept.push(f);
                        assert forall|q: int| 0 <= q < found@.len() implies is_root_of(
                            #[trigger] found@[q],
                            kept[q],
                            *removable,
                        ) by {
                            if q < old_found.len() {
                                assert(found@[q] == old_found[q]);
                            }
                        }
                        assert forall|a: int, b: int|
                            0 <= a < b < found@.len() implies !same_path(
                                found@[a].path@,
                                found@[b].path@,
                            ) by {
                            if b == found@.len() - 1 {
                                assert(is_root_of(old_found[a], kept[a], *removable));
                            } else {
                                assert(found@[a] == old_found[a] && found@[b] == old_found[b]);
                            }
                        }
                    }
                }
            }
        } else {
            proof {
                assert(mount_fields(line@) is None);
            }
        }
        k += 1;
    }
    proof {
        assert(views.take(k as int) =~= views);
    }
    found
}

/// Whether the paths of `s` strictly increase in `Path` order.
pub open spec fn sorted_by_path(s: Seq<DiskRoot>) -> bool {
    forall|i: int, j: int| 0 <= i < j < s.len() ==> path_less(s[i].path@, s[j].path@)
}

/// Whether no two of `s` have the same path.
pub open spec fn distinct_paths(s: Seq<DiskRoot>) -> bool {
    forall|i: int, j: int| 0 <= i < j < s.len() ==> !same_path(s[i].path@, s[j].path@)
}

/// Whether every root of `s` is one of the first `k` of `roots`.
spec fn drawn_from(s: Seq<DiskRoot>, roots: Seq<DiskRoot>, k: int) -> bool {
    forall|i: int| 0 <= i < s.len() ==> exists|j: int| 0 <= j < k && same_root(#[trigger] s[i], roots[j])
}

/// Whether each of the first `k` of `roots` is in `s`.
spec fn holds_all(s: Seq<DiskRoot>, roots: Seq<DiskRoot>, k: int) -> bool {
    forall|j: int| 0 <= j < k ==> exists|i: int| 0 <= i < s.len() && same_root(s[i], #[trigger] roots[j])
}

proof fn lemma_insert_keeps_order(s: Seq<DiskRoot>, pos: int, root: DiskRoot)
    requires
        sorted_by_path(s),
        0 <= pos <= s.len(),
        forall|i: int| 0 <= i < pos ==> path_less((#[trigger] s[i]).path@, root.path@),
        pos < s.len() ==> path_less(root.path@, s[pos].path@),
    ensures
        sorted_by_path(s.insert(pos, root)),
{
    assert forall|i: int| pos <= i < s.len() implies path_less(root.path@, (#[trigger] s[i]).path@) by {
        if i > pos {
            lemma_path_order(root.path@, s[pos].path@, s[i].path@);
        }
    }
    let t = s.insert(pos, root);
    assert forall|i: int, j: int| 0 <= i < j < t.len() implies path_less(t[i].path@, t[j].path@) by {
        if j < pos {
            assert(t[i] == s[i] && t[j] == s[j]);
        } else if j == pos {
            assert(t[i] == s[i]);
        } else if i < pos {
            assert(t[i] == s[i] && t[j] == s[j - 1]);
            lemma_path_order(s[i].path@, root.path@, s[j - 1].path@);
        } else if i == pos {
            assert(t[j] == s[j - 1]);
        } else {
            assert(t[i] == s[i - 1] && t[j] == s[j - 1]);
        }
    }
}

proof fn lemma_insert_keeps_origin(s: Seq<DiskRoot>, pos: int, root: DiskRoot, roots: Seq<DiskRoot>, k: int)
    requires
        0 <= k < roots.len(),
        same_root(root, roots[k]),
        drawn_from(s, roots, k),
        holds_all(s, roots, k),
        0 <= pos <= s.len(),
    ensures
        drawn_from(s.insert(pos, root), roots, k + 1),
        holds_all(s.insert(pos, root), roots, k + 1),
{
    let t = s.insert(pos, root);
    assert forall|i: int| 0 <= i < t.len() implies exists|j: int|
        0 <= j < k + 1 && same_root(#[trigger] t[i], roots[j]) by {
        if i < pos {
            assert(t[i] == s[i]);
            let j = choose|j: int| 0 <= j < k && same_root(s[i], roots[j]);
            assert(same_root(t[i], roots[j]));
        } else if i == pos {
            assert(same_root(t[i], roots[k]));
        } else {
            assert(t[i] == s[i - 1]);
            let j = choose|j: int| 0 <= j < k && same_root(s[i - 1], roots[j]);
            assert(same_root(t[i], roots[j]));
        }
    }
    assert forall|j: int| 0 <= j < k + 1 implies exists|i: int|
        0 <= i < t.len() && same_root(t[i], #[trigger] roots[j]) by {
        if j == k {
            assert(same_root(t[pos], roots[j]));
        } else {
            let i = choose|i: int| 0 <= i < s.len() && same_root(s[i], roots[j]);
            if i < pos {
                assert(t[i] == s[i]);
                assert(same_root(t[i], roots[j]));
            } else {
                assert(t[i + 1] == s[i]);
                assert(same_root(t[i + 1], roots[j]));
            }
        }
    }
}

proof fn lemma_insert_root(s: Seq<DiskRoot>, pos: int, root: DiskRoot, roots: Seq<DiskRoot>, k: int)
    requires
        0 <= k < roots.len(),
        distinct_paths(roots),
        same_root(root, roots[k]),
        sorted_by_path(s),
        drawn_from(s, roots, k),
        holds_all(s, roots, k),
        0 <= pos <= s.len(),
        forall|i: int| 0 <= i < pos ==> path_less((#[trigger] s[i]).path@, root.path@),
        pos < s.len() ==> !path_less(s[pos].path@, root.path@),
    ensures
        sorted_by_path(s.insert(pos, root)),
        drawn_from(s.insert(pos, root), roots, k + 1),
        holds_all(s.insert(pos, root), roots, k + 1),
{
    if pos < s.len() {
        let j = choose|j: int| 0 <= j < k && same_root(s[pos], roots[j]);
        assert(!same_path(roots[j].path@, roots[k].path@));
        lemma_path_order(s[pos].path@, root.path@, root.path@);
    }
    lemma_insert_keeps_order(s, pos, root);
    lemma_insert_keeps_origin(s, pos, root, roots, k);
}

/// The roots in `Path` order.
fn sort_by_path(roots: &Vec<DiskRoot>) -> (sorted: Vec<DiskRoot>)
    requires
        distinct_paths(roots@),
    ensures
        sorted@.len() == roots@.len(),
        sorted_by_path(sorted@),
        drawn_from(sorted@, roots@, roots@.len() as int),
        holds_all(sorted@, roots@, roots@.len() as int),
{
    let mut sorted: Vec<DiskRoot> = Vec::new();
    let mut k: usize = 0;
    while k < roots.len()
        invariant
            k <= roots@.len(),
            sorted@.len() == k,
            distinct_paths(roots@),
            sorted_by_path(sorted@),
            drawn_from(sorted@, roots@, k as int),
            holds_all(sorted@, roots@, k as int),
        decreases roots@.len() - k,
    {
        let root = DiskRoot { path: roots[k].path.clone(), kind: roots[k].kind };
        let mut pos: usize = 0;
        let mut done = false;
        while pos < sorted.len() && !done
            invariant
                pos <= sorted@.len(),
                forall|i: int| 0 <= i < pos ==> path_less((#[trigger] sorted@[i]).path@, root.path@),
                done ==> pos < sorted@.len() && !path_less(sorted@[pos as int].path@, root.path@),
            decreases sorted@.len() - pos + (if done { 0int } else { 1int }),
        {
            if compare_paths(sorted[pos].path.as_str(), root.path.as_str()) == -1 {
                pos += 1;
            } else {
                done = true;
            }
        }
        proof {
            lemma_insert_root(sorted@, pos as int, root, roots@, k as int);
        }
        sorted.insert(pos, root);
        k += 1;
    }
    sorted
}

/// Whether `roots` are the roots of the drive mounts of the mount table
/// `text`, one per mount and in `Path` order, each with its kind.
pub open spec fn lists_drive_mounts<F: Fn(&str) -> bool>(
    roots: Seq<DiskRoot>,
    text: Seq<char>,
    removable: F,
) -> bool {
    lists_mounts(roots, drive_mounts(split_on(text, '\n')), removable)
}

/// Whether `roots` are the roots of the mounts `ms`, one per mount and in
/// `Path` order.
pub open spec fn lists_mounts<F: Fn(&str) -> bool>(
    roots: Seq<DiskRoot>,
    ms: Seq<(Seq<char>, Seq<char>, Seq<char>)>,
    removable: F,
) -> bool {
    &&& roots.len() == ms.len()
    &&& sorted_by_path(roots)
    &&& forall|i: int| 0 <= i < roots.len() ==> root_listed(#[trigger] roots[i], ms, removable)
    &&& forall|j: int| 0 <= j < ms.len() ==> mount_listed(roots, #[trigger] ms[j], removable)
}

/// Whether `root` is the root of one of the mounts `ms`.
pub open spec fn root_listed<F: Fn(&str) -> bool>(
    root: DiskRoot,
    ms: Seq<(Seq<char>, Seq<char>, Seq<char>)>,
    removable: F,
) -> bool {
    exists|j: int| 0 <= j < ms.len() && is_root_of(root, #[trigger] ms[j], removable)
}

/// Whether one of `roots` is the root of mount `m`.
pub open spec fn mount_listed<F: Fn(&str) -> bool>(
    roots: Seq<DiskRoot>,
    m: (Seq<char>, Seq<char>, Seq<char>),
    removable: F,
) -> bool {
    exists|i: int| 0 <= i < roots.len() && is_root_of(#[trigger] roots[i], m, removable)
}

proof fn lemma_sorted_lists_mounts<F: Fn(&str) -> bool>(
    sorted: Seq<DiskRoot>,
    found: Seq<DiskRoot>,
    ms: Seq<(Seq<char>, Seq<char>, Seq<char>)>,
    removable: F,
)
    requires
        sorted.len() == found.len(),
        found.len() == ms.len(),
        sorted_by_path(sorted),
        drawn_from(sorted, found, found.len() as int),
        holds_all(sorted, found, found.len() as int),
        forall|i: int| 0 <= i < found.len() ==> is_root_of(#[trigger] found[i], ms[i], removable),
    ensures
        lists_mounts(sorted, ms, removable),
{
    assert forall|i: int| 0 <= i < sorted.len() implies root_listed(
        #[trigger] sorted[i],
        ms,
        removable,
    ) by {
        let r = sorted[i];
        assert(exists|j: int| 0 <= j < found.len() && same_root(r, found[j]));
        let j = choose|j: int| 0 <= j < found.len() && same_root(r, found[j]);
        assert(is_root_of(found[j], ms[j], removable));
        assert(is_root_of(r, ms[j], removable));
    }
    assert forall|j: int| 0 <= j < ms.len() implies mount_listed(
        sorted,
        #[trigger] ms[j],
        removable,
    ) by {
        let f = found[j];
        assert(is_root_of(f, ms[j], removable));
        assert(exists|i: int| 0 <= i < sorted.len() && same_root(sorted[i], f));
        let i = choose|i: int| 0 <= i < sorted.len() && same_root(sorted[i], f);
        assert(is_root_of(sorted[i], ms[j], removable));
    }
}

/// External mount points from mount-table text, in `Path` order: anything
/// at or under the directories desktop Linux mounts drives into. The kind
/// comes off the filesystem type or the `removable` test of the device.
/// Octal escapes are decoded; bind-mount duplicates collapse into one
/// entry.
pub fn roots_from_mounts<F: Fn(&str) -> bool>(mounts: &str, removable: F) -> (r: Vec<DiskRoot>)
    requires
        forall|d: &str| #[trigger] removable.requires((d,)),
    ensures
        lists_drive_mounts(r@, mounts@, removable),
        forall|i: int| 0 <= i < r@.len() ==> (#[trigger] r@[i]).path@ != seq!['/'],
{
    let found = collect_drive_mounts(mounts, &removable);
    let sorted = sort_by_path(&found);
    proof {
        assert forall|i: int| 0 <= i < sorted@.len() implies (#[trigger] sorted@[i]).path@ != seq![
            '/',
        ] by {
            let j = choose|j: int| 0 <= j < found@.len() && same_root(sorted@[i], found@[j]);
            assert(found@[j].path@ != seq!['/']);
        }
    }
    proof {
        lemma_sorted_lists_mounts(sorted@, found@, drive_mounts(split_on(mounts@, '\n')), removable);
    }
    sorted
}

/// The root of the system volume, which every listing starts with.
pub fn system_root() -> (r: DiskRoot)
    ensures
        r.path@ == seq!['/'],
        r.kind == DiskKind::Internal,
{
    let path = string_of(&['/']);
    DiskRoot { path, kind: DiskKind::Internal }
}

/// Mounted volume roots on Linux: `/` first and nowhere else, then the drive mounts of the
/// mount table in `Path` order, when the table could be read.
pub fn mounted_roots<F: Fn(&str) -> bool>(mounts: Option<&str>, removable: F) -> (r: Vec<DiskRoot>)
    requires
        forall|d: &str| #[trigger] removable.requires((d,)),
    ensures
        r@.len() >= 1,
        r@[0].path@ == seq!['/'],
        r@[0].kind == DiskKind::Internal,
        forall|i: int| 1 <= i < r@.len() ==> (#[trigger] r@[i]).path@ != seq!['/'],
        match mounts {
            None => r@.len() == 1,
            Some(text) => lists_drive_mounts(r@.skip(1), text@, removable),
        },
{
    let mut roots: Vec<DiskRoot> = Vec::new();
    roots.push(system_root());
    if let Some(text) = mounts {
        let mut extra = roots_from_mounts(text, removable);
        let ghost listed = extra@;
        roots.append(&mut extra);
        proof {
            assert(roots@.skip(1) =~= listed);
            assert forall|i: int| 1 <= i < roots@.len() implies (#[trigger] roots@[i]).path@ != seq![
                '/',
            ] by {
                assert(roots@[i] == listed[i - 1]);
            }
        }
    }
    roots
}


/// The kind of an extra volume on macOS, given the filesystem type the
/// mount table lists for its path: network by the type, otherwise
/// removable, since the boot volume only shows up as `/`.
pub fn volume_kind(fstype: Option<&str>) -> (k: DiskKind)
    ensures
        k == match fstype {
            Some(t) => if is_network_fs_type(t@) {
                DiskKind::Network
            } else {
                DiskKind::Removable
            },
            None => DiskKind::Removable,
        },
{
    match fstype {
        Some(t) if is_network_fs(t) => DiskKind::Network,
        _ => DiskKind::Removable,
    }
}

/// The kind of a Windows drive from the drive type the system reports:
/// `2` removable, `4` remote, `5` optical; fixed drives and unknown or
/// error codes read as internal.
pub fn drive_kind_of_type(drive_type: u32) -> (k: DiskKind)
    ensures
        k == if drive_type == 2 {
            DiskKind::Removable
        } else if drive_type == 4 {
            DiskKind::Network
        } else if drive_type == 5 {
            DiskKind::Optical
        } else {
            DiskKind::Internal
        },
{
    match drive_type {
        2 => DiskKind::Removable,
        4 => DiskKind::Network,
        5 => DiskKind::Optical,
        _ => DiskKind::Internal,
    }
}

} // verus!
