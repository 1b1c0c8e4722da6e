use filegram::disk::{
    drive_kind_of_type, is_network_fs, mounted_roots, root_label, roots_from_mounts,
    unescape_mount_point, volume_kind, DiskKind, DiskRoot, DiskUsage,
};

fn mount_points(mounts: &str) -> Vec<String> {
    roots_from_mounts(mounts, |_| false)
        .into_iter()
        .map(|root| root.path)
        .collect()
}

#[test]
fn mounted_roots_keep_the_platform_contract() {
    assert_eq!(
        mounted_roots(None, |_| false).first(),
        Some(&DiskRoot {
            path: "/".to_string(),
            kind: DiskKind::Internal,
        })
    );
    let with_table = mounted_roots(Some("/dev/sdb1 /media/user/Stick vfat rw 0 0"), |_| true);
    assert_eq!(
        with_table,
        vec![
            DiskRoot {
                path: "/".to_string(),
                kind: DiskKind::Internal,
            },
            DiskRoot {
                path: "/media/user/Stick".to_string(),
                kind: DiskKind::Removable,
            },
        ]
    );
}

#[test]
fn roots_from_mounts_keep_removable_mount_points_in_name_order() {
    let mounts = "\
/dev/sda1 / ext4 rw 0 0
proc /proc proc rw 0 0
/dev/sdd1 /run/media/user/Card exfat rw 0 0
/dev/sdb1 /media/user/USB\\040Drive vfat rw 0 0
/dev/sdc1 /mnt/backup ext4 rw 0 0
tmpfs /run/user/1000 tmpfs rw 0 0
/dev/sdc1 /mnt/backup ext4 rw 0 0";
    assert_eq!(
        mount_points(mounts),
        vec![
            "/media/user/USB Drive".to_string(),
            "/mnt/backup".to_string(),
            "/run/media/user/Card".to_string(),
        ]
    );
}

#[test]
fn roots_from_mounts_bucket_kinds_by_fstype_and_device() {
    let mounts = "\
/dev/sdb1 /media/user/Stick vfat rw 0 0
/dev/sdc1 /mnt/backup ext4 rw 0 0
//server/share /mnt/share cifs rw 0 0";
    assert_eq!(
        roots_from_mounts(mounts, |device| device == "/dev/sdb1"),
        vec![
            DiskRoot {
                path: "/media/user/Stick".to_string(),
                kind: DiskKind::Removable,
            },
            DiskRoot {
                path: "/mnt/backup".to_string(),
                kind: DiskKind::Internal,
            },
            DiskRoot {
                path: "/mnt/share".to_string(),
                kind: DiskKind::Network,
            },
        ]
    );
}

#[test]
fn roots_from_mounts_accept_a_drive_mounted_at_the_directory_itself() {
    let mounts = "\
/dev/sdb1 /mnt ext4 rw 0 0
/dev/sdc1 /mnt2 ext4 rw 0 0";
    assert_eq!(mount_points(mounts), vec!["/mnt".to_string()]);
}

#[test]
fn roots_from_mounts_decode_all_octal_escapes() {
    let mounts = "/dev/sdb1 /media/user/a\\011b\\012c\\134d vfat rw 0 0";
    assert_eq!(mount_points(mounts), vec!["/media/user/a\tb\nc\\d".to_string()]);
}

#[test]
fn roots_from_mounts_keep_non_escape_backslashes_literal() {
    let mounts = "/dev/sdb1 /media/user/a\\800b\\77 vfat rw 0 0";
    assert_eq!(mount_points(mounts), vec!["/media/user/a\\800b\\77".to_string()]);
}

#[test]
fn network_filesystems_are_told_apart_from_local_ones() {
    for fstype in ["nfs", "nfs4", "cifs", "smbfs", "sshfs", "fuse.sshfs", "afpfs"] {
        assert!(is_network_fs(fstype), "{fstype} is a network filesystem");
    }
    for fstype in ["ext4", "vfat", "exfat", "apfs", "ntfs", "fuseblk", "btrfs"] {
        assert!(!is_network_fs(fstype), "{fstype} is a local filesystem");
    }
}

#[test]
fn root_label_is_the_volume_name() {
    assert_eq!(root_label("/Volumes/My Disk"), "My Disk");
}

#[test]
fn root_label_of_bare_root_is_the_path_itself() {
    assert_eq!(root_label("/"), "/");
}

#[test]
fn root_label_ignores_a_trailing_separator_but_not_a_parent_step() {
    assert_eq!(root_label("/Volumes/Data/"), "Data");
    assert_eq!(root_label("/Volumes/Data/."), "Data");
    assert_eq!(root_label("/Volumes/.."), "/Volumes/..");
}

#[test]
fn bind_mounts_of_the_same_path_collapse_even_when_spelled_differently() {
    let mounts = "\
/dev/sdb1 /mnt/data ext4 rw 0 0
/dev/sdb1 /mnt//data/ ext4 rw 0 0";
    assert_eq!(mount_points(mounts), vec!["/mnt/data".to_string()]);
}

#[test]
fn mount_points_sort_by_component_not_by_character() {
    // "/mnt/a b" sorts after "/mnt/a/b": the component "a" comes before "a b".
    let mounts = "\
/dev/sdb1 /mnt/a\\040b ext4 rw 0 0
/dev/sdc1 /mnt/a/b ext4 rw 0 0";
    assert_eq!(
        mount_points(mounts),
        vec!["/mnt/a/b".to_string(), "/mnt/a b".to_string()]
    );
}

#[test]
fn a_short_line_is_not_a_mount() {
    assert!(mount_points("/dev/sdb1 /mnt\n\n   \n").is_empty());
}

#[test]
fn an_escape_of_an_invalid_byte_is_replaced() {
    assert_eq!(unescape_mount_point("/media/\\377x"), "/media/\u{fffd}x");
    assert_eq!(unescape_mount_point("/media/\\04"), "/media/\\04");
}

#[test]
fn the_removable_test_is_asked_only_for_local_drives() {
    let asked = std::cell::RefCell::new(Vec::new());
    let roots = roots_from_mounts(
        "//srv/x /mnt/net nfs4 rw 0 0\n/dev/sdz1 /media/z ext4 rw 0 0",
        |device| {
            asked.borrow_mut().push(device.to_string());
            true
        },
    );
    assert_eq!(asked.into_inner(), vec!["/dev/sdz1".to_string()]);
    assert_eq!(roots[0].kind, DiskKind::Removable);
    assert_eq!(roots[1].kind, DiskKind::Network);
}

#[test]
fn usage_counts_what_is_not_available_as_used() {
    assert_eq!(
        DiskUsage::from_space(1000, 250),
        DiskUsage { used: 750, total: 1000 }
    );
    assert_eq!(DiskUsage::from_space(10, 20), DiskUsage { used: 0, total: 10 });
}

#[test]
fn platform_drive_kinds() {
    assert_eq!(volume_kind(Some("smbfs")), DiskKind::Network);
    assert_eq!(volume_kind(Some("apfs")), DiskKind::Removable);
    assert_eq!(volume_kind(None), DiskKind::Removable);
    assert_eq!(drive_kind_of_type(2), DiskKind::Removable);
    assert_eq!(drive_kind_of_type(3), DiskKind::Internal);
    assert_eq!(drive_kind_of_type(4), DiskKind::Network);
    assert_eq!(drive_kind_of_type(5), DiskKind::Optical);
    assert_eq!(drive_kind_of_type(0), DiskKind::Internal);
}

#[test]
fn an_invalid_byte_in_a_mount_point_reads_as_a_replacement_character() {
    assert_eq!(unescape_mount_point("/media/\\377x"), "/media/\u{FFFD}x");
    let roots = mounted_roots(Some("/dev/sdb1 /media/\\377 ext4 rw 0 0\n"), |_: &str| true);
    assert_eq!(roots.len(), 2);
    assert_eq!(roots[1].path, "/media/\u{FFFD}");
}
