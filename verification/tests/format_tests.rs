use filegram::format::{human_size, shorten_path};

#[test]
fn human_size_bytes() {
    assert_eq!(human_size(0), "0 B");
    assert_eq!(human_size(1023), "1023 B");
}

#[test]
fn human_size_binary_units() {
    assert_eq!(human_size(1024), "1.0 KB");
    assert_eq!(human_size(1536), "1.5 KB");
    assert_eq!(human_size(1024 * 1024), "1.0 MB");
    assert_eq!(human_size(1024 * 1024 * 1024), "1.0 GB");
    assert_eq!(human_size(1024_u64.pow(4)), "1.0 TB");
    assert_eq!(human_size(2_621_440), "2.5 MB");
}

#[test]
fn shorten_path_fits_unchanged() {
    assert_eq!(shorten_path("/a/b/c/d", 20), "/a/b/c/d");
}

#[test]
fn shorten_path_replaces_middle_segments() {
    assert_eq!(
        shorten_path("/home/user/projects/filegram", 20),
        "/../../../filegram"
    );
}

#[test]
fn shorten_path_keeps_last_segment() {
    assert_eq!(shorten_path("/home/user/filegram", 5), "/../../filegram");
}

/// The size text as floating-point formatting gives it: the value divided
/// by 1024 until it drops below 1024 (at most terabytes), one decimal.
fn float_size(bytes: u64) -> String {
    if bytes < 1024 {
        return format!("{bytes} B");
    }
    let units = ["KB", "MB", "GB", "TB"];
    let mut value = bytes as f64 / 1024.0;
    let mut unit = units[0];
    for next in &units[1..] {
        if value < 1024.0 {
            break;
        }
        value /= 1024.0;
        unit = next;
    }
    format!("{value:.1} {unit}")
}

#[test]
fn human_size_matches_float_formatting_on_ties_and_edges() {
    let cases = [
        1024,
        1075,
        1126,
        1280,
        1331,
        1433,
        1536,
        1_048_575,
        1_048_576,
        1_101_004,
        1_153_433,
        408_192,
        12_288,
        5_368_709_120,
        1_099_511_627_775,
        1_099_511_627_776,
        1_125_899_906_842_624,
        9_007_199_254_740_993,
        u64::MAX,
    ];
    for bytes in cases {
        assert_eq!(human_size(bytes), float_size(bytes), "{bytes}");
    }
    let mut bytes: u64 = 1;
    while bytes < u64::MAX / 3 {
        for probe in [bytes, bytes + 51, bytes * 5 / 4, bytes * 3 / 2 + 1] {
            assert_eq!(human_size(probe), float_size(probe), "{probe}");
        }
        bytes = bytes * 3 + 7;
    }
}

#[test]
fn human_size_of_the_largest_size_stays_in_terabytes() {
    assert_eq!(human_size(u64::MAX), "16777216.0 TB");
}

#[test]
fn shorten_path_counts_characters_not_bytes() {
    // "é" is one character, though it takes two bytes in UTF-8.
    assert_eq!(shorten_path("/éé/b", 5), "/éé/b");
    assert_eq!(shorten_path("ééé/x", 5), "ééé/x");
    assert_eq!(shorten_path("/ééé/b", 5), "/../b");
}

#[test]
fn shorten_path_skips_segments_already_hidden() {
    assert_eq!(shorten_path("/../long/x", 8), "/../../x");
}

#[test]
fn shorten_path_without_separators_is_kept() {
    assert_eq!(shorten_path("filegram", 3), "filegram");
}

#[test]
fn shortening_stops_once_every_middle_segment_is_hidden() {
    // Too long even with every middle segment hidden: the last one stays.
    assert_eq!(shorten_path("/alpha/beta/gamma", 4), "/../../gamma");
}
