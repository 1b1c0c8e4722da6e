use filegram::history::{normalize, History, MAX_ENTRIES};

#[test]
fn push_keeps_most_recent_first() {
    let mut history = History::default();
    history.push("/a");
    history.push("/b");
    assert_eq!(history.entries(), ["/b", "/a"]);
    assert_eq!(history.latest(), Some("/b"));
}

#[test]
fn push_moves_duplicate_to_front() {
    let mut history = History::default();
    history.push("/a");
    history.push("/b");
    history.push("/a");
    assert_eq!(history.entries(), ["/a", "/b"]);
}

#[test]
fn push_caps_at_max_entries() {
    let mut history = History::default();
    for i in 0..(MAX_ENTRIES + 5) {
        history.push(&format!("/dir{i}"));
    }
    assert_eq!(history.entries().len(), MAX_ENTRIES);
    assert_eq!(history.latest(), Some("/dir14"));
    assert!(!history.entries().contains(&"/dir0".to_string()));
}

#[test]
fn push_ignores_blank_paths() {
    let mut history = History::default();
    history.push("");
    history.push("   ");
    assert_eq!(history.latest(), None);
}

#[test]
fn push_trims_and_dedupes_whitespace_variants() {
    let mut history = History::default();
    history.push("/tmp");
    history.push("/tmp ");
    assert_eq!(history.entries(), ["/tmp"]);
    history.push(" /var ");
    assert_eq!(history.latest(), Some("/var"));
}

#[test]
fn empty_history_has_no_latest() {
    assert_eq!(History::default().latest(), None);
}

#[test]
fn history_save_load_roundtrip() {
    let mut history = History::default();
    history.push("/a");
    history.push("/b");
    let text = history.to_text();
    assert_eq!(History::from_text(&text), history);
}

#[test]
fn load_skips_blank_lines_and_recaps() {
    let lines: Vec<String> = (0..(MAX_ENTRIES + 3)).map(|i| format!("/dir{i}")).collect();
    let text = format!("{}\n\n  \n", lines.join("\n"));
    let history = History::from_text(&text);
    assert_eq!(history.entries().len(), MAX_ENTRIES);
    assert_eq!(history.latest(), Some("/dir0"));
}

#[test]
fn history_text_is_one_path_per_line_newest_first() {
    let mut history = History::default();
    history.push("/old");
    history.push("/new");
    assert_eq!(history.to_text(), "/new\n/old");
    assert_eq!(History::default().to_text(), "");
}

#[test]
fn loading_crlf_text_trims_the_carriage_returns() {
    let history = History::from_text("/a\r\n/b\r\n");
    assert_eq!(history.entries(), ["/a", "/b"]);
}

#[test]
fn loading_keeps_the_first_of_duplicate_lines() {
    let history = History::from_text("/x\n/y\n/x");
    assert_eq!(history.entries(), ["/x", "/y"]);
}

#[test]
fn push_trims_unicode_white_space() {
    let mut history = History::default();
    history.push("\u{3000}/wide\u{a0}");
    assert_eq!(history.latest(), Some("/wide"));
}

#[test]
fn normalize_trims_and_drops_trailing_separators() {
    assert_eq!(normalize("  /tmp/  "), "/tmp");
    assert_eq!(normalize("/tmp//"), "/tmp");
    assert_eq!(normalize(" / "), "/");
    assert_eq!(normalize("/media/bad\nname"), "");
    assert_eq!(normalize("   "), "");
}

#[test]
fn remove_drops_only_the_named_path() {
    let mut history = History::default();
    history.push("/a");
    history.push("/b");
    history.push("/c");
    history.remove("/b");
    assert_eq!(history.entries(), ["/c", "/a"]);
    history.remove("/nowhere");
    assert_eq!(history.entries(), ["/c", "/a"]);
}
