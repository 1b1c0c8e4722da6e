use filegram::disk::{DiskKind, DiskRoot, DiskUsage};
use filegram::fs_tree::{FsTree, NodeId, ScanNode};
use filegram::history::History;
use filegram::i18n::Lang;
use filegram::settings::ThemeMode;
use filegram::state::{initial_path, initial_path_with, App, Effect, Message, ScanState};

const VERSION: &str = "0.3.0";

fn test_app() -> App {
    App::new(
        History::default(),
        String::new(),
        Vec::new(),
        Lang::EnUs,
        VERSION.to_string(),
    )
}

fn dir_node(name: &str, path: &str, parent: usize) -> ScanNode {
    ScanNode {
        name: name.into(),
        path: path.into(),
        size: 0,
        is_dir: true,
        parent,
    }
}

fn scanned_app_at(path: &str) -> App {
    let mut app = test_app();
    app.scan = ScanState::Done;
    app.tree = Some(FsTree::from_arena(&[dir_node("root", path, 0)]));
    app
}

fn scanned_app() -> App {
    scanned_app_at("/root")
}

fn stale_usage() -> DiskUsage {
    DiskUsage { used: 1, total: 2 }
}

fn fresh_usage() -> DiskUsage {
    DiskUsage {
        used: 10,
        total: 1_000_000,
    }
}

/// Feeds a message, answering the effects the way the outside world
/// would: `is_dir` and `usage` for a checked scan root, `usage` for a
/// volume read, `trash_ok` for a move to the trash.
fn step(
    app: &mut App,
    msg: Message,
    is_dir: bool,
    usage: Option<DiskUsage>,
    trash_ok: bool,
) -> Vec<Effect> {
    assert!(app.accepts(&msg));
    let mut done = Vec::new();
    let mut queue = app.update(msg);
    while !queue.is_empty() {
        let effect = queue.remove(0);
        let answer = match &effect {
            Effect::CheckScanRoot(_) => Some(Message::ScanRootChecked { is_dir, usage }),
            Effect::ReadRootUsage(_) => Some(Message::RootUsageRead(usage)),
            Effect::Trash { id, .. } => Some(Message::Trashed {
                id: *id,
                ok: trash_ok,
            }),
            _ => None,
        };
        done.push(effect);
        if let Some(answer) = answer {
            assert!(app.accepts(&answer));
            let more = app.update(answer);
            queue.extend(more);
        }
    }
    done
}

fn send(app: &mut App, msg: Message) -> Vec<Effect> {
    step(app, msg, true, None, true)
}

#[test]
fn latest_release_shown_only_when_it_differs() {
    let mut app = test_app();
    send(&mut app, Message::LatestReleaseLoaded(None));
    assert_eq!(app.latest_release, None);
    send(&mut app, Message::LatestReleaseLoaded(Some(format!("v{VERSION}"))));
    assert_eq!(app.latest_release, None);
    send(&mut app, Message::LatestReleaseLoaded(Some("v99.0.0".to_string())));
    assert_eq!(app.latest_release, Some("v99.0.0".to_string()));
    assert_eq!(
        send(&mut app, Message::LatestReleasePressed),
        vec![Effect::OpenRelease("v99.0.0".to_string())]
    );
}

#[test]
fn delete_requires_confirmation() {
    let mut app = scanned_app();
    send(&mut app, Message::DeleteRequested(NodeId(3)));
    assert_eq!(app.pending_delete, Some(NodeId(3)));
    send(&mut app, Message::DeleteCancelled);
    assert_eq!(app.pending_delete, None);
}

#[test]
fn delete_request_ignored_until_scan_finishes() {
    let mut app = test_app();
    for scan in [
        ScanState::Idle,
        ScanState::Running {
            current: String::new(),
            files: 0,
            dirs: 0,
        },
    ] {
        app.scan = scan;
        send(&mut app, Message::DeleteRequested(NodeId(3)));
        assert_eq!(app.pending_delete, None);
    }
}

#[test]
fn delete_request_ignored_without_tree() {
    let mut app = scanned_app();
    app.tree = None;
    send(&mut app, Message::DeleteRequested(NodeId(3)));
    assert_eq!(app.pending_delete, None);
}

#[test]
fn confirm_without_tree_clears_pending() {
    let mut app = scanned_app();
    send(&mut app, Message::DeleteRequested(NodeId(3)));
    app.tree = None;
    let effects = send(&mut app, Message::DeleteConfirmed);
    assert_eq!(app.pending_delete, None);
    assert!(effects.is_empty());
}

#[test]
fn rescan_restarts_scan_at_tree_root() {
    let mut app = test_app();
    app.scan = ScanState::Done;
    app.tree = Some(FsTree::from_arena(&[
        dir_node("root", "/scans/root", 0),
        dir_node("sub", "/scans/root/sub", 0),
    ]));
    app.current = NodeId(1);
    app.path_input = "/somewhere/else".into();
    let effects = send(&mut app, Message::Rescan);
    assert_eq!(app.path_input, "/scans/root");
    assert!(matches!(&app.scan, ScanState::Running { current, .. } if current == "/scans/root"));
    assert!(effects.contains(&Effect::StartScanner("/scans/root".to_string())));
}

#[test]
fn rescan_ignored_without_tree() {
    let mut app = scanned_app();
    app.tree = None;
    send(&mut app, Message::Rescan);
    assert!(matches!(app.scan, ScanState::Done));
}

#[test]
fn theme_follows_system_mode() {
    let mut app = test_app();
    send(&mut app, Message::SystemThemeChanged(ThemeMode::Dark));
    assert!(app.is_dark());
    send(&mut app, Message::SystemThemeChanged(ThemeMode::Light));
    assert!(!app.is_dark());
}

#[test]
fn toggle_flips_theme() {
    let mut app = test_app();
    send(&mut app, Message::ToggleTheme);
    assert!(app.is_dark());
    send(&mut app, Message::ToggleTheme);
    assert!(!app.is_dark());
}

#[test]
fn toggle_persists_theme_choice() {
    let mut app = test_app();
    assert_eq!(send(&mut app, Message::ToggleTheme), vec![Effect::SaveSettings]);
    assert_eq!(app.theme_override, Some(ThemeMode::Dark));
    assert_eq!(send(&mut app, Message::ToggleTheme), vec![Effect::SaveSettings]);
    assert_eq!(app.theme_override, Some(ThemeMode::Light));
}

#[test]
fn language_pick_overrides_system_and_closes_menu() {
    let mut app = test_app();
    send(&mut app, Message::LanguageMenuToggled);
    assert!(app.lang_menu_open);
    send(&mut app, Message::LanguagePicked(Lang::RuRu));
    assert!(!app.lang_menu_open);
    assert_eq!(app.lang().strings().scan, "Сканировать");
}

#[test]
fn language_menu_expands_and_resets_on_reopen() {
    let mut app = test_app();
    app.system_lang = Lang::EnUs;
    send(&mut app, Message::LanguageMenuToggled);
    assert!(!app.lang_menu_expanded);
    send(&mut app, Message::LanguageMenuExpanded);
    assert!(app.lang_menu_expanded);
    send(&mut app, Message::LanguageMenuToggled);
    send(&mut app, Message::LanguageMenuToggled);
    assert!(app.lang_menu_open);
    assert!(!app.lang_menu_expanded);
}

#[test]
fn language_menu_opens_expanded_for_an_extended_language() {
    let mut app = test_app();
    app.lang_override = Some(Lang::Uk);
    send(&mut app, Message::LanguageMenuToggled);
    assert!(app.lang_menu_expanded);
}

#[test]
fn language_pick_persists_alongside_theme() {
    let mut app = test_app();
    let mut effects = send(&mut app, Message::ToggleTheme);
    effects.extend(send(&mut app, Message::LanguagePicked(Lang::JaJp)));
    assert_eq!(effects, vec![Effect::SaveSettings, Effect::SaveSettings]);
    assert_eq!(app.theme_override, Some(ThemeMode::Dark));
    assert_eq!(app.lang_override, Some(Lang::JaJp));
}

#[test]
fn strings_follow_system_until_overridden() {
    let mut app = test_app();
    app.system_lang = Lang::DeDe;
    assert_eq!(app.lang().strings().scan, "Scannen");
    send(&mut app, Message::LanguagePicked(Lang::Tr));
    assert_eq!(app.lang().strings().scan, "Tara");
}

#[test]
fn manual_theme_survives_system_change() {
    let mut app = test_app();
    send(&mut app, Message::SystemThemeChanged(ThemeMode::Light));
    send(&mut app, Message::ToggleTheme);
    assert!(app.is_dark());
    send(&mut app, Message::SystemThemeChanged(ThemeMode::Light));
    assert!(app.is_dark());
}

#[test]
fn initial_path_prefers_latest_history_entry() {
    let mut history = History::default();
    history.push("/scans/latest");
    assert_eq!(initial_path(&history), "/scans/latest");
    assert_ne!(initial_path(&History::default()), "/scans/latest");
    assert!(!initial_path(&History::default()).is_empty());
    assert_eq!(initial_path_with(&History::default(), None), ".");
    assert_eq!(
        initial_path_with(&History::default(), Some("/home/me".to_string())),
        "/home/me"
    );
}

#[test]
fn start_scan_normalizes_input_and_records_existing_dir() {
    let mut app = test_app();
    app.path_input = "  /data/photos/  ".to_string();
    let effects = step(&mut app, Message::StartScan, true, None, true);
    assert_eq!(app.path_input, "/data/photos");
    assert_eq!(app.history.latest(), Some("/data/photos"));
    assert_eq!(
        effects,
        vec![
            Effect::CheckScanRoot("/data/photos".to_string()),
            Effect::SaveHistory,
            Effect::ClearCache,
            Effect::StartScanner("/data/photos".to_string()),
        ]
    );
}

#[test]
fn start_scan_skips_history_for_missing_path() {
    let mut app = test_app();
    app.path_input = "/tmp/missing".to_string();
    step(&mut app, Message::StartScan, false, None, true);
    assert_eq!(app.history.latest(), None);
    assert!(matches!(app.scan, ScanState::Running { .. }));
}

#[test]
fn start_scan_queries_disk_usage_for_existing_dir() {
    let mut app = test_app();
    app.path_input = "/data".to_string();
    step(&mut app, Message::StartScan, true, Some(fresh_usage()), true);
    let usage = app.disk_usage.expect("an existing dir has a volume");
    assert!(usage.total > 0);
}

#[test]
fn start_scan_drops_disk_usage_for_missing_path() {
    let mut app = test_app();
    app.disk_usage = Some(stale_usage());
    app.path_input = "/tmp/missing".to_string();
    step(&mut app, Message::StartScan, false, None, true);
    assert_eq!(app.disk_usage, None);
}

#[test]
fn history_pick_fills_input_and_starts_scan() {
    let mut app = test_app();
    send(&mut app, Message::HistoryPicked("/data/music".to_string()));
    assert_eq!(app.path_input, "/data/music");
    assert!(matches!(app.scan, ScanState::Running { .. }));
    assert_eq!(app.history.latest(), Some("/data/music"));
}

#[test]
fn window_focus_refreshes_disk_usage_on_finished_map() {
    let mut app = scanned_app_at("/data");
    app.disk_usage = Some(stale_usage());
    let effects = step(&mut app, Message::WindowFocused, true, Some(fresh_usage()), true);
    assert!(effects.contains(&Effect::ReadRootUsage("/data".to_string())));
    let usage = app.disk_usage.expect("the volume is there");
    assert!(usage.total > 2);
}

#[test]
fn window_focus_hides_bar_when_volume_query_fails() {
    let mut app = scanned_app_at("/gone");
    app.disk_usage = Some(stale_usage());
    step(&mut app, Message::WindowFocused, true, None, true);
    assert_eq!(app.disk_usage, None);
}

#[test]
fn window_focus_ignored_before_map_is_finished() {
    let mut app = test_app();
    for scan in [
        ScanState::Idle,
        ScanState::Running {
            current: String::new(),
            files: 0,
            dirs: 0,
        },
    ] {
        app.scan = scan;
        app.disk_usage = Some(stale_usage());
        let effects = step(&mut app, Message::WindowFocused, true, None, true);
        assert_eq!(effects, vec![Effect::ListDiskRoots]);
        assert_eq!(app.disk_usage, Some(stale_usage()));
    }
}

#[test]
fn initial_app_lists_disk_roots() {
    let roots = vec![DiskRoot {
        path: "/".to_string(),
        kind: DiskKind::Internal,
    }];
    let app = App::new(History::default(), ".".into(), roots.clone(), Lang::EnUs, VERSION.into());
    assert_eq!(app.disk_roots, roots);
}

#[test]
fn window_focus_refreshes_disk_roots() {
    let mut app = test_app();
    app.disk_roots = vec![DiskRoot {
        path: "/filegram-test-unmounted".to_string(),
        kind: DiskKind::Removable,
    }];
    let effects = send(&mut app, Message::WindowFocused);
    assert_eq!(effects, vec![Effect::ListDiskRoots]);
    let listed = vec![DiskRoot {
        path: "/".to_string(),
        kind: DiskKind::Internal,
    }];
    send(&mut app, Message::DiskRootsListed(listed.clone()));
    assert_eq!(app.disk_roots, listed);
}

#[test]
fn start_scan_ignores_a_path_that_normalizes_to_blank() {
    let mut app = test_app();
    app.path_input = "/media/user/bad\nname".to_string();
    let effects = send(&mut app, Message::StartScan);
    assert!(effects.is_empty());
    assert!(matches!(app.scan, ScanState::Idle));
    assert!(app.history.entries().is_empty());
}

#[test]
fn window_focus_ignored_without_tree() {
    let mut app = scanned_app();
    app.tree = None;
    app.disk_usage = Some(stale_usage());
    send(&mut app, Message::WindowFocused);
    assert_eq!(app.disk_usage, Some(stale_usage()));
}

#[test]
fn confirmed_delete_refreshes_disk_usage() {
    let mut app = test_app();
    app.scan = ScanState::Done;
    app.tree = Some(FsTree::from_arena(&[
        ScanNode {
            name: "root".into(),
            path: "/data".into(),
            size: 4,
            is_dir: true,
            parent: 0,
        },
        ScanNode {
            name: "victim".into(),
            path: "/data/victim".into(),
            size: 4,
            is_dir: false,
            parent: 0,
        },
    ]));
    app.disk_usage = Some(stale_usage());
    send(&mut app, Message::DeleteRequested(NodeId(1)));
    let effects = step(&mut app, Message::DeleteConfirmed, true, Some(fresh_usage()), true);
    assert_eq!(
        effects[0],
        Effect::Trash {
            id: NodeId(1),
            path: "/data/victim".to_string(),
        }
    );
    let tree = app.tree.as_ref().unwrap();
    assert!(tree.node(tree.root).children.is_empty());
    let usage = app.disk_usage.expect("the volume is alive");
    assert!(usage.total > 2);
}

#[test]
fn failed_delete_keeps_disk_usage() {
    let mut app = scanned_app_at("/data");
    app.disk_usage = Some(stale_usage());
    send(&mut app, Message::DeleteRequested(NodeId(0)));
    step(&mut app, Message::DeleteConfirmed, true, Some(fresh_usage()), false);
    assert_eq!(app.disk_usage, Some(stale_usage()));
}

#[test]
fn new_scan_drops_pending_delete() {
    let mut app = scanned_app();
    app.path_input = "/tmp/missing".to_string();
    send(&mut app, Message::DeleteRequested(NodeId(3)));
    step(&mut app, Message::StartScan, false, None, true);
    assert_eq!(app.pending_delete, None);
}

#[test]
fn a_scan_settles_into_the_map_at_its_root() {
    let mut app = test_app();
    app.path_input = "/data".to_string();
    send(&mut app, Message::StartScan);
    send(
        &mut app,
        Message::ScanProgress {
            current: "/data/a".to_string(),
            files: 12,
            dirs: 2,
        },
    );
    assert!(matches!(&app.scan, ScanState::Running { files: 12, dirs: 2, .. }));
    let tree = FsTree::from_arena(&[dir_node("root", "/data", 0)]);
    let effects = step(&mut app, Message::ScanFinished(tree), true, Some(fresh_usage()), true);
    assert_eq!(
        effects,
        vec![Effect::ReadRootUsage("/data".to_string()), Effect::ClearCache]
    );
    assert!(matches!(app.scan, ScanState::Done));
    assert_eq!(app.current, NodeId(0));
    assert_eq!(app.disk_usage, Some(fresh_usage()));
    // A late snapshot after the finish changes nothing.
    let late = FsTree::from_arena(&[dir_node("late", "/late", 0)]);
    assert!(send(&mut app, Message::ScanSnapshot(late)).is_empty());
    assert_eq!(app.tree.as_ref().unwrap().nodes[0].name, "root");
}

#[test]
fn bricks_open_folders_and_files() {
    let mut app = test_app();
    app.scan = ScanState::Done;
    app.tree = Some(FsTree::from_arena(&[
        dir_node("root", "/r", 0),
        dir_node("sub", "/r/sub", 0),
        ScanNode {
            name: "f".into(),
            path: "/r/sub/f".into(),
            size: 3,
            is_dir: false,
            parent: 1,
        },
        dir_node("empty", "/r/empty", 0),
    ]));
    assert_eq!(send(&mut app, Message::BrickPressed(NodeId(3))), vec![]);
    assert_eq!(app.current, NodeId(0));
    assert_eq!(send(&mut app, Message::BrickPressed(NodeId(1))), vec![Effect::ClearCache]);
    assert_eq!(app.current, NodeId(1));
    assert_eq!(app.nav_stack, vec![NodeId(0)]);
    assert_eq!(
        send(&mut app, Message::BrickPressed(NodeId(2))),
        vec![Effect::OpenFile("/r/sub/f".to_string())]
    );
    send(&mut app, Message::GoUp);
    assert_eq!(app.current, NodeId(0));
    assert!(app.nav_stack.is_empty());
    assert_eq!(send(&mut app, Message::GoUp), vec![]);
}

#[test]
fn a_removed_history_entry_stops_being_hovered() {
    let mut app = test_app();
    app.history.push("/a");
    app.history.push("/b");
    send(&mut app, Message::HistoryHovered(Some("/a".to_string())));
    let effects = send(&mut app, Message::HistoryRemoved("/a".to_string()));
    assert_eq!(effects, vec![Effect::SaveHistory]);
    assert_eq!(app.history.entries(), ["/b"]);
    assert_eq!(app.hovered_history, None);
}

#[test]
fn the_smoke_frame_waits_for_a_running_scan() {
    let mut app = test_app();
    assert_eq!(send(&mut app, Message::SmokeFrameRendered), vec![Effect::Exit]);
    app.scan = ScanState::Running {
        current: String::new(),
        files: 0,
        dirs: 0,
    };
    assert!(send(&mut app, Message::SmokeFrameRendered).is_empty());
}

#[test]
fn an_abandoned_scan_finish_is_ignored() {
    let mut app = test_app();
    app.path_input = "/data".to_string();
    send(&mut app, Message::StartScan);
    assert_eq!(
        send(&mut app, Message::NewScan),
        vec![Effect::CancelScanner, Effect::ClearCache]
    );
    let tree = FsTree::from_arena(&[dir_node("root", "/data", 0)]);
    assert!(send(&mut app, Message::ScanFinished(tree)).is_empty());
    assert!(matches!(app.scan, ScanState::Idle));
    assert!(app.tree.is_none());
}
