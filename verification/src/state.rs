//! The application's decisions: the state of the window and what every
//! message does to it. Whatever touches the outside world (scanning, the
//! filesystem, the trash, saving files, opening links) comes out as an
//! [`Effect`] for the event loop to carry out; what it learns comes back as
//! a [`Message`].

use vstd::prelude::*;
use crate::disk::{DiskRoot, DiskUsage};
use crate::fs_tree::{child_removed, trimmed_size, FsTree, NodeId};
use crate::history::{normalize, normalized_path, pushed, without, History};
use crate::i18n::{Lang, PRIMARY};
use crate::settings::ThemeMode;
use crate::text::{chars_equal, chars_of};

verus! {

/// Where the scan stands.
#[derive(Debug)]
pub enum ScanState {
    Idle,
    Running { current: String, files: u64, dirs: u64 },
    Done,
}

/// What happened: a user action, a scan event, or the outcome of an
/// [`Effect`].
#[derive(Debug)]
pub enum Message {
    PathChanged(String),
    HistoryPicked(String),
    /// The pointer entered (`Some(path)`) or left (`None`) a recent-scan row.
    HistoryHovered(Option<String>),
    /// The delete cross on a recent-scan row was clicked.
    HistoryRemoved(String),
    StartScan,
    CancelScan,
    ScanProgress { current: String, files: u64, dirs: u64 },
    ScanSnapshot(FsTree),
    ScanFinished(FsTree),
    BrickPressed(NodeId),
    SetActive(Option<NodeId>),
    GoUp,
    NewScan,
    Rescan,
    Reveal(NodeId),
    DeleteRequested(NodeId),
    DeleteConfirmed,
    DeleteCancelled,
    SystemThemeChanged(ThemeMode),
    ToggleTheme,
    LanguageMenuToggled,
    LanguageMenuExpanded,
    LanguagePicked(Lang),
    WindowFocused,
    LatestReleaseLoaded(Option<String>),
    LatestReleasePressed,
    /// The first frame rendered in smoke-test mode.
    SmokeFrameRendered,
    /// The scan root was looked at: whether it is a directory, and the
    /// usage of its volume, if that could be read.
    ScanRootChecked { is_dir: bool, usage: Option<DiskUsage> },
    /// The mounted volume roots were listed.
    DiskRootsListed(Vec<DiskRoot>),
    /// The volume of the scanned tree was read again.
    RootUsageRead(Option<DiskUsage>),
    /// The node was moved to the trash (`ok`), or the move failed.
    Trashed { id: NodeId, ok: bool },
}

/// Work for the event loop.
#[derive(Debug, Clone, PartialEq, Eq)]
pub enum Effect {
    /// Check whether the path is a directory and read the usage of its
    /// volume; answer with [`Message::ScanRootChecked`].
    CheckScanRoot(String),
    /// Start scanning the path under a fresh cancel flag.
    StartScanner(String),
    /// Raise the cancel flag of the running scan.
    CancelScanner,
    /// Drop the map's cached geometry.
    ClearCache,
    SaveHistory,
    SaveSettings,
    /// Open the file with an external application.
    OpenFile(String),
    /// Show the file in the file manager.
    RevealFile(String),
    /// Move the file to the trash; answer with [`Message::Trashed`].
    Trash { id: NodeId, path: String },
    /// List the mounted volume roots; answer with
    /// [`Message::DiskRootsListed`].
    ListDiskRoots,
    /// Read the usage of the volume holding the path; answer with
    /// [`Message::RootUsageRead`].
    ReadRootUsage(String),
    /// Open the release page of the tag.
    OpenRelease(String),
    /// Close the window.
    Exit,
}

/// The state of the window.
#[derive(Debug)]
pub struct App {
    pub tree: Option<FsTree>,
    pub current: NodeId,
    /// The downward navigation stack.
    pub nav_stack: Vec<NodeId>,
    pub active: Option<NodeId>,
    /// The node awaiting trash confirmation in the modal dialog.
    pub pending_delete: Option<NodeId>,
    pub scan: ScanState,
    /// The volume of the scan root; `None` hides the usage bar.
    pub disk_usage: Option<DiskUsage>,
    /// Mounted volume roots for the quick disk row.
    pub disk_roots: Vec<DiskRoot>,
    pub path_input: String,
    pub history: History,
    /// The system light/dark preference.
    pub theme_mode: ThemeMode,
    /// The manual choice from the theme toggle; overrides the system.
    pub theme_override: Option<ThemeMode>,
    /// The system UI language, captured at startup.
    pub system_lang: Lang,
    /// The pick from the language menu; overrides the system locale.
    pub lang_override: Option<Lang>,
    pub lang_menu_open: bool,
    /// Whether the open menu shows the full list instead of the short one.
    pub lang_menu_expanded: bool,
    /// The recent-scan entry the pointer is over, by its path.
    pub hovered_history: Option<String>,
    /// The latest release tag, when it differs from the running version.
    pub latest_release: Option<String>,
    /// The running version, as release tags name it without the `v`.
    pub version: String,
}

pub const TREE: u8 = 0;
pub const CURRENT: u8 = 1;
pub const NAV_STACK: u8 = 2;
pub const ACTIVE: u8 = 3;
pub const PENDING_DELETE: u8 = 4;
pub const SCAN: u8 = 5;
pub const DISK_USAGE: u8 = 6;
pub const DISK_ROOTS: u8 = 7;
pub const PATH_INPUT: u8 = 8;
pub const HISTORY: u8 = 9;
pub const THEME_MODE: u8 = 10;
pub const THEME_OVERRIDE: u8 = 11;
pub const SYSTEM_LANG: u8 = 12;
pub const LANG_OVERRIDE: u8 = 13;
pub const LANG_MENU_OPEN: u8 = 14;
pub const LANG_MENU_EXPANDED: u8 = 15;
pub const HOVERED_HISTORY: u8 = 16;
pub const LATEST_RELEASE: u8 = 17;
pub const VERSION: u8 = 18;

/// Whether field number `k` of `a` and `b` is the same.
pub open spec fn same_field(a: App, b: App, k: u8) -> bool {
    if k == TREE {
        a.tree == b.tree
    } else if k == CURRENT {
        a.current == b.current
    } else if k == NAV_STACK {
        a.nav_stack == b.nav_stack
    } else if k == ACTIVE {
        a.active == b.active
    } else if k == PENDING_DELETE {
        a.pending_delete == b.pending_delete
    } else if k == SCAN {
        a.scan == b.scan
    } else if k == DISK_USAGE {
        a.disk_usage == b.disk_usage
    } else if k == DISK_ROOTS {
        a.disk_roots == b.disk_roots
    } else if k == PATH_INPUT {
        a.path_input == b.path_input
    } else if k == HISTORY {
        a.history == b.history
    } else if k == THEME_MODE {
        a.theme_mode == b.theme_mode
    } else if k == THEME_OVERRIDE {
        a.theme_override == b.theme_override
    } else if k == SYSTEM_LANG {
        a.system_lang == b.system_lang
    } else if k == LANG_OVERRIDE {
        a.lang_override == b.lang_override
    } else if k == LANG_MENU_OPEN {
        a.lang_menu_open == b.lang_menu_open
    } else if k == LANG_MENU_EXPANDED {
        a.lang_menu_expanded == b.lang_menu_expanded
    } else if k == HOVERED_HISTORY {
        a.hovered_history == b.hovered_history
    } else if k == LATEST_RELEASE {
        a.latest_release == b.latest_release
    } else if k == VERSION {
        a.version == b.version
    } else {
        true
    }
}

/// Whether `b` is `a` with at most the fields in `changed` changed.
pub open spec fn keeps_except(a: App, b: App, changed: Set<u8>) -> bool {
    forall|k: u8| !changed.contains(k) ==> #[trigger] same_field(a, b, k)
}

/// The dark theme is on: by the manual choice when there is one, by the
/// system preference otherwise (a neutral tone renders light).
pub open spec fn dark(app: App) -> bool {
    match app.theme_override {
        Some(mode) => mode == ThemeMode::Dark,
        None => app.theme_mode == ThemeMode::Dark,
    }
}

/// The effective language: the manual pick, else the system locale.
pub open spec fn effective_lang(app: App) -> Lang {
    match app.lang_override {
        Some(lang) => lang,
        None => app.system_lang,
    }
}

/// `tag` without its leading `v`s.
pub open spec fn without_v(tag: Seq<char>) -> Seq<char>
    decreases tag.len(),
{
    if tag.len() > 0 && tag[0] == 'v' {
        without_v(tag.drop_first())
    } else {
        tag
    }
}

/// The path of the root of `tree`.
pub open spec fn root_path(tree: FsTree) -> Seq<char> {
    tree.nodes[tree.root.0 as int].path@
}

/// Whether `new` and `fx` are what asking for a scan of `path` gives: the
/// input holds the normalized path; a blank one starts nothing, any other
/// is checked first.
pub open spec fn asks_scan(old: App, path: Seq<char>, new: App, fx: Seq<Effect>) -> bool {
    let p = normalized_path(path);
    &&& new.path_input@ == p
    &&& keeps_except(old, new, set![PATH_INPUT])
    &&& if p.len() == 0 {
        fx.len() == 0
    } else {
        fx.len() == 1 && (fx[0] matches Effect::CheckScanRoot(q) && q@ == p)
    }
}

/// The requirements of a message: the node ids it names, and the tree and
/// navigation it works on, have to be valid.
pub open spec fn accepts(app: App, msg: Message) -> bool {
    match msg {
        Message::BrickPressed(id) => app.tree matches Some(t) ==> id.0 < t.nodes.len(),
        Message::Reveal(id) => app.tree matches Some(t) ==> id.0 < t.nodes.len(),
        Message::Rescan => app.tree matches Some(t) ==> t.root.0 < t.nodes.len(),
        Message::WindowFocused => match app.tree {
            Some(t) if app.scan is Done => t.root.0 < t.nodes.len(),
            _ => true,
        },
        Message::ScanFinished(t) => app.scan is Running ==> t.root.0 < t.nodes.len(),
        Message::DeleteConfirmed => match (app.pending_delete, app.tree) {
            (Some(id), Some(t)) if app.scan is Done => id.0 < t.nodes.len(),
            _ => true,
        },
        Message::Trashed { id, ok } => match app.tree {
            Some(t) if ok => {
                &&& t.wf()
                &&& app.current.0 < t.nodes.len()
                &&& forall|k: int|
                    0 <= k < app.nav_stack@.len() ==> (#[trigger] app.nav_stack@[k]).0
                        < t.nodes.len()
                &&& !app.nav_stack@.contains(app.current)
            },
            _ => true,
        },
        _ => true,
    }
}

/// What a message does: the next state `new` and the effects `fx`.
pub open spec fn steps_to(old: App, msg: Message, new: App, fx: Seq<Effect>) -> bool {
    match msg {
        Message::PathChanged(p) => new.path_input == p && keeps_except(old, new, set![PATH_INPUT])
            && fx.len() == 0,
        Message::HistoryPicked(p) => asks_scan(old, p@, new, fx),
        Message::HistoryHovered(p) => new.hovered_history == p && keeps_except(
            old,
            new,
            set![HOVERED_HISTORY],
        ) && fx.len() == 0,
        Message::HistoryRemoved(p) => {
            &&& new.history@ == without(old.history@, p@)
            &&& new.hovered_history == if old.hovered_history matches Some(h) && h@ == p@ {
                None
            } else {
                old.hovered_history
            }
            &&& keeps_except(old, new, set![HISTORY, HOVERED_HISTORY])
            &&& fx.len() == 1 && fx[0] is SaveHistory
        },
        Message::StartScan => asks_scan(old, old.path_input@, new, fx),
        Message::CancelScan => keeps_except(old, new, set![]) && fx.len() == 1 && fx[0] is CancelScanner,
        Message::ScanProgress { current, files, dirs } => if old.scan is Running {
            &&& new.scan matches ScanState::Running { current: c, files: f, dirs: d }
            &&& c == current && f == files && d == dirs
            &&& keeps_except(old, new, set![SCAN])
            &&& fx.len() == 0
        } else {
            keeps_except(old, new, set![]) && fx.len() == 0
        },
        Message::ScanSnapshot(t) => if old.scan is Running {
            new.tree == Some(t) && keeps_except(old, new, set![TREE]) && fx.len() == 1
                && fx[0] is ClearCache
        } else {
            keeps_except(old, new, set![]) && fx.len() == 0
        },
        Message::ScanFinished(t) => if old.scan is Running {
            &&& new.tree == Some(t)
            &&& new.scan is Done
            &&& new.current == if old.tree is None {
                t.root
            } else {
                old.current
            }
            &&& keeps_except(old, new, set![TREE, SCAN, CURRENT])
            &&& fx.len() == 2
            &&& fx[0] matches Effect::ReadRootUsage(p) && p@ == root_path(t)
            &&& fx[1] is ClearCache
        } else {
            keeps_except(old, new, set![]) && fx.len() == 0
        },
        Message::BrickPressed(id) => match old.tree {
            None => keeps_except(old, new, set![]) && fx.len() == 0,
            Some(t) => {
                let node = t.nodes[id.0 as int];
                if node.is_dir && node.children@.len() > 0 {
                    &&& new.nav_stack@ == old.nav_stack@.push(old.current)
                    &&& new.current == id
                    &&& new.active is None
                    &&& keeps_except(old, new, set![NAV_STACK, CURRENT, ACTIVE])
                    &&& fx.len() == 1 && fx[0] is ClearCache
                } else if node.is_dir {
                    keeps_except(old, new, set![]) && fx.len() == 0
                } else {
                    keeps_except(old, new, set![]) && fx.len() == 1 && (fx[0] matches Effect::OpenFile(
                        p,
                    ) && p@ == node.path@)
                }
            },
        },
        Message::SetActive(id) => new.active == id && keeps_except(old, new, set![ACTIVE]) && fx.len()
            == 0,
        Message::GoUp => if old.nav_stack@.len() > 0 {
            &&& new.nav_stack@ == old.nav_stack@.drop_last()
            &&& new.current == old.nav_stack@.last()
            &&& new.active is None
            &&& keeps_except(old, new, set![NAV_STACK, CURRENT, ACTIVE])
            &&& fx.len() == 1 && fx[0] is ClearCache
        } else {
            keeps_except(old, new, set![]) && fx.len() == 0
        },
        Message::NewScan => {
            &&& new.scan is Idle
            &&& new.tree is None
            &&& keeps_except(old, new, set![SCAN, TREE])
            &&& fx.len() == 2 && fx[0] is CancelScanner && fx[1] is ClearCache
        },
        Message::Rescan => match old.tree {
            None => keeps_except(old, new, set![]) && fx.len() == 0,
            Some(t) => asks_scan(old, root_path(t), new, fx),
        },
        Message::Reveal(id) => keeps_except(old, new, set![]) && match old.tree {
            None => fx.len() == 0,
            Some(t) => fx.len() == 1 && (fx[0] matches Effect::RevealFile(p) && p@ == t.nodes[id.0 as int].path@),
        },
        Message::DeleteRequested(id) => fx.len() == 0 && if old.scan is Done && old.tree is Some {
            new.pending_delete == Some(id) && keeps_except(old, new, set![PENDING_DELETE])
        } else {
            keeps_except(old, new, set![])
        },
        Message::DeleteCancelled => new.pending_delete is None && keeps_except(
            old,
            new,
            set![PENDING_DELETE],
        ) && fx.len() == 0,
        Message::DeleteConfirmed => {
            &&& new.pending_delete is None
            &&& keeps_except(old, new, set![PENDING_DELETE])
            &&& match (old.pending_delete, old.tree) {
                (Some(id), Some(t)) => if old.scan is Done {
                    fx.len() == 1 && (fx[0] matches Effect::Trash { id: i, path: p } && i == id && p@
                        == t.nodes[id.0 as int].path@)
                } else {
                    fx.len() == 0
                },
                _ => fx.len() == 0,
            }
        },
        Message::Trashed { id, ok } => match old.tree {
            Some(t) if ok => {
                &&& new.tree matches Some(u) && if t.nodes[old.current.0 as int].children@.contains(id) {
                    child_removed(t, u, old.current, id, old.nav_stack@)
                } else {
                    u == t
                }
                &&& new.active is None
                &&& keeps_except(old, new, set![TREE, ACTIVE])
                &&& fx.len() == 2
                &&& fx[0] matches Effect::ReadRootUsage(p) && p@ == root_path(t)
                &&& fx[1] is ClearCache
            },
            _ => keeps_except(old, new, set![]) && fx.len() == 0,
        },
        Message::WindowFocused => {
            &&& keeps_except(old, new, set![])
            &&& match old.tree {
                Some(t) if old.scan is Done => fx.len() == 2 && fx[0] is ListDiskRoots && (
                fx[1] matches Effect::ReadRootUsage(p) && p@ == root_path(t)),
                _ => fx.len() == 1 && fx[0] is ListDiskRoots,
            }
        },
        Message::DiskRootsListed(roots) => new.disk_roots == roots && keeps_except(
            old,
            new,
            set![DISK_ROOTS],
        ) && fx.len() == 0,
        Message::RootUsageRead(usage) => new.disk_usage == usage && keeps_except(
            old,
            new,
            set![DISK_USAGE],
        ) && fx.len() == 0,
        Message::ScanRootChecked { is_dir, usage } => {
            &&& new.history@ == if is_dir {
                pushed(old.history@, old.path_input@)
            } else {
                old.history@
            }
            &&& new.disk_usage == usage
            &&& new.scan matches ScanState::Running { current, files, dirs }
            &&& current@ == old.path_input@ && files == 0 && dirs == 0
            &&& new.tree is None
            &&& new.current == NodeId(0)
            &&& new.nav_stack@.len() == 0
            &&& new.active is None
            &&& new.pending_delete is None
            &&& keeps_except(
                old,
                new,
                set![HISTORY, DISK_USAGE, SCAN, TREE, CURRENT, NAV_STACK, ACTIVE, PENDING_DELETE],
            )
            &&& fx.len() == if is_dir {
                3int
            } else {
                2int
            }
            &&& is_dir ==> fx[0] is SaveHistory
            &&& fx[fx.len() - 2] is ClearCache
            &&& fx[fx.len() - 1] matches Effect::StartScanner(p) && p@ == old.path_input@
        },
        Message::SystemThemeChanged(mode) => new.theme_mode == mode && keeps_except(
            old,
            new,
            set![THEME_MODE],
        ) && fx.len() == 0,
        Message::LatestReleaseLoaded(tag) => {
            &&& new.latest_release == match tag {
                Some(t) => if without_v(t@) != old.version@ {
                    Some(t)
                } else {
                    None
                },
                None => None,
            }
            &&& keeps_except(old, new, set![LATEST_RELEASE])
            &&& fx.len() == 0
        },
        Message::LatestReleasePressed => keeps_except(old, new, set![]) && match old.latest_release {
            Some(t) => fx.len() == 1 && (fx[0] matches Effect::OpenRelease(p) && p@ == t@),
            None => fx.len() == 0,
        },
        Message::SmokeFrameRendered => keeps_except(old, new, set![]) && if old.scan is Running {
            fx.len() == 0
        } else {
            fx.len() == 1 && fx[0] is Exit
        },
        Message::ToggleTheme => {
            &&& new.theme_override == Some(
                if dark(old) {
                    ThemeMode::Light
                } else {
                    ThemeMode::Dark
                },
            )
            &&& keeps_except(old, new, set![THEME_OVERRIDE])
            &&& fx.len() == 1 && fx[0] is SaveSettings
        },
        Message::LanguageMenuToggled => {
            &&& new.lang_menu_open == !old.lang_menu_open
            &&& new.lang_menu_expanded == !PRIMARY@.contains(effective_lang(old))
            &&& keeps_except(old, new, set![LANG_MENU_OPEN, LANG_MENU_EXPANDED])
            &&& fx.len() == 0
        },
        Message::LanguageMenuExpanded => new.lang_menu_expanded && keeps_except(
            old,
            new,
            set![LANG_MENU_EXPANDED],
        ) && fx.len() == 0,
        Message::LanguagePicked(lang) => {
            &&& new.lang_override == Some(lang)
            &&& !new.lang_menu_open
            &&& keeps_except(old, new, set![LANG_OVERRIDE, LANG_MENU_OPEN])
            &&& fx.len() == 1 && fx[0] is SaveSettings
        },
    }
}


/// `tag` without its leading `v`s.
fn strip_v(tag: &str) -> (r: Vec<char>)
    ensures
        r@ == without_v(tag@),
{
    let chars = chars_of(tag);
    let mut i: usize = 0;
    assert(chars@.skip(0) =~= chars@);
    while i < chars.len() && chars[i] == 'v'
        invariant
            i <= chars@.len(),
            chars@ == tag@,
            without_v(tag@) == without_v(chars@.skip(i as int)),
        decreases chars@.len() - i,
    {
        proof {
            assert(chars@.skip(i as int)[0] == chars@[i as int]);
            assert(chars@.skip(i as int).drop_first() =~= chars@.skip(i + 1));
        }
        i += 1;
    }
    proof {
        if i < chars@.len() {
            assert(chars@.skip(i as int)[0] == chars@[i as int]);
        }
        assert(chars@.skip(i as int) =~= chars@.subrange(i as int, chars@.len() as int));
    }
    crate::text::slice_chars(chars.as_slice(), i, chars.len())
}

/// The home directory as text, if the platform reports one
/// (`dirs::home_dir`, shown as `Path::display` does). It depends on the
/// environment, so nothing is stated of it.
#[verifier::external_body]
fn home_dir_text() -> (r: Option<String>) {
    dirs::home_dir().map(|home| home.display().to_string())
}

/// The default content of the path input: the most recent scanned path,
/// else the home directory, else `.`.
pub fn initial_path_with(history: &History, home: Option<String>) -> (r: String)
    ensures
        history@.len() > 0 ==> r@ == history@[0],
        history@.len() == 0 ==> match home {
            Some(h) => r == h,
            None => r@ == seq!['.'],
        },
{
    match history.latest() {
        Some(latest) => latest.to_owned(),
        None => match home {
            Some(h) => h,
            None => crate::text::string_of(&['.']),
        },
    }
}

/// The default content of the path input: the most recent scanned path,
/// or the home directory when the history is empty.
pub fn initial_path(history: &History) -> (r: String)
    ensures
        history@.len() > 0 ==> r@ == history@[0],
{
    initial_path_with(history, home_dir_text())
}

/// Whether every id on the stack is below `n` and none is `current`.
fn nav_fits(nav: &Vec<NodeId>, current: NodeId, n: usize) -> (r: bool)
    ensures
        r == ((forall|k: int| 0 <= k < nav@.len() ==> (#[trigger] nav@[k]).0 < n) && !nav@.contains(
            current,
        )),
{
    let mut k: usize = 0;
    while k < nav.len()
        invariant
            k <= nav@.len(),
            forall|q: int| 0 <= q < k ==> (#[trigger] nav@[q]).0 < n && nav@[q] != current,
        decreases nav@.len() - k,
    {
        if nav[k].0 >= n || nav[k] == current {
            proof {
                if nav@[k as int] == current {
                    assert(nav@.contains(current));
                }
            }
            return false;
        }
        k += 1;
    }
    true
}

impl App {
    /// The state the window opens in: no scan, the history loaded, the
    /// input prefilled, the system preferences followed.
    pub fn new(
        history: History,
        path_input: String,
        disk_roots: Vec<DiskRoot>,
        system_lang: Lang,
        version: String,
    ) -> (app: App)
        ensures
            app.tree is None,
            app.current == NodeId(0),
            app.nav_stack@.len() == 0,
            app.active is None,
            app.pending_delete is None,
            app.scan is Idle,
            app.disk_usage is None,
            app.disk_roots == disk_roots,
            app.path_input == path_input,
            app.history == history,
            app.theme_mode == ThemeMode::Neutral,
            app.theme_override is None,
            app.system_lang == system_lang,
            app.lang_override is None,
            !app.lang_menu_open,
            !app.lang_menu_expanded,
            app.hovered_history is None,
            app.latest_release is None,
            app.version == version,
    {
        App {
            tree: None,
            current: NodeId(0),
            nav_stack: Vec::new(),
            active: None,
            pending_delete: None,
            scan: ScanState::Idle,
            disk_usage: None,
            disk_roots,
            path_input,
            history,
            theme_mode: ThemeMode::Neutral,
            theme_override: None,
            system_lang,
            lang_override: None,
            lang_menu_open: false,
            lang_menu_expanded: false,
            hovered_history: None,
            latest_release: None,
            version,
        }
    }

    /// The effective mode: the manual choice when there is one, the system
    /// preference otherwise (a neutral tone renders light).
    pub fn is_dark(&self) -> (r: bool)
        ensures
            r == dark(*self),
    {
        match self.theme_override {
            Some(mode) => mode == ThemeMode::Dark,
            None => self.theme_mode == ThemeMode::Dark,
        }
    }

    /// The effective language: the manual pick when there is one, the
    /// system locale otherwise.
    pub fn lang(&self) -> (r: Lang)
        ensures
            r == effective_lang(*self),
    {
        match self.lang_override {
            Some(lang) => lang,
            None => self.system_lang,
        }
    }

    /// Whether the message meets what [`App::update`] requires of it.
    pub fn accepts(&self, msg: &Message) -> (r: bool)
        ensures
            r == accepts(*self, *msg),
    {
        match msg {
            Message::BrickPressed(id) | Message::Reveal(id) => match &self.tree {
                Some(t) => id.0 < t.nodes.len(),
                None => true,
            },
            Message::Rescan => match &self.tree {
                Some(t) => t.root.0 < t.nodes.len(),
                None => true,
            },
            Message::WindowFocused => match &self.tree {
                Some(t) if matches!(self.scan, ScanState::Done) => t.root.0 < t.nodes.len(),
                _ => true,
            },
            Message::ScanFinished(t) => !matches!(self.scan, ScanState::Running { .. }) || t.root.0
                < t.nodes.len(),
            Message::DeleteConfirmed => match (self.pending_delete, &self.tree) {
                (Some(id), Some(t)) if matches!(self.scan, ScanState::Done) => id.0 < t.nodes.len(),
                _ => true,
            },
            Message::Trashed { id, ok } => match &self.tree {
                Some(t) if *ok => t.is_well_formed() && self.current.0 < t.nodes.len() && nav_fits(
                    &self.nav_stack,
                    self.current,
                    t.nodes.len(),
                ),
                _ => true,
            },
            _ => true,
        }
    }

    /// The input takes the normalized `path`; a blank one starts nothing,
    /// any other is checked before its scan starts.
    fn ask_scan(&mut self, path: &str) -> (fx: Vec<Effect>)
        ensures
            asks_scan(*old(self), path@, *final(self), fx@),
    {
        self.path_input = normalize(path);
        if self.path_input.as_str().is_empty() {
            proof {
                assert(self.path_input@.len() == 0);
            }
            return Vec::new();
        }
        proof {
            assert(self.path_input@.len() != 0);
        }
        let mut fx: Vec<Effect> = Vec::new();
        fx.push(Effect::CheckScanRoot(self.path_input.clone()));
        fx
    }

    /// Applies a message: the new state, and the work it asks of the event
    /// loop, in order.
    pub fn update(&mut self, msg: Message) -> (fx: Vec<Effect>)
        requires
            accepts(*old(self), msg),
        ensures
            steps_to(*old(self), msg, *final(self), fx@),
    {
        let mut fx: Vec<Effect> = Vec::new();
        match msg {
            Message::PathChanged(path) => {
                self.path_input = path;
            },
            Message::HistoryPicked(path) => {
                fx = self.ask_scan(path.as_str());
            },
            Message::HistoryHovered(path) => {
                self.hovered_history = path;
            },
            Message::HistoryRemoved(path) => {
                self.history.remove(path.as_str());
                // The row is gone, so its cross can never be hovered again.
                let hovered_removed = match &self.hovered_history {
                    Some(h) => *h == path,
                    None => false,
                };
                if hovered_removed {
                    self.hovered_history = None;
                }
                fx.push(Effect::SaveHistory);
            },
            Message::StartScan => {
                let input = self.path_input.clone();
                fx = self.ask_scan(input.as_str());
            },
            Message::CancelScan => {
                fx.push(Effect::CancelScanner);
            },
            Message::ScanProgress { current, files, dirs } => {
                if matches!(self.scan, ScanState::Running { .. }) {
                    self.scan = ScanState::Running { current, files, dirs };
                }
            },
            Message::ScanSnapshot(tree) => {
                // A late snapshot arriving after the scan settled is ignored.
                if matches!(self.scan, ScanState::Running { .. }) {
                    self.tree = Some(tree);
                    fx.push(Effect::ClearCache);
                }
            },
            Message::ScanFinished(tree) => {
                // Only a still-running scan settles into the map.
                if matches!(self.scan, ScanState::Running { .. }) {
                    // Node ids are stable across snapshots: navigation made
                    // during the scan is kept.
                    if self.tree.is_none() {
                        self.current = tree.root;
                    }
                    let root = tree.nodes[tree.root.0].path.clone();
                    self.tree = Some(tree);
                    self.scan = ScanState::Done;
                    fx.push(Effect::ReadRootUsage(root));
                    fx.push(Effect::ClearCache);
                }
            },
            Message::BrickPressed(id) => {
                let (is_dir, has_children, path) = match &self.tree {
                    Some(t) => {
                        let node = t.node(id);
                        (node.is_dir, node.children.len() > 0, Some(node.path.clone()))
                    },
                    None => (false, false, None),
                };
                if let Some(path) = path {
                    if is_dir {
                        // An empty folder is ignored.
                        if has_children {
                            let here = self.current;
                            self.nav_stack.push(here);
                            self.current = id;
                            self.active = None;
                            fx.push(Effect::ClearCache);
                        }
                    } else {
                        fx.push(Effect::OpenFile(path));
                    }
                }
            },
            Message::SetActive(id) => {
                self.active = id;
            },
            Message::GoUp => {
                if self.nav_stack.len() > 0 {
                    let previous = self.nav_stack.pop().unwrap();
                    self.current = previous;
                    self.active = None;
                    fx.push(Effect::ClearCache);
                }
            },
            Message::NewScan => {
                // Stop the scan in flight so a late finish cannot drag the
                // abandoned scan back onto the screen; drop the tree.
                self.scan = ScanState::Idle;
                self.tree = None;
                fx.push(Effect::CancelScanner);
                fx.push(Effect::ClearCache);
            },
            Message::Rescan => {
                // The root the map was built from, not the directory
                // navigated to and not whatever the input holds.
                let root = match &self.tree {
                    Some(t) => Some(t.nodes[t.root.0].path.clone()),
                    None => None,
                };
                if let Some(root) = root {
                    fx = self.ask_scan(root.as_str());
                }
            },
            Message::Reveal(id) => {
                if let Some(t) = &self.tree {
                    fx.push(Effect::RevealFile(t.node(id).path.clone()));
                }
            },
            Message::DeleteRequested(id) => {
                // Deletion needs a finished scan and a loaded tree: the
                // dialog shows the node from it.
                if matches!(self.scan, ScanState::Done) && self.tree.is_some() {
                    self.pending_delete = Some(id);
                }
            },
            Message::DeleteCancelled => {
                self.pending_delete = None;
            },
            Message::DeleteConfirmed => {
                let pending = self.pending_delete;
                self.pending_delete = None;
                if let Some(id) = pending {
                    // The snapshot must not be edited while the scanner
                    // still produces them.
                    if matches!(self.scan, ScanState::Done) {
                        if let Some(t) = &self.tree {
                            fx.push(Effect::Trash { id, path: t.node(id).path.clone() });
                        }
                    }
                }
            },
            Message::Trashed { id, ok } => {
                if ok {
                    let mut taken: Option<FsTree> = None;
                    std::mem::swap(&mut taken, &mut self.tree);
                    match taken {
                        Some(mut t) => {
                            let root = t.nodes[t.root.0].path.clone();
                            // The deleted node was a child of the level on
                            // screen; the navigation stack holds its
                            // ancestors above that level.
                            let here = self.current;
                            t.remove_child(here, id, self.nav_stack.as_slice());
                            self.tree = Some(t);
                            self.active = None;
                            fx.push(Effect::ReadRootUsage(root));
                            fx.push(Effect::ClearCache);
                        },
                        None => {},
                    }
                }
            },
            Message::WindowFocused => {
                fx.push(Effect::ListDiskRoots);
                if matches!(self.scan, ScanState::Done) {
                    if let Some(t) = &self.tree {
                        fx.push(Effect::ReadRootUsage(t.nodes[t.root.0].path.clone()));
                    }
                }
            },
            Message::DiskRootsListed(roots) => {
                self.disk_roots = roots;
            },
            Message::RootUsageRead(usage) => {
                self.disk_usage = usage;
            },
            Message::ScanRootChecked { is_dir, usage } => {
                // Only directories that exist enter the history.
                if is_dir {
                    self.history.push(self.path_input.as_str());
                    fx.push(Effect::SaveHistory);
                }
                self.disk_usage = usage;
                self.scan = ScanState::Running {
                    current: self.path_input.clone(),
                    files: 0,
                    dirs: 0,
                };
                self.tree = None;
                self.current = NodeId(0);
                self.nav_stack = Vec::new();
                self.active = None;
                self.pending_delete = None;
                fx.push(Effect::ClearCache);
                fx.push(Effect::StartScanner(self.path_input.clone()));
            },
            Message::SystemThemeChanged(mode) => {
                self.theme_mode = mode;
            },
            Message::LatestReleaseLoaded(tag) => {
                // Only a tag that differs from the running build is worth
                // showing.
                self.latest_release = match tag {
                    Some(t) => {
                        let bare = strip_v(t.as_str());
                        let version = chars_of(self.version.as_str());
                        if chars_equal(bare.as_slice(), version.as_slice()) {
                            None
                        } else {
                            Some(t)
                        }
                    },
                    None => None,
                };
            },
            Message::LatestReleasePressed => {
                if let Some(tag) = &self.latest_release {
                    fx.push(Effect::OpenRelease(tag.clone()));
                }
            },
            Message::SmokeFrameRendered => {
                // When a scan is under way, keep going until it finishes so
                // the map gets drawn first.
                if !matches!(self.scan, ScanState::Running { .. }) {
                    fx.push(Effect::Exit);
                }
            },
            Message::ToggleTheme => {
                let mode = if self.is_dark() {
                    ThemeMode::Light
                } else {
                    ThemeMode::Dark
                };
                self.theme_override = Some(mode);
                fx.push(Effect::SaveSettings);
            },
            Message::LanguageMenuToggled => {
                self.lang_menu_open = !self.lang_menu_open;
                // The menu opens short, unless the current language only
                // lives in the full list.
                let lang = self.lang();
                let primary = PRIMARY;
                let mut listed = false;
                let mut i: usize = 0;
                while i < primary.len()
                    invariant
                        i <= primary@.len(),
                        primary@ == PRIMARY@,
                        listed == exists|j: int| 0 <= j < i && primary@[j] == lang,
                    decreases primary@.len() - i,
                {
                    if primary[i] == lang {
                        listed = true;
                    }
                    i += 1;
                }
                self.lang_menu_expanded = !listed;
            },
            Message::LanguageMenuExpanded => {
                self.lang_menu_expanded = true;
            },
            Message::LanguagePicked(lang) => {
                self.lang_override = Some(lang);
                self.lang_menu_open = false;
                fx.push(Effect::SaveSettings);
            },
        }
        fx
    }
}


/// The user's theme choice outlives any change of the system preference.
pub proof fn law_manual_theme_survives_system_change(
    old: App,
    mode: ThemeMode,
    new: App,
    fx: Seq<Effect>,
)
    requires
        steps_to(old, Message::SystemThemeChanged(mode), new, fx),
        old.theme_override is Some,
    ensures
        dark(new) == dark(old),
{
    assert(same_field(old, new, THEME_OVERRIDE));
}

/// The theme toggle always flips the theme on screen, and the choice is
/// saved.
pub proof fn law_toggle_flips_theme(old: App, new: App, fx: Seq<Effect>)
    requires
        steps_to(old, Message::ToggleTheme, new, fx),
    ensures
        dark(new) == !dark(old),
        fx == seq![Effect::SaveSettings],
{
    assert(fx =~= seq![Effect::SaveSettings]);
}

/// A picked language is the one shown from then on, whatever the system
/// says, and the choice is saved.
pub proof fn law_language_pick_overrides_system(
    old: App,
    lang: Lang,
    new: App,
    fx: Seq<Effect>,
    mid: App,
    system: Lang,
    fx2: Seq<Effect>,
)
    requires
        steps_to(old, Message::LanguagePicked(lang), new, fx),
        mid == (App { system_lang: system, ..new }),
    ensures
        effective_lang(new) == lang,
        effective_lang(mid) == lang,
        fx == seq![Effect::SaveSettings],
{
    assert(fx =~= seq![Effect::SaveSettings]);
}

/// Nothing is ever moved to the trash without a confirmation of a request
/// made on a finished scan: only a confirmed pending request yields a
/// trash effect, and a request is only taken on a finished map.
pub proof fn law_trash_needs_a_confirmed_request(old: App, msg: Message, new: App, fx: Seq<Effect>)
    requires
        steps_to(old, msg, new, fx),
    ensures
        (exists|i: int| 0 <= i < fx.len() && #[trigger] fx[i] is Trash) ==> msg is DeleteConfirmed
            && old.pending_delete is Some && old.scan is Done,
        new.pending_delete is Some && old.pending_delete != new.pending_delete ==> msg is DeleteRequested
            && old.scan is Done && old.tree is Some,
{
    if exists|i: int| 0 <= i < fx.len() && #[trigger] fx[i] is Trash {
        let i = choose|i: int| 0 <= i < fx.len() && #[trigger] fx[i] is Trash;
        match msg {
            Message::DeleteConfirmed => {},
            _ => {},
        }
    }
    if new.pending_delete is Some && old.pending_delete != new.pending_delete {
        match msg {
            Message::PathChanged(p) => {
                assert(same_field(old, new, PENDING_DELETE));
            },
            Message::HistoryPicked(p) => {
                assert(same_field(old, new, PENDING_DELETE));
            },
            Message::HistoryHovered(p) => {
                assert(same_field(old, new, PENDING_DELETE));
            },
            Message::HistoryRemoved(p) => {
                assert(same_field(old, new, PENDING_DELETE));
            },
            Message::StartScan => {
                assert(same_field(old, new, PENDING_DELETE));
            },
            Message::CancelScan => {
                assert(same_field(old, new, PENDING_DELETE));
            },
            Message::ScanProgress { current, files, dirs } => {
                assert(same_field(old, new, PENDING_DELETE));
            },
            Message::ScanSnapshot(t) => {
                assert(same_field(old, new, PENDING_DELETE));
            },
            Message::ScanFinished(t) => {
                assert(same_field(old, new, PENDING_DELETE));
            },
            Message::BrickPressed(id) => {
                assert(same_field(old, new, PENDING_DELETE));
            },
            Message::SetActive(id) => {
                assert(same_field(old, new, PENDING_DELETE));
            },
            Message::GoUp => {
                assert(same_field(old, new, PENDING_DELETE));
            },
            Message::NewScan => {
                assert(same_field(old, new, PENDING_DELETE));
            },
            Message::Rescan => {
                assert(same_field(old, new, PENDING_DELETE));
            },
            Message::Reveal(id) => {
                assert(same_field(old, new, PENDING_DELETE));
            },
            Message::DeleteRequested(id) => {},
            Message::DeleteConfirmed => {},
            Message::DeleteCancelled => {},
            Message::SystemThemeChanged(mode) => {
                assert(same_field(old, new, PENDING_DELETE));
            },
            Message::ToggleTheme => {
                assert(same_field(old, new, PENDING_DELETE));
            },
            Message::LanguageMenuToggled => {
                assert(same_field(old, new, PENDING_DELETE));
            },
            Message::LanguageMenuExpanded => {
                assert(same_field(old, new, PENDING_DELETE));
            },
            Message::LanguagePicked(lang) => {
                assert(same_field(old, new, PENDING_DELETE));
            },
            Message::WindowFocused => {
                assert(same_field(old, new, PENDING_DELETE));
            },
            Message::LatestReleaseLoaded(tag) => {
                assert(same_field(old, new, PENDING_DELETE));
            },
            Message::LatestReleasePressed => {
                assert(same_field(old, new, PENDING_DELETE));
            },
            Message::SmokeFrameRendered => {
                assert(same_field(old, new, PENDING_DELETE));
            },
            Message::ScanRootChecked { is_dir, usage } => {},
            Message::DiskRootsListed(roots) => {
                assert(same_field(old, new, PENDING_DELETE));
            },
            Message::RootUsageRead(usage) => {
                assert(same_field(old, new, PENDING_DELETE));
            },
            Message::Trashed { id, ok } => {
                assert(same_field(old, new, PENDING_DELETE));
            },
        }
    }
}

/// Scan events that arrive once the scan is over or abandoned change
/// nothing: only a running scan takes progress, snapshots and its finish.
pub proof fn law_late_scan_events_change_nothing(old: App, msg: Message, new: App, fx: Seq<Effect>)
    requires
        steps_to(old, msg, new, fx),
        !(old.scan is Running),
        msg is ScanProgress || msg is ScanSnapshot || msg is ScanFinished,
    ensures
        new == old,
        fx.len() == 0,
{
    assert(same_field(old, new, TREE));
    assert(same_field(old, new, CURRENT));
    assert(same_field(old, new, NAV_STACK));
    assert(same_field(old, new, ACTIVE));
    assert(same_field(old, new, PENDING_DELETE));
    assert(same_field(old, new, SCAN));
    assert(same_field(old, new, DISK_USAGE));
    assert(same_field(old, new, DISK_ROOTS));
    assert(same_field(old, new, PATH_INPUT));
    assert(same_field(old, new, HISTORY));
    assert(same_field(old, new, THEME_MODE));
    assert(same_field(old, new, THEME_OVERRIDE));
    assert(same_field(old, new, SYSTEM_LANG));
    assert(same_field(old, new, LANG_OVERRIDE));
    assert(same_field(old, new, LANG_MENU_OPEN));
    assert(same_field(old, new, LANG_MENU_EXPANDED));
    assert(same_field(old, new, HOVERED_HISTORY));
    assert(same_field(old, new, LATEST_RELEASE));
    assert(same_field(old, new, VERSION));
}

/// Going up right after entering a folder returns to the folder that was
/// left, with the navigation stack as it was.
pub proof fn law_up_returns_to_the_folder_left(
    start: App,
    id: NodeId,
    inside: App,
    fx_in: Seq<Effect>,
    back: App,
    fx_back: Seq<Effect>,
)
    requires
        steps_to(start, Message::BrickPressed(id), inside, fx_in),
        steps_to(inside, Message::GoUp, back, fx_back),
        start.tree matches Some(t) && t.nodes[id.0 as int].is_dir
            && t.nodes[id.0 as int].children@.len() > 0,
    ensures
        back.current == start.current,
        back.nav_stack@ == start.nav_stack@,
        back.tree == start.tree,
{
    assert(same_field(start, inside, TREE));
    assert(same_field(inside, back, TREE));
    assert(inside.nav_stack@.drop_last() =~= start.nav_stack@);
}

/// Only a path found to be a directory enters the history, and it enters as
/// the input shows it; a path that is not one leaves the history alone.
pub proof fn law_only_directories_enter_history(
    old: App,
    is_dir: bool,
    usage: Option<DiskUsage>,
    new: App,
    fx: Seq<Effect>,
)
    requires
        steps_to(old, Message::ScanRootChecked { is_dir, usage }, new, fx),
    ensures
        new.history@ == if is_dir {
            pushed(old.history@, old.path_input@)
        } else {
            old.history@
        },
{
}

/// `a` less `r`, or zero when `r` is the larger.
pub open spec fn minus_clamped(a: u64, r: u64) -> int {
    if a >= r {
        a - r
    } else {
        0
    }
}

proof fn lemma_trimmed_hits(a: u64, r: u64, hits: nat)
    ensures
        hits == 0 ==> trimmed_size(a, r, hits) == a,
        hits == 1 ==> trimmed_size(a, r, hits) == minus_clamped(a, r),
        hits >= 1 ==> trimmed_size(a, r, hits) <= minus_clamped(a, r),
{
    assert(hits >= 1 ==> hits * r >= r) by (nonlinear_arith);
    assert(hits == 0 ==> hits * r == 0) by (nonlinear_arith);
    assert(hits == 1 ==> hits * r == r) by (nonlinear_arith);
}

/// Trashing a file or folder shown in the current folder takes its size out
/// of every folder above it: the current folder and each folder on the
/// navigation stack, the root included, shrink by the trashed node's size
/// (down to zero at most; a folder the stack holds twice shrinks at least
/// that much), and no other node's size changes.
pub proof fn law_trash_shrinks_every_folder_above(old: App, id: NodeId, new: App, fx: Seq<Effect>)
    requires
        accepts(old, Message::Trashed { id, ok: true }),
        steps_to(old, Message::Trashed { id, ok: true }, new, fx),
        old.tree matches Some(t) && t.nodes[old.current.0 as int].children@.contains(id),
    ensures
        new.tree is Some,
        ({
            let t = old.tree->0;
            let u = new.tree->0;
            let removed = t.nodes[id.0 as int].size;
            let nav = old.nav_stack@;
            &&& u.nodes.len() == t.nodes.len()
            &&& u.nodes[old.current.0 as int].size == minus_clamped(
                t.nodes[old.current.0 as int].size,
                removed,
            )
            &&& forall|k: int|
                0 <= k < nav.len() ==> u.nodes[(#[trigger] nav[k]).0 as int].size <= minus_clamped(
                    t.nodes[nav[k].0 as int].size,
                    removed,
                )
            &&& nav.no_duplicates() ==> forall|k: int|
                0 <= k < nav.len() ==> u.nodes[(#[trigger] nav[k]).0 as int].size == minus_clamped(
                    t.nodes[nav[k].0 as int].size,
                    removed,
                )
            &&& forall|x: int|
                0 <= x < t.nodes.len() && x != old.current.0 && !nav.contains(NodeId(x as usize))
                    ==> #[trigger] u.nodes[x].size == t.nodes[x].size
        }),
{
    let t = old.tree->0;
    let u = new.tree->0;
    let removed = t.nodes[id.0 as int].size;
    let nav = old.nav_stack@;
    let m = nav.to_multiset();
    broadcast use vstd::seq_lib::group_to_multiset_ensures;
    assert(child_removed(t, u, old.current, id, nav));
    let c = old.current.0 as int;
    assert(m.count(NodeId(c as usize)) == 0);
    lemma_trimmed_hits(t.nodes[c].size, removed, 1);
    assert forall|k: int| 0 <= k < nav.len() implies u.nodes[(#[trigger] nav[k]).0 as int].size
        <= minus_clamped(t.nodes[nav[k].0 as int].size, removed) by {
        let x = nav[k].0 as int;
        assert(NodeId(x as usize) == nav[k]);
        assert(nav.contains(nav[k]));
        assert(x != c);
        lemma_trimmed_hits(t.nodes[x].size, removed, m.count(nav[k]));
    }
    if nav.no_duplicates() {
        nav.lemma_multiset_has_no_duplicates();
        assert forall|k: int| 0 <= k < nav.len() implies u.nodes[(#[trigger] nav[k]).0 as int].size
            == minus_clamped(t.nodes[nav[k].0 as int].size, removed) by {
            let x = nav[k].0 as int;
            assert(NodeId(x as usize) == nav[k]);
            assert(nav.contains(nav[k]));
            assert(x != c);
            lemma_trimmed_hits(t.nodes[x].size, removed, m.count(nav[k]));
        }
    }
    assert forall|x: int|
        0 <= x < t.nodes.len() && x != c && !nav.contains(NodeId(x as usize)) implies
        #[trigger] u.nodes[x].size == t.nodes[x].size by {
        lemma_trimmed_hits(t.nodes[x].size, removed, m.count(NodeId(x as usize)));
    }
}

/// Finishing a scan keeps the navigation made while its snapshots were on
/// screen: once a snapshot was shown, the current folder and the navigation
/// stack stay as they were; a scan that showed none opens at the root of
/// its tree.
pub proof fn law_finished_scan_keeps_navigation(old: App, t: FsTree, new: App, fx: Seq<Effect>)
    requires
        steps_to(old, Message::ScanFinished(t), new, fx),
        old.scan is Running,
    ensures
        new.tree == Some(t),
        new.scan is Done,
        new.nav_stack@ == old.nav_stack@,
        old.tree is Some ==> new.current == old.current,
        old.tree is None ==> new.current == t.root,
{
    assert(same_field(old, new, NAV_STACK));
}

} // verus!
