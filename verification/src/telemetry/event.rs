//! What gets reported, and the buckets that keep it from identifying anyone.

use vstd::prelude::*;
use crate::text::{chars_of, last_index_of, lemma_last_index_of};

verus! {

/// Where a scan was started from. The path itself never leaves the machine.
#[derive(Debug, Clone, Copy, PartialEq, Eq, Structural)]
pub enum RootKind {
    Home,
    Downloads,
    Desktop,
    Documents,
    Disk,
    Recent,
    Typed,
}

#[derive(Debug, Clone, Copy, PartialEq, Eq, Structural)]
pub enum FileAction {
    Open,
    Reveal,
    Trash,
}

#[derive(Debug, Clone, PartialEq, Eq)]
pub enum Event {
    AppStarted { first_launch: bool },
    /// Sent once per run, carrying the counters kept over the session;
    /// single clicks are never reported on their own.
    SessionEnded { seconds: u64, scans: u32, zoom_ins: u32, go_ups: u32 },
    ScanStarted { root: RootKind },
    ScanFinished { seconds: u64, files: u64, bytes: u64 },
    ScanCancelled { seconds: u64 },
    FileAction { action: FileAction, ok: bool },
    SettingChanged { key: &'static str, value: String },
    UpdateNoticed,
    UpdateOpened,
    /// `location` is `file.rs:line` with the source directories stripped;
    /// the panic message is dropped, since paths reach it easily.
    Panicked { location: String },
    /// The last thing sent, right before reporting is switched off.
    TelemetryDisabled,
}

/// A reported property value: a flag, a text, or an explicit nothing.
#[derive(Debug, Clone, PartialEq, Eq)]
pub enum PropValue {
    Flag(bool),
    Text(String),
    Null,
}

pub open spec fn root_kind_name(root: RootKind) -> Seq<char> {
    match root {
        RootKind::Home => "home"@,
        RootKind::Downloads => "downloads"@,
        RootKind::Desktop => "desktop"@,
        RootKind::Documents => "documents"@,
        RootKind::Disk => "disk"@,
        RootKind::Recent => "recent"@,
        RootKind::Typed => "typed"@,
    }
}

pub open spec fn file_action_name(action: FileAction) -> Seq<char> {
    match action {
        FileAction::Open => "open"@,
        FileAction::Reveal => "reveal"@,
        FileAction::Trash => "trash"@,
    }
}

/// The name an event is reported under.
pub open spec fn event_name(event: Event) -> Seq<char> {
    match event {
        Event::AppStarted { .. } => "app_started"@,
        Event::SessionEnded { .. } => "session_ended"@,
        Event::ScanStarted { .. } => "scan_started"@,
        Event::ScanFinished { .. } => "scan_finished"@,
        Event::ScanCancelled { .. } => "scan_cancelled"@,
        Event::FileAction { .. } => "file_action"@,
        Event::SettingChanged { .. } => "setting_changed"@,
        Event::UpdateNoticed => "update_noticed"@,
        Event::UpdateOpened => "update_opened"@,
        Event::Panicked { .. } => "panicked"@,
        Event::TelemetryDisabled => "telemetry_disabled"@,
    }
}

/// The range a count is reported as.
pub open spec fn count_bucket_text(count: nat) -> Seq<char> {
    if count == 0 {
        "0"@
    } else if count <= 10 {
        "1-10"@
    } else if count <= 100 {
        "11-100"@
    } else if count <= 1_000 {
        "101-1k"@
    } else if count <= 10_000 {
        "1k-10k"@
    } else if count <= 100_000 {
        "10k-100k"@
    } else if count <= 1_000_000 {
        "100k-1M"@
    } else {
        "1M+"@
    }
}

/// The range a size in bytes is reported as (decimal units).
pub open spec fn size_bucket_text(bytes: nat) -> Seq<char> {
    if bytes < 100_000_000 {
        "<100MB"@
    } else if bytes < 1_000_000_000 {
        "100MB-1GB"@
    } else if bytes < 10_000_000_000 {
        "1-10GB"@
    } else if bytes < 100_000_000_000 {
        "10-100GB"@
    } else if bytes < 1_000_000_000_000 {
        "100GB-1TB"@
    } else {
        "1TB+"@
    }
}

/// The range a duration in seconds is reported as.
pub open spec fn duration_bucket_text(seconds: nat) -> Seq<char> {
    if seconds == 0 {
        "<1s"@
    } else if seconds < 5 {
        "1-5s"@
    } else if seconds < 30 {
        "5-30s"@
    } else if seconds < 120 {
        "30s-2m"@
    } else if seconds < 600 {
        "2-10m"@
    } else {
        "10m+"@
    }
}

pub fn count_bucket(count: u64) -> (r: &'static str)
    ensures
        r@ == count_bucket_text(count as nat),
{
    if count == 0 {
        "0"
    } else if count <= 10 {
        "1-10"
    } else if count <= 100 {
        "11-100"
    } else if count <= 1_000 {
        "101-1k"
    } else if count <= 10_000 {
        "1k-10k"
    } else if count <= 100_000 {
        "10k-100k"
    } else if count <= 1_000_000 {
        "100k-1M"
    } else {
        "1M+"
    }
}

pub fn size_bucket(bytes: u64) -> (r: &'static str)
    ensures
        r@ == size_bucket_text(bytes as nat),
{
    let gb: u64 = 1_000_000_000;
    if bytes <= 99_999_999 {
        "<100MB"
    } else if bytes <= 999_999_999 {
        "100MB-1GB"
    } else if bytes < 10 * gb {
        "1-10GB"
    } else if bytes < 100 * gb {
        "10-100GB"
    } else if bytes < 1_000 * gb {
        "100GB-1TB"
    } else {
        "1TB+"
    }
}

pub fn duration_bucket(seconds: u64) -> (r: &'static str)
    ensures
        r@ == duration_bucket_text(seconds as nat),
{
    if seconds == 0 {
        "<1s"
    } else if seconds <= 4 {
        "1-5s"
    } else if seconds <= 29 {
        "5-30s"
    } else if seconds <= 119 {
        "30s-2m"
    } else if seconds <= 599 {
        "2-10m"
    } else {
        "10m+"
    }
}

/// Whether property `p` is the text `text` under `key`.
pub open spec fn is_text_prop(p: (&'static str, PropValue), key: Seq<char>, text: Seq<char>) -> bool {
    p.0@ == key && (p.1 matches PropValue::Text(t) && t@ == text)
}

/// Whether property `p` is the flag `flag` under `key`.
pub open spec fn is_flag_prop(p: (&'static str, PropValue), key: Seq<char>, flag: bool) -> bool {
    p.0@ == key && p.1 == PropValue::Flag(flag)
}

/// Whether `props` are what `event` reports: flags as they are, counts,
/// sizes and durations only as ranges, a scan root only by its kind.
pub open spec fn reports(event: Event, props: Seq<(&'static str, PropValue)>) -> bool {
    match event {
        Event::AppStarted { first_launch } => props.len() == 1 && is_flag_prop(
            props[0],
            "first_launch"@,
            first_launch,
        ),
        Event::SessionEnded { seconds, scans, zoom_ins, go_ups } => {
            &&& props.len() == 4
            &&& is_text_prop(props[0], "duration"@, duration_bucket_text(seconds as nat))
            &&& is_text_prop(props[1], "scans"@, count_bucket_text(scans as nat))
            &&& is_text_prop(props[2], "zoom_ins"@, count_bucket_text(zoom_ins as nat))
            &&& is_text_prop(props[3], "go_ups"@, count_bucket_text(go_ups as nat))
        },
        Event::ScanStarted { root } => props.len() == 1 && is_text_prop(
            props[0],
            "root"@,
            root_kind_name(root),
        ),
        Event::ScanFinished { seconds, files, bytes } => {
            &&& props.len() == 3
            &&& is_text_prop(props[0], "duration"@, duration_bucket_text(seconds as nat))
            &&& is_text_prop(props[1], "files"@, count_bucket_text(files as nat))
            &&& is_text_prop(props[2], "size"@, size_bucket_text(bytes as nat))
        },
        Event::ScanCancelled { seconds } => props.len() == 1 && is_text_prop(
            props[0],
            "duration"@,
            duration_bucket_text(seconds as nat),
        ),
        Event::FileAction { action, ok } => {
            &&& props.len() == 2
            &&& is_text_prop(props[0], "action"@, file_action_name(action))
            &&& is_flag_prop(props[1], "ok"@, ok)
        },
        Event::SettingChanged { key, value } => {
            &&& props.len() == 2
            &&& is_text_prop(props[0], "setting"@, key@)
            &&& is_text_prop(props[1], "value"@, value@)
        },
        Event::Panicked { location } => props.len() == 1 && is_text_prop(
            props[0],
            "location"@,
            location@,
        ),
        _ => props.len() == 0,
    }
}

impl RootKind {
    pub fn name(self) -> (r: &'static str)
        ensures
            r@ == root_kind_name(self),
    {
        match self {
            RootKind::Home => "home",
            RootKind::Downloads => "downloads",
            RootKind::Desktop => "desktop",
            RootKind::Documents => "documents",
            RootKind::Disk => "disk",
            RootKind::Recent => "recent",
            RootKind::Typed => "typed",
        }
    }
}

impl FileAction {
    pub fn name(self) -> (r: &'static str)
        ensures
            r@ == file_action_name(self),
    {
        match self {
            FileAction::Open => "open",
            FileAction::Reveal => "reveal",
            FileAction::Trash => "trash",
        }
    }
}

fn text_prop(key: &'static str, text: &str) -> (p: (&'static str, PropValue))
    ensures
        is_text_prop(p, key@, text@),
{
    (key, PropValue::Text(text.to_owned()))
}

impl Event {
    /// Reported as-is; renaming one splits its history in two.
    pub fn name(&self) -> (r: &'static str)
        ensures
            r@ == event_name(*self),
    {
        match self {
            Event::AppStarted { .. } => "app_started",
            Event::SessionEnded { .. } => "session_ended",
            Event::ScanStarted { .. } => "scan_started",
            Event::ScanFinished { .. } => "scan_finished",
            Event::ScanCancelled { .. } => "scan_cancelled",
            Event::FileAction { .. } => "file_action",
            Event::SettingChanged { .. } => "setting_changed",
            Event::UpdateNoticed => "update_noticed",
            Event::UpdateOpened => "update_opened",
            Event::Panicked { .. } => "panicked",
            Event::TelemetryDisabled => "telemetry_disabled",
        }
    }

    /// The properties reported with the event, in order.
    pub fn props(&self) -> (r: Vec<(&'static str, PropValue)>)
        ensures
            reports(*self, r@),
    {
        let mut out: Vec<(&'static str, PropValue)> = Vec::new();
        match self {
            Event::AppStarted { first_launch } => {
                out.push(("first_launch", PropValue::Flag(*first_launch)));
            },
            Event::SessionEnded { seconds, scans, zoom_ins, go_ups } => {
                out.push(text_prop("duration", duration_bucket(*seconds)));
                out.push(text_prop("scans", count_bucket(*scans as u64)));
                out.push(text_prop("zoom_ins", count_bucket(*zoom_ins as u64)));
                out.push(text_prop("go_ups", count_bucket(*go_ups as u64)));
            },
            Event::ScanStarted { root } => {
                out.push(text_prop("root", root.name()));
            },
            Event::ScanFinished { seconds, files, bytes } => {
                out.push(text_prop("duration", duration_bucket(*seconds)));
                out.push(text_prop("files", count_bucket(*files)));
                out.push(text_prop("size", size_bucket(*bytes)));
            },
            Event::ScanCancelled { seconds } => {
                out.push(text_prop("duration", duration_bucket(*seconds)));
            },
            Event::FileAction { action, ok } => {
                out.push(text_prop("action", action.name()));
                out.push(("ok", PropValue::Flag(*ok)));
            },
            Event::SettingChanged { key, value } => {
                out.push(text_prop("setting", key));
                out.push(text_prop("value", value.as_str()));
            },
            Event::UpdateNoticed | Event::UpdateOpened | Event::TelemetryDisabled => {},
            Event::Panicked { location } => {
                out.push(text_prop("location", location.as_str()));
            },
        }
        out
    }
}

/// How many times `c` occurs in `s`.
pub open spec fn count_of(s: Seq<char>, c: char) -> nat
    decreases s.len(),
{
    if s.len() == 0 {
        0
    } else {
        count_of(s.drop_last(), c) + if s.last() == c {
            1nat
        } else {
            0nat
        }
    }
}

pub open spec fn is_ascii_digit(c: char) -> bool {
    '0' <= c && c <= '9'
}

/// A panic location `name.rs:line`: the text after the last `:` is a line
/// number, the text before it a file name ending in `.rs` with no other dot.
pub open spec fn is_panic_location_text(text: Seq<char>) -> bool {
    let i = last_index_of(text, ':');
    let file = text.take(i);
    let line = text.skip(i + 1);
    &&& i >= 0
    &&& file.len() >= ".rs"@.len() && file.skip(file.len() - ".rs"@.len()) == ".rs"@
    &&& line.len() > 0
    &&& forall|k: int| 0 <= k < line.len() ==> is_ascii_digit(#[trigger] line[k])
    &&& count_of(file, '.') == 1
}

/// Whether a reported text could name a machine or its owner: path
/// separators, `~` and spaces cover paths and file names; a dot is allowed
/// only in a panic location, so host names stay out.
pub open spec fn looks_personal_text(text: Seq<char>) -> bool {
    ||| text.contains('/')
    ||| text.contains('\\')
    ||| text.contains('~')
    ||| text.contains(' ')
    ||| (text.contains('.') && !is_panic_location_text(text))
}

fn contains(s: &[char], c: char) -> (r: bool)
    ensures
        r == s@.contains(c),
{
    crate::text::contains_char(s, c)
}

fn all_digits(line: &[char]) -> (r: bool)
    ensures
        r == forall|k: int| 0 <= k < line@.len() ==> is_ascii_digit(#[trigger] line@[k]),
{
    let mut k: usize = 0;
    while k < line.len()
        invariant
            k <= line@.len(),
            forall|q: int| 0 <= q < k ==> is_ascii_digit(#[trigger] line@[q]),
        decreases line@.len() - k,
    {
        if !('0' <= line[k] && line[k] <= '9') {
            proof {
                assert(!is_ascii_digit(line@[k as int]));
            }
            return false;
        }
        k += 1;
    }
    true
}

/// Whether `text` is a panic location `name.rs:line`.
pub fn is_panic_location(text: &str) -> (r: bool)
    ensures
        r == is_panic_location_text(text@),
{
    let t = chars_of(text);
    proof {
        lemma_last_index_of(t@, ':');
    }
    let mut i: usize = t.len();
    while i > 0 && t[i - 1] != ':'
        invariant
            i <= t@.len(),
            forall|k: int| i <= k < t@.len() ==> t@[k] != ':',
            last_index_of(t@, ':') < i,
            last_index_of(t@, ':') >= 0 ==> t@[last_index_of(t@, ':')] == ':',
        decreases i,
    {
        i -= 1;
    }
    if i == 0 {
        proof {
            assert(last_index_of(t@, ':') == -1);
        }
        return false;
    }
    let colon = i - 1;
    proof {
        assert(last_index_of(t@, ':') == colon) by {
            let l = last_index_of(t@, ':');
            if l < colon {
                assert(t@[colon as int] == ':');
            }
        }
    }
    let file = crate::text::slice_chars(t.as_slice(), 0, colon);
    let line = crate::text::slice_chars(t.as_slice(), colon + 1, t.len());
    proof {
        assert(file@ =~= t@.take(colon as int));
        assert(line@ =~= t@.skip(colon + 1));
    }
    if !crate::text::ends_with(file.as_slice(), chars_of(".rs").as_slice()) || line.len() == 0 {
        return false;
    }
    if !all_digits(line.as_slice()) {
        return false;
    }
    let mut dots: usize = 0;
    let mut q: usize = 0;
    assert(file@.take(0) =~= Seq::<char>::empty());
    while q < file.len()
        invariant
            q <= file@.len(),
            dots == count_of(file@.take(q as int), '.'),
            dots <= q,
        decreases file@.len() - q,
    {
        proof {
            assert(file@.take(q + 1).drop_last() =~= file@.take(q as int));
        }
        if file[q] == '.' {
            dots += 1;
        }
        q += 1;
    }
    proof {
        assert(file@.take(q as int) =~= file@);
    }
    dots == 1
}

/// Guards the reported strings against anything naming a machine or its
/// owner.
pub fn looks_personal(text: &str) -> (r: bool)
    ensures
        r == looks_personal_text(text@),
{
    let t = chars_of(text);
    if contains(t.as_slice(), '/') || contains(t.as_slice(), '\\') || contains(t.as_slice(), '~')
        || contains(t.as_slice(), ' ') {
        return true;
    }
    contains(t.as_slice(), '.') && !is_panic_location(text)
}


/// A character a bucket or a name is made of: an ASCII letter or digit,
/// `-`, `+` or `<`.
pub open spec fn is_plain_char(c: char) -> bool {
    ('a' <= c && c <= 'z') || ('A' <= c && c <= 'Z') || ('0' <= c && c <= '9') || c == '-' || c
        == '+' || c == '<'
}

proof fn lemma_plain_text_is_impersonal(t: Seq<char>)
    requires
        forall|i: int| 0 <= i < t.len() ==> is_plain_char(#[trigger] t[i]),
    ensures
        !looks_personal_text(t),
{
    assert forall|c: char| t.contains(c) implies is_plain_char(c) by {
        let i = choose|i: int| 0 <= i < t.len() && t[i] == c;
        assert(is_plain_char(t[i]));
    }
}

/// Every range and every name an event reports is a plain word.
proof fn lemma_reported_words_are_plain(t: Seq<char>)
    requires
        
t == "0"@ || t == "1-10"@ || t == "11-100"@ || t == "101-1k"@ || t == "1k-10k"@ || t == "10k-100k"@ || t == "100k-1M"@ || t == "1M+"@ || t == "<100MB"@ || t == "100MB-1GB"@ || t == "1-10GB"@ || t == "10-100GB"@ || t == "100GB-1TB"@ || t == "1TB+"@ || t == "<1s"@ || t == "1-5s"@ || t == "5-30s"@ || t == "30s-2m"@ || t == "2-10m"@ || t == "10m+"@ || t == "home"@ || t == "downloads"@ || t == "desktop"@ || t == "documents"@ || t == "disk"@ || t == "recent"@ || t == "typed"@ || t == "open"@ || t == "reveal"@ || t == "trash"@,
    ensures
        !looks_personal_text(t),
{
    reveal_strlit("0");
    reveal_strlit("1-10");
    reveal_strlit("11-100");
    reveal_strlit("101-1k");
    reveal_strlit("1k-10k");
    reveal_strlit("10k-100k");
    reveal_strlit("100k-1M");
    reveal_strlit("1M+");
    reveal_strlit("<100MB");
    reveal_strlit("100MB-1GB");
    reveal_strlit("1-10GB");
    reveal_strlit("10-100GB");
    reveal_strlit("100GB-1TB");
    reveal_strlit("1TB+");
    reveal_strlit("<1s");
    reveal_strlit("1-5s");
    reveal_strlit("5-30s");
    reveal_strlit("30s-2m");
    reveal_strlit("2-10m");
    reveal_strlit("10m+");
    reveal_strlit("home");
    reveal_strlit("downloads");
    reveal_strlit("desktop");
    reveal_strlit("documents");
    reveal_strlit("disk");
    reveal_strlit("recent");
    reveal_strlit("typed");
    reveal_strlit("open");
    reveal_strlit("reveal");
    reveal_strlit("trash");
    assert forall|i: int| 0 <= i < t.len() implies is_plain_char(#[trigger] t[i]) by {
        if t == "0"@ {
            assert(t =~= seq!['0']);
        } else if t == "1-10"@ {
            assert(t =~= seq!['1', '-', '1', '0']);
        } else if t == "11-100"@ {
            assert(t =~= seq!['1', '1', '-', '1', '0', '0']);
        } else if t == "101-1k"@ {
            assert(t =~= seq!['1', '0', '1', '-', '1', 'k']);
        } else if t == "1k-10k"@ {
            assert(t =~= seq!['1', 'k', '-', '1', '0', 'k']);
        } else if t == "10k-100k"@ {
            assert(t =~= seq!['1', '0', 'k', '-', '1', '0', '0', 'k']);
        } else if t == "100k-1M"@ {
            assert(t =~= seq!['1', '0', '0', 'k', '-', '1', 'M']);
        } else if t == "1M+"@ {
            assert(t =~= seq!['1', 'M', '+']);
        } else if t == "<100MB"@ {
            assert(t =~= seq!['<', '1', '0', '0', 'M', 'B']);
        } else if t == "100MB-1GB"@ {
            assert(t =~= seq!['1', '0', '0', 'M', 'B', '-', '1', 'G', 'B']);
        } else if t == "1-10GB"@ {
            assert(t =~= seq!['1', '-', '1', '0', 'G', 'B']);
        } else if t == "10-100GB"@ {
            assert(t =~= seq!['1', '0', '-', '1', '0', '0', 'G', 'B']);
        } else if t == "100GB-1TB"@ {
            assert(t =~= seq!['1', '0', '0', 'G', 'B', '-', '1', 'T', 'B']);
        } else if t == "1TB+"@ {
            assert(t =~= seq!['1', 'T', 'B', '+']);
        } else if t == "<1s"@ {
            assert(t =~= seq!['<', '1', 's']);
        } else if t == "1-5s"@ {
            assert(t =~= seq!['1', '-', '5', 's']);
        } else if t == "5-30s"@ {
            assert(t =~= seq!['5', '-', '3', '0', 's']);
        } else if t == "30s-2m"@ {
            assert(t =~= seq!['3', '0', 's', '-', '2', 'm']);
        } else if t == "2-10m"@ {
            assert(t =~= seq!['2', '-', '1', '0', 'm']);
        } else if t == "10m+"@ {
            assert(t =~= seq!['1', '0', 'm', '+']);
        } else if t == "home"@ {
            assert(t =~= seq!['h', 'o', 'm', 'e']);
        } else if t == "downloads"@ {
            assert(t =~= seq!['d', 'o', 'w', 'n', 'l', 'o', 'a', 'd', 's']);
        } else if t == "desktop"@ {
            assert(t =~= seq!['d', 'e', 's', 'k', 't', 'o', 'p']);
        } else if t == "documents"@ {
            assert(t =~= seq!['d', 'o', 'c', 'u', 'm', 'e', 'n', 't', 's']);
        } else if t == "disk"@ {
            assert(t =~= seq!['d', 'i', 's', 'k']);
        } else if t == "recent"@ {
            assert(t =~= seq!['r', 'e', 'c', 'e', 'n', 't']);
        } else if t == "typed"@ {
            assert(t =~= seq!['t', 'y', 'p', 'e', 'd']);
        } else if t == "open"@ {
            assert(t =~= seq!['o', 'p', 'e', 'n']);
        } else if t == "reveal"@ {
            assert(t =~= seq!['r', 'e', 'v', 'e', 'a', 'l']);
        } else if t == "trash"@ {
            assert(t =~= seq!['t', 'r', 'a', 's', 'h']);
        }
    }
    lemma_plain_text_is_impersonal(t);
}

/// What an event reports never names a machine or its owner: every text
/// property is a range or a fixed name, except the setting value and the
/// panic location, which carry what the caller put in.
pub proof fn law_reports_are_impersonal(event: Event, props: Seq<(&'static str, PropValue)>)
    requires
        reports(event, props),
        !(event is SettingChanged),
        !(event is Panicked),
    ensures
        forall|i: int|
            0 <= i < props.len() ==> ((#[trigger] props[i]).1 matches PropValue::Text(t)
                ==> !looks_personal_text(t@)),
{
    assert forall|i: int| 0 <= i < props.len() implies ((#[trigger] props[i]).1 matches PropValue::Text(
        t,
    ) ==> !looks_personal_text(t@)) by {
        if let PropValue::Text(t) = props[i].1 {
            match event {
                Event::SessionEnded { seconds, scans, zoom_ins, go_ups } => {
                    lemma_reported_words_are_plain(t@);
                },
                Event::ScanStarted { root } => {
                    lemma_reported_words_are_plain(t@);
                },
                Event::ScanFinished { seconds, files, bytes } => {
                    lemma_reported_words_are_plain(t@);
                },
                Event::ScanCancelled { seconds } => {
                    lemma_reported_words_are_plain(t@);
                },
                Event::FileAction { action, ok } => {
                    lemma_reported_words_are_plain(t@);
                },
                _ => {},
            }
        }
    }
}

} // verus!
