use filegram::telemetry::consent::{decide, Channel, Decision};
use filegram::telemetry::device::{format_id, generate, is_well_formed, saved_id};
use filegram::telemetry::event::{
    count_bucket, duration_bucket, is_panic_location, looks_personal, size_bucket, Event,
    FileAction, PropValue, RootKind,
};
use filegram::telemetry::queue::{keep_newest, queued_count, queued_reports, without_delivered, MAX_PENDING};
use filegram::telemetry::sink::{base_props, civil_from_days, iso8601, panic_location};
use filegram::telemetry::{next_step, Signal, Step, BATCH_SIZE};

#[test]
fn flatpak_marker_wins_over_a_stray_snap_variable() {
    assert_eq!(Channel::detect_from(true, true), Channel::Flatpak);
}

#[test]
fn snap_variable_alone_reads_as_snap() {
    assert_eq!(Channel::detect_from(false, true), Channel::Snap);
}

#[test]
fn no_marker_reads_as_a_direct_install() {
    assert_eq!(Channel::detect_from(false, false), Channel::Direct);
}

#[test]
fn store_builds_ask_before_collecting_anything() {
    for channel in [Channel::Flatpak, Channel::Snap] {
        assert_eq!(decide(channel, None), Decision::Ask);
    }
}

#[test]
fn direct_installs_collect_and_say_so_once() {
    assert_eq!(
        decide(Channel::Direct, None),
        Decision::Collect { notice: true }
    );
}

#[test]
fn a_saved_choice_is_honored_on_every_channel() {
    for channel in [Channel::Flatpak, Channel::Snap, Channel::Direct] {
        assert_eq!(
            decide(channel, Some(true)),
            Decision::Collect { notice: false }
        );
        assert_eq!(decide(channel, Some(false)), Decision::Off);
    }
}

#[test]
fn channel_names_are_stable_report_keys() {
    assert_eq!(Channel::Flatpak.name(), "flatpak");
    assert_eq!(Channel::Snap.name(), "snap");
    assert_eq!(Channel::Direct.name(), "direct");
}

#[test]
fn a_fresh_id_is_thirty_two_hex_digits() {
    let id = generate();
    assert_eq!(id.len(), 32);
    assert!(id
        .chars()
        .all(|c| c.is_ascii_hexdigit() && !c.is_uppercase()));
}

#[test]
fn two_generated_ids_differ() {
    assert_ne!(generate(), generate());
}

#[test]
fn surrounding_whitespace_is_ignored() {
    let id = "0123456789abcdef0123456789abcdef";
    assert_eq!(saved_id(&format!("  {id}\n")), Some(id.to_string()));
}

#[test]
fn a_corrupted_file_is_replaced() {
    assert_eq!(saved_id("not-an-id\n"), None);
    assert_eq!(saved_id("0123456789ABCDEF0123456789abcdef"), None);
    assert_eq!(saved_id("0123456789abcdef0123456789abcde"), None);
}

#[test]
fn ids_are_two_zero_padded_hex_halves() {
    assert_eq!(format_id(0, 255), "000000000000000000000000000000ff");
    assert_eq!(format_id(u64::MAX, 0xabc), "ffffffffffffffff0000000000000abc");
    assert!(is_well_formed(&format_id(12345, 67890)));
    assert!(!is_well_formed("g123456789abcdef0123456789abcdef"));
}

fn sample_of_each() -> Vec<Event> {
    vec![
        Event::AppStarted { first_launch: true },
        Event::SessionEnded {
            seconds: 91,
            scans: 3,
            zoom_ins: 12,
            go_ups: 4,
        },
        Event::ScanStarted {
            root: RootKind::Typed,
        },
        Event::ScanFinished {
            seconds: 7,
            files: 43_817,
            bytes: 91_000_000_000,
        },
        Event::ScanCancelled { seconds: 2 },
        Event::FileAction {
            action: FileAction::Trash,
            ok: false,
        },
        Event::SettingChanged {
            key: "lang",
            value: "ru-RU".to_string(),
        },
        Event::UpdateNoticed,
        Event::UpdateOpened,
        Event::Panicked {
            location: "main.rs:120".to_string(),
        },
        Event::TelemetryDisabled,
    ]
}

fn prop(event: &Event, key: &str) -> PropValue {
    event
        .props()
        .into_iter()
        .find(|(k, _)| *k == key)
        .map(|(_, value)| value)
        .unwrap()
}

#[test]
fn every_variant_has_a_sample() {
    let names: Vec<&str> = sample_of_each().iter().map(Event::name).collect();
    for event in sample_of_each() {
        let expected = match event {
            Event::AppStarted { .. } => "app_started",
            Event::SessionEnded { .. } => "session_ended",
            Event::ScanStarted { .. } => "scan_started",
            Event::ScanFinished { .. } => "scan_finished",
            Event::ScanCancelled { .. } => "scan_cancelled",
            Event::FileAction { .. } => "file_action",
            Event::SettingChanged { .. } => "setting_changed",
            Event::UpdateNoticed => "update_noticed",
            Event::UpdateOpened => "update_opened",
            Event::Panicked { .. } => "panicked",
            Event::TelemetryDisabled => "telemetry_disabled",
        };
        assert!(names.contains(&expected), "{expected} has no sample");
    }
}

#[test]
fn no_event_carries_anything_that_identifies_a_machine() {
    for event in sample_of_each() {
        for (key, value) in event.props() {
            let PropValue::Text(text) = value else { continue };
            assert!(!looks_personal(&text), "{}.{key} leaks {text}", event.name());
        }
    }
}

#[test]
fn paths_and_names_read_as_personal() {
    for text in [
        "/Users/alice/Downloads",
        "C:\\Users\\alice",
        "~/notes.txt",
        "budget 2026.xlsx",
        "alice-macbook.local",
    ] {
        assert!(looks_personal(text), "{text} passed the check");
    }
}

#[test]
fn bucketed_values_read_as_impersonal() {
    for text in ["10k-100k", "100GB-1TB", "5-30s", "trash", "ru-RU", "main.rs:120"] {
        assert!(!looks_personal(text), "{text} was rejected");
    }
}

#[test]
fn file_counts_are_reported_as_ranges() {
    for (files, bucket) in [
        (0, "0"),
        (1, "1-10"),
        (10, "1-10"),
        (11, "11-100"),
        (101, "101-1k"),
        (1_001, "1k-10k"),
        (43_817, "10k-100k"),
        (100_001, "100k-1M"),
        (1_000_001, "1M+"),
    ] {
        assert_eq!(count_bucket(files), bucket, "{files} files");
    }
}

#[test]
fn sizes_are_reported_as_ranges() {
    let gb = 1_000_000_000;
    for (bytes, bucket) in [
        (0, "<100MB"),
        (100_000_000, "100MB-1GB"),
        (gb, "1-10GB"),
        (10 * gb, "10-100GB"),
        (100 * gb, "100GB-1TB"),
        (1_000 * gb, "1TB+"),
    ] {
        assert_eq!(size_bucket(bytes), bucket, "{bytes} bytes");
    }
}

#[test]
fn durations_are_reported_as_ranges() {
    for (seconds, bucket) in [
        (0, "<1s"),
        (1, "1-5s"),
        (5, "5-30s"),
        (30, "30s-2m"),
        (120, "2-10m"),
        (600, "10m+"),
    ] {
        assert_eq!(duration_bucket(seconds), bucket, "{seconds}s");
    }
}

#[test]
fn a_finished_scan_reports_only_buckets() {
    let event = Event::ScanFinished {
        seconds: 7,
        files: 43_817,
        bytes: 91_000_000_000,
    };
    assert_eq!(prop(&event, "files"), PropValue::Text("10k-100k".to_string()));
    assert_eq!(prop(&event, "size"), PropValue::Text("10-100GB".to_string()));
    assert_eq!(prop(&event, "duration"), PropValue::Text("5-30s".to_string()));
}

#[test]
fn scan_roots_are_reported_by_kind_never_by_path() {
    let event = Event::ScanStarted {
        root: RootKind::Home,
    };
    assert_eq!(prop(&event, "root"), PropValue::Text("home".to_string()));
}

#[test]
fn flags_are_reported_as_flags() {
    let event = Event::FileAction {
        action: FileAction::Reveal,
        ok: true,
    };
    assert_eq!(prop(&event, "action"), PropValue::Text("reveal".to_string()));
    assert_eq!(prop(&event, "ok"), PropValue::Flag(true));
    assert!(Event::UpdateOpened.props().is_empty());
}

#[test]
fn a_panic_location_is_a_rust_file_and_a_line_number() {
    assert!(is_panic_location("main.rs:120"));
    assert!(!is_panic_location("main.rs:"));
    assert!(!is_panic_location("main.rs:12a"));
    assert!(!is_panic_location("lib.min.rs:3"));
    assert!(!is_panic_location("main.py:3"));
    assert!(!is_panic_location("main.rs"));
    assert!(looks_personal("a.b:1"));
}

#[test]
fn the_timestamp_is_iso_8601_which_is_all_posthog_accepts() {
    assert_eq!(iso8601(1_787_229_296), "2026-08-20T12:34:56Z");
}

#[test]
fn the_epoch_and_a_leap_day_both_format() {
    assert_eq!(iso8601(0), "1970-01-01T00:00:00Z");
    assert_eq!(iso8601(1_709_164_800), "2024-02-29T00:00:00Z");
}

#[test]
fn stamps_sort_as_their_times_up_to_the_year_9999() {
    let times: [u64; 10] = [
        0,
        59,
        60,
        3_599,
        3_600,
        86_399,
        86_400,
        1_709_164_800,
        1_787_229_296,
        253_402_300_799,
    ];
    for pair in times.windows(2) {
        assert!(iso8601(pair[0]) < iso8601(pair[1]));
    }
    for at in times {
        let stamp = iso8601(at);
        assert_eq!(stamp.chars().count(), 20);
        for (i, c) in stamp.chars().enumerate() {
            match i {
                4 | 7 => assert_eq!(c, '-'),
                10 => assert_eq!(c, 'T'),
                13 | 16 => assert_eq!(c, ':'),
                19 => assert_eq!(c, 'Z'),
                _ => assert!(c.is_ascii_digit()),
            }
        }
    }
    assert_eq!(iso8601(253_402_300_799), "9999-12-31T23:59:59Z");
    // The first second of the year 10000 needs a fifth year digit, and its
    // stamp no longer sorts after the one before it.
    assert_eq!(iso8601(253_402_300_800), "10000-01-01T00:00:00Z");
    assert!(iso8601(253_402_300_800) < iso8601(253_402_300_799));
}

#[test]
fn calendar_dates_around_century_years() {
    // 2000-03-01 follows a leap day; 2100-03-01 does not.
    assert_eq!(civil_from_days(11_016), (2000, 2, 29));
    assert_eq!(civil_from_days(11_017), (2000, 3, 1));
    assert_eq!(civil_from_days(47_540), (2100, 2, 28));
    assert_eq!(civil_from_days(47_541), (2100, 3, 1));
    assert_eq!(civil_from_days(10_956), (1999, 12, 31));
    assert_eq!(iso8601(u64::MAX), "584554051223-11-09T07:00:15Z");
}

#[test]
fn a_windows_source_path_loses_its_directories_too() {
    assert_eq!(panic_location("C:\\src\\ui\\start.rs", 7), "start.rs:7");
}

#[test]
fn a_reported_panic_location_stays_impersonal() {
    let location = panic_location("/home/alice/src/main.rs", 42);
    assert_eq!(location, "main.rs:42");
    assert!(!looks_personal(&location));
}

#[test]
fn an_offline_run_drops_the_oldest_reports_instead_of_growing() {
    let reports: Vec<usize> = (0..MAX_PENDING * 2).collect();
    let kept = keep_newest(reports);
    assert_eq!(kept.len(), MAX_PENDING);
    assert_eq!(*kept.last().unwrap(), MAX_PENDING * 2 - 1);
    assert_eq!(kept[0], MAX_PENDING);
    assert_eq!(keep_newest(vec![1, 2, 3]), vec![1, 2, 3]);
}

#[test]
fn only_the_reports_that_went_out_are_removed() {
    assert_eq!(without_delivered(vec!["sent", "arrived_mid_send"], 1), vec!["arrived_mid_send"]);
    assert!(without_delivered(vec!["only"], 5).is_empty());
}

#[test]
fn the_sending_thread_waits_for_a_batch_or_the_clock() {
    assert_eq!(next_step(Signal::Woken, BATCH_SIZE - 1), Step::Wait);
    assert_eq!(next_step(Signal::Woken, BATCH_SIZE), Step::Deliver);
    assert_eq!(next_step(Signal::TimedOut, 0), Step::Deliver);
    assert_eq!(next_step(Signal::Closed, 3), Step::DeliverAndStop);
}

#[test]
fn dates_advance_one_calendar_day_at_a_time() {
    assert_eq!(civil_from_days(0), (1970, 1, 1));
    assert_eq!(civil_from_days(58), (1970, 2, 28));
    assert_eq!(civil_from_days(59), (1970, 3, 1));
    assert_eq!(civil_from_days(364), (1970, 12, 31));
    assert_eq!(civil_from_days(365), (1971, 1, 1));
}

#[test]
fn a_generated_id_is_read_back_from_its_file() {
    let id = generate();
    assert_eq!(saved_id(&id), Some(id.clone()));
    assert_eq!(saved_id(&format!("{id}\n")), Some(id));
}

#[test]
fn a_truncated_line_is_skipped_and_the_rest_survives() {
    let text = "{\"event\": \"good\"}\n{\"event\": \"tru\n";
    let waiting = queued_reports(text);
    assert_eq!(waiting, vec!["{\"event\":\"good\"}".to_string()]);
    assert_eq!(queued_count(text), 1);
}

#[test]
fn queued_reports_keep_their_order_in_written_form() {
    let text = "{\"event\":\"a\"}\nnot json\n{\"event\": \"c\"}\n";
    assert_eq!(
        queued_reports(text),
        vec!["{\"event\":\"a\"}".to_string(), "{\"event\":\"c\"}".to_string()]
    );
    assert_eq!(queued_count(text), 2);
}

#[test]
fn an_empty_queue_holds_nothing() {
    assert!(queued_reports("").is_empty());
    assert_eq!(queued_count("\n\n"), 0);
}

#[test]
fn geoip_enrichment_is_switched_off_on_every_report() {
    let props = base_props(Channel::Direct, "0.3.0", "linux", "x86_64");
    assert_eq!(
        props,
        vec![
            ("version", PropValue::Text("0.3.0".to_string())),
            ("os", PropValue::Text("linux".to_string())),
            ("arch", PropValue::Text("x86_64".to_string())),
            ("channel", PropValue::Text("direct".to_string())),
            ("$ip", PropValue::Null),
            ("$geoip_disable", PropValue::Flag(true)),
        ]
    );
}
