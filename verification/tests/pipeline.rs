use chronos::event::{BrowserKind, EventData};
use chronos::sync::{collect_sync_events, should_report_unparsable, should_sync, unparsable_report};
use chronos::visits::{extract_visits, to_unix_seconds, RawVisit, VisitRecord};
use chronos::watermark::SourceWatermark;
use chronos::window::WindowTracker;

fn raw(url: &str, title: &str, stored: i64) -> RawVisit {
    RawVisit { url: url.to_string(), title: title.to_string(), stored }
}

#[test]
fn chromium_epoch_converts() {
    // 1601-01-01 plus exactly the epoch gap lands on unix second zero
    assert_eq!(to_unix_seconds(BrowserKind::Chromium, 11644473600_000_000), 0);
}

#[test]
fn firefox_epoch_converts() {
    assert_eq!(to_unix_seconds(BrowserKind::Firefox, 1_000_000), 1);
}

#[test]
fn conversions_truncate() {
    assert_eq!(to_unix_seconds(BrowserKind::Firefox, 1_999_999), 1);
    assert_eq!(to_unix_seconds(BrowserKind::Firefox, 0), 0);
    assert_eq!(to_unix_seconds(BrowserKind::Chromium, 11644473601_500_000), 1);
    // toward zero, as the stores compute it
    assert_eq!(to_unix_seconds(BrowserKind::Firefox, -1_500_000), -1);
    assert_eq!(to_unix_seconds(BrowserKind::Firefox, i64::MIN), -9223372036854);
}

#[test]
fn extraction_filters_orders_and_caps() {
    let rows = vec![
        raw("https://a.example", "a", 5_000_000),
        raw("https://b.example", "b", 9_000_000),
        raw("https://c.example", "c", 2_000_000),
        raw("https://d.example", "d", 7_000_000),
    ];
    // watermark 2 drops c; limit 2 keeps the two newest, newest first
    let out = extract_visits(&rows, BrowserKind::Firefox, 2, 2);
    assert_eq!(out.len(), 2);
    assert_eq!(out[0].url, "https://b.example");
    assert_eq!(out[0].visited_at, 9);
    assert_eq!(out[1].url, "https://d.example");
    assert_eq!(out[1].visited_at, 7);
}

#[test]
fn extraction_keeps_equal_times() {
    let rows = vec![
        raw("https://a.example", "a", 3_000_000),
        raw("https://b.example", "b", 3_000_000),
    ];
    let out = extract_visits(&rows, BrowserKind::Firefox, 0, 10);
    assert_eq!(out.len(), 2);
    assert_eq!(out[0].visited_at, 3);
    assert_eq!(out[1].visited_at, 3);
}

#[test]
fn extraction_of_nothing_is_empty() {
    let rows: Vec<RawVisit> = vec![];
    let out = extract_visits(&rows, BrowserKind::Chromium, 0, 10);
    assert!(out.is_empty());
}

fn rec(url: &str, visited_at: i64) -> VisitRecord {
    VisitRecord { url: url.to_string(), title: url.to_string(), visited_at }
}

#[test]
fn watermark_advances_to_newest_seen() {
    let mut wm = SourceWatermark::new(10);
    // batch arrives newest first
    let batch = vec![rec("c", 30), rec("b", 20), rec("a", 15)];
    let emitted = wm.process_batch(&batch);
    assert_eq!(wm.last_seen, 30);
    // walked oldest first
    assert_eq!(emitted.len(), 3);
    assert_eq!(emitted[0].url, "a");
    assert_eq!(emitted[1].url, "b");
    assert_eq!(emitted[2].url, "c");
}

#[test]
fn stale_records_emit_nothing() {
    let mut wm = SourceWatermark::new(100);
    let batch = vec![rec("b", 90), rec("a", 100)];
    let emitted = wm.process_batch(&batch);
    assert!(emitted.is_empty());
    assert_eq!(wm.last_seen, 100);
}

#[test]
fn watermark_survives_batches() {
    let mut wm = SourceWatermark::new(0);
    let first = wm.process_batch(&vec![rec("a", 5)]);
    assert_eq!(first.len(), 1);
    assert_eq!(wm.last_seen, 5);
    // the same record again is already seen
    let second = wm.process_batch(&vec![rec("a", 5)]);
    assert!(second.is_empty());
    assert_eq!(wm.last_seen, 5);
    let third = wm.process_batch(&vec![rec("b", 8)]);
    assert_eq!(third.len(), 1);
    assert_eq!(wm.last_seen, 8);
}

#[test]
fn window_dedup_logs_once() {
    let mut tracker = WindowTracker::new();
    let first = tracker.observe("Notes", "notepad.exe");
    assert_eq!(first.as_deref(), Some("Active window: 'Notes' (proc: notepad.exe)"));
    let repeat = tracker.observe("Notes", "notepad.exe");
    assert!(repeat.is_none());
    let changed = tracker.observe("Mail", "mail.exe");
    assert_eq!(changed.as_deref(), Some("Active window: 'Mail' (proc: mail.exe)"));
}

#[test]
fn sync_collects_exactly_the_parsable_lines() {
    let lines = vec![
        "2025-09-02 13:02:55 - Active window: 'Notes' (proc: notepad.exe)".to_string(),
        "garbage".to_string(),
        "2025-09-02 13:05:00 - Browser (Firefox) visit: 2025-09-02 13:04:58 | Example | https://example.com".to_string(),
        "2025-09-02 13:06:00 - Chronos started".to_string(),
    ];
    let events = collect_sync_events(&lines);
    assert_eq!(events.len(), 2);
    assert!(matches!(events[0].data, EventData::Window { .. }));
    assert!(matches!(events[1].data, EventData::Browser { .. }));
    assert!(should_sync(&events));
}

#[test]
fn sync_sends_nothing_for_no_events() {
    let lines = vec!["noise".to_string(), "".to_string()];
    let events = collect_sync_events(&lines);
    assert_eq!(events.len(), 0);
    assert!(!should_sync(&events));
}

#[test]
fn unparsable_reporting_skips_benign_lines() {
    assert!(should_report_unparsable("something odd"));
    assert!(!should_report_unparsable(""));
    assert!(!should_report_unparsable("   "));
    assert!(!should_report_unparsable("2025-09-02 13:06:00 - No new log entries to sync"));
    assert!(!should_report_unparsable("Starting main activity tracking loop"));
    assert!(!should_report_unparsable("Main loop iteration: 12"));
    assert_eq!(unparsable_report("odd"), "Could not parse log line: odd");
}
