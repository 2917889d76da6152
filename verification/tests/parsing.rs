use chronos::event::{BrowserKind, EventData};
use chronos::logfmt::{format_log_line, format_window_message, format_visit_message, stamped_log_line};
use chronos::parse::parse_log_line;

#[test]
fn window_line_parses() {
    let line = "2025-09-02 13:02:55 - Active window: 'Notes' (proc: notepad.exe)";
    let e = parse_log_line(line).expect("a window line must parse");
    assert_eq!(e.timestamp, "2025-09-02 13:02:55");
    match e.data {
        EventData::Window { window_title, process_name } => {
            assert_eq!(window_title, "Notes");
            assert_eq!(process_name, "notepad.exe");
        },
        _ => panic!("expected a window event"),
    }
}

#[test]
fn browser_line_parses() {
    let line =
        "2025-09-02 13:05:00 - Browser (Firefox) visit: 2025-09-02 13:04:58 | Example | https://example.com";
    let e = parse_log_line(line).expect("a browser line must parse");
    assert_eq!(e.timestamp, "2025-09-02 13:05:00");
    match e.data {
        EventData::Browser { browser, title, url } => {
            assert!(matches!(browser, BrowserKind::Firefox));
            assert_eq!(title, "Example");
            assert_eq!(url, "https://example.com");
        },
        _ => panic!("expected a browser event"),
    }
}

#[test]
fn chromium_browser_line_parses() {
    let line =
        "2025-09-02 13:05:00 - Browser (Chromium) visit: 2025-09-02 13:04:58 | Docs | https://docs.example";
    let e = parse_log_line(line).expect("a browser line must parse");
    match e.data {
        EventData::Browser { browser, title, url } => {
            assert!(matches!(browser, BrowserKind::Chromium));
            assert_eq!(title, "Docs");
            assert_eq!(url, "https://docs.example");
        },
        _ => panic!("expected a browser event"),
    }
}

#[test]
fn line_without_separator_yields_nothing() {
    assert!(parse_log_line("no separator here").is_none());
    assert!(parse_log_line("").is_none());
}

#[test]
fn unknown_message_yields_nothing() {
    assert!(parse_log_line("2025-09-02 13:02:55 - Chronos started").is_none());
    assert!(parse_log_line("2025-09-02 13:02:55 - Main loop iteration: 1").is_none());
}

#[test]
fn window_message_without_quotes_yields_nothing() {
    assert!(parse_log_line("2025-09-02 13:02:55 - Active window: Notes (proc: n.exe)").is_none());
    // a lone quote opens no title
    assert!(parse_log_line("2025-09-02 13:02:55 - Active window: '").is_none());
}

#[test]
fn browser_message_with_too_few_fields_yields_nothing() {
    assert!(parse_log_line("2025-09-02 13:05:00 - Browser (Firefox) visit: only-one-field").is_none());
    assert!(parse_log_line("2025-09-02 13:05:00 - Browser (Firefox) visit: a | b").is_none());
}

#[test]
fn browser_url_stops_at_the_next_field_separator() {
    // fields are the literal " | "-separated columns, so a url that
    // itself holds the separator is cut at it — the known limit of the
    // free-text log format
    let line = "2025-09-02 13:05:00 - Browser (Chromium) visit: 2025-09-02 13:04:58 | t | https://u.example | extra";
    let e = parse_log_line(line).expect("line must parse");
    match e.data {
        EventData::Browser { url, .. } => assert_eq!(url, "https://u.example"),
        _ => panic!("expected a browser event"),
    }
}

#[test]
fn formatted_window_line_round_trips() {
    let msg = format_window_message("Notes", "notepad.exe");
    assert_eq!(msg, "Active window: 'Notes' (proc: notepad.exe)");
    let line = format_log_line("2025-09-02 13:02:55", &msg);
    assert_eq!(line, "2025-09-02 13:02:55 - Active window: 'Notes' (proc: notepad.exe)");
    let e = parse_log_line(&line).expect("a logger-written line must parse");
    assert_eq!(e.timestamp, "2025-09-02 13:02:55");
    match e.data {
        EventData::Window { window_title, process_name } => {
            assert_eq!(window_title, "Notes");
            assert_eq!(process_name, "notepad.exe");
        },
        _ => panic!("expected a window event"),
    }
}

#[test]
fn window_title_with_separator_round_trips() {
    // the message is everything after the first " - ", so a title
    // holding the separator still comes back whole
    let msg = format_window_message("a - b", "x.exe");
    let line = format_log_line("2025-09-02 13:02:55", &msg);
    let e = parse_log_line(&line).expect("line must parse");
    match e.data {
        EventData::Window { window_title, process_name } => {
            assert_eq!(window_title, "a - b");
            assert_eq!(process_name, "x.exe");
        },
        _ => panic!("expected a window event"),
    }
}

#[test]
fn stamped_window_line_round_trips() {
    let msg = format_window_message("Notes", "notepad.exe");
    let line = stamped_log_line(&msg);
    let e = parse_log_line(&line).expect("a stamped line must parse");
    match e.data {
        EventData::Window { window_title, process_name } => {
            assert_eq!(window_title, "Notes");
            assert_eq!(process_name, "notepad.exe");
        },
        _ => panic!("expected a window event"),
    }
}

#[test]
fn visit_message_renders_the_epoch() {
    let msg = format_visit_message(BrowserKind::Chromium, 0, "t", "https://u.example");
    assert_eq!(msg, "Browser (Chromium) visit: 1970-01-01 00:00:00 | t | https://u.example");
    let msg = format_visit_message(BrowserKind::Firefox, 1756818298, "Example", "https://example.com");
    assert_eq!(
        msg,
        "Browser (Firefox) visit: 2025-09-02 13:04:58 | Example | https://example.com"
    );
}
