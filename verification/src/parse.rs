//! Rebuilding structured events from log lines.
//!
//! A line reads `"<timestamp> - <message>"`. Two message grammars are
//! recognized: a window focus change and a browser visit. A line
//! matching neither yields no event; the parser never fails.

use vstd::prelude::*;
use crate::event::{BrowserKind, EventData, EventDataView, SyncEvent, SyncEventView};
use crate::event::opt_event_view;
use crate::text::{
    contains_sub, find_from, rfind_char, starts_with_spec, trim_spec,
    contains_in, find_sub_from, rfind_char_in, starts_with_in, substr_string, trim_to_string,
    lemma_find_from_sound, lemma_rfind_char_sound,
};

verus! {

/// The window-message fields: the text between the first and the last
/// quote, and the text between the first `"(proc: "` and the last `')'`.
pub open spec fn window_fields_spec(msg: Seq<char>) -> Option<(Seq<char>, Seq<char>)> {
    let q1 = find_from(msg, "'"@, 0);
    let q2 = rfind_char(msg, '\'');
    let p1 = find_from(msg, "(proc: "@, 0);
    let p2 = rfind_char(msg, ')');
    if q1 is Some && q2 is Some && p1 is Some && p2 is Some && q1->Some_0 + 1 <= q2->Some_0
        && p1->Some_0 + 7 <= p2->Some_0 {
        Some(
            (
                msg.subrange(q1->Some_0 + 1, q2->Some_0),
                msg.subrange(p1->Some_0 + 7, p2->Some_0),
            ),
        )
    } else {
        None
    }
}

/// The browser-message fields: the second and the third `" | "`-separated
/// field, each trimmed.
pub open spec fn browser_fields_spec(msg: Seq<char>) -> Option<(Seq<char>, Seq<char>)> {
    let s1 = find_from(msg, " | "@, 0);
    if s1 is Some {
        let a = s1->Some_0 + 3;
        let s2 = find_from(msg, " | "@, a);
        if s2 is Some {
            let b = s2->Some_0;
            let s3 = find_from(msg, " | "@, b + 3);
            let end = if s3 is Some {
                s3->Some_0
            } else {
                msg.len() as int
            };
            Some((trim_spec(msg.subrange(a, b)), trim_spec(msg.subrange(b + 3, end))))
        } else {
            None
        }
    } else {
        None
    }
}

/// The event a trimmed timestamp and a trimmed message carry, if any.
pub open spec fn parse_message_spec(ts: Seq<char>, msg: Seq<char>) -> Option<SyncEventView> {
    if starts_with_spec(msg, "Active window:"@) {
        match window_fields_spec(msg) {
            Some(f) => Some(
                SyncEventView {
                    timestamp: ts,
                    data: EventDataView::Window { window_title: f.0, process_name: f.1 },
                },
            ),
            None => None,
        }
    } else if contains_sub(msg, "Browser"@) && contains_sub(msg, "visit:"@) {
        match browser_fields_spec(msg) {
            Some(f) => Some(
                SyncEventView {
                    timestamp: ts,
                    data: EventDataView::Browser {
                        browser: if contains_sub(msg, "Firefox"@) {
                            BrowserKind::Firefox
                        } else {
                            BrowserKind::Chromium
                        },
                        title: f.0,
                        url: f.1,
                    },
                },
            ),
            None => None,
        }
    } else {
        None
    }
}

/// The event a whole log line carries: the text before the first
/// `" - "` is the timestamp, everything after it is the message, and
/// both are trimmed before the message grammars are tried.
pub open spec fn parse_line_spec(line: Seq<char>) -> Option<SyncEventView> {
    match find_from(line, " - "@, 0) {
        Some(i) => parse_message_spec(
            trim_spec(line.subrange(0, i)),
            trim_spec(line.subrange(i + 3, line.len() as int)),
        ),
        None => None,
    }
}

/// Extracts the window-message fields.
fn window_fields(msg: &str) -> (r: Option<(String, String)>)
    ensures
        match r {
            Some(f) => window_fields_spec(msg@) == Some((f.0@, f.1@)),
            None => window_fields_spec(msg@) is None,
        },
{
    let n = msg.unicode_len();
    proof {
        lemma_find_from_sound(msg@, "'"@, 0);
        lemma_find_from_sound(msg@, "(proc: "@, 0);
        lemma_rfind_char_sound(msg@, '\'', msg@.len() - 1);
        lemma_rfind_char_sound(msg@, ')', msg@.len() - 1);
        reveal_strlit("'");
        reveal_strlit("(proc: ");
    }
    let q1 = match find_sub_from(msg, "'", 0) {
        Some(k) => k,
        None => { return None; },
    };
    let q2 = match rfind_char_in(msg, '\'') {
        Some(k) => k,
        None => { return None; },
    };
    let p1 = match find_sub_from(msg, "(proc: ", 0) {
        Some(k) => k,
        None => { return None; },
    };
    let p2 = match rfind_char_in(msg, ')') {
        Some(k) => k,
        None => { return None; },
    };
    if q1 + 1 <= q2 && p1 + 7 <= p2 {
        let title = substr_string(msg, q1 + 1, q2);
        let proc = substr_string(msg, p1 + 7, p2);
        Some((title, proc))
    } else {
        None
    }
}

/// Extracts the browser-message fields.
fn browser_fields(msg: &str) -> (r: Option<(String, String)>)
    ensures
        match r {
            Some(f) => browser_fields_spec(msg@) == Some((f.0@, f.1@)),
            None => browser_fields_spec(msg@) is None,
        },
{
    let n = msg.unicode_len();
    proof {
        lemma_find_from_sound(msg@, " | "@, 0);
        reveal_strlit(" | ");
    }
    let s1 = match find_sub_from(msg, " | ", 0) {
        Some(k) => k,
        None => { return None; },
    };
    let a = s1 + 3;
    proof {
        lemma_find_from_sound(msg@, " | "@, a as int);
    }
    let s2 = match find_sub_from(msg, " | ", a) {
        Some(k) => k,
        None => { return None; },
    };
    proof {
        lemma_find_from_sound(msg@, " | "@, s2 + 3);
    }
    let end = match find_sub_from(msg, " | ", s2 + 3) {
        Some(k) => k,
        None => n,
    };
    let title = trim_to_string(msg.substring_char(a, s2));
    let url = trim_to_string(msg.substring_char(s2 + 3, end));
    Some((title, url))
}

/// Rebuilds the event a log line carries, or nothing for a line that
/// matches neither message grammar.
pub fn parse_log_line(line: &str) -> (r: Option<SyncEvent>)
    ensures
        opt_event_view(r) == parse_line_spec(line@),
{
    let n = line.unicode_len();
    proof {
        lemma_find_from_sound(line@, " - "@, 0);
        reveal_strlit(" - ");
    }
    let i = match find_sub_from(line, " - ", 0) {
        Some(k) => k,
        None => { return None; },
    };
    let ts = trim_to_string(line.substring_char(0, i));
    let msg = trim_to_string(line.substring_char(i + 3, n));
    if starts_with_in(msg.as_str(), "Active window:") {
        match window_fields(msg.as_str()) {
            Some(f) => Some(
                SyncEvent {
                    timestamp: ts,
                    data: EventData::Window { window_title: f.0, process_name: f.1 },
                },
            ),
            None => None,
        }
    } else {
        let is_browser = contains_in(msg.as_str(), "Browser") && contains_in(
            msg.as_str(),
            "visit:",
        );
        if is_browser {
            match browser_fields(msg.as_str()) {
                Some(f) => {
                    let kind = if contains_in(msg.as_str(), "Firefox") {
                        BrowserKind::Firefox
                    } else {
                        BrowserKind::Chromium
                    };
                    Some(
                        SyncEvent {
                            timestamp: ts,
                            data: EventData::Browser { browser: kind, title: f.0, url: f.1 },
                        },
                    )
                },
                None => None,
            }
        } else {
            None
        }
    }
}

} // verus!
