//! The line-oriented log format: one timestamped message per line.

use vstd::prelude::*;
use crate::event::BrowserKind;
use crate::text::{contains_sub, is_space_char};

verus! {

/// A full log line: the timestamp, the separator, the message.
pub open spec fn log_line_spec(ts: Seq<char>, msg: Seq<char>) -> Seq<char> {
    ts + " - "@ + msg
}

/// The message recording a window focus change.
pub open spec fn window_message_spec(title: Seq<char>, proc: Seq<char>) -> Seq<char> {
    "Active window: '"@ + title + "' (proc: "@ + proc + ")"@
}

/// The label under which a browser family appears in the log.
pub open spec fn kind_label_spec(kind: BrowserKind) -> Seq<char> {
    match kind {
        BrowserKind::Chromium => "Chromium"@,
        BrowserKind::Firefox => "Firefox"@,
    }
}

/// The message recording one browser visit.
pub open spec fn visit_message_spec(
    kind: BrowserKind,
    dt: Seq<char>,
    title: Seq<char>,
    url: Seq<char>,
) -> Seq<char> {
    "Browser ("@ + kind_label_spec(kind) + ") visit: "@ + dt + " | "@ + title + " | "@ + url
}

/// Shape of a timestamp as the logger writes it: non-empty, free of the
/// line separator, with no space at either end and no dash at the back.
pub open spec fn timestamp_shape(ts: Seq<char>) -> bool {
    &&& ts.len() > 0
    &&& !contains_sub(ts, " - "@)
    &&& !is_space_char(ts[0])
    &&& !is_space_char(ts[ts.len() - 1])
    &&& ts[ts.len() - 1] != '-'
}

/// The label under which a browser family appears in the log.
pub fn kind_label(kind: BrowserKind) -> (r: &'static str)
    ensures
        r@ == kind_label_spec(kind),
{
    match kind {
        BrowserKind::Chromium => "Chromium",
        BrowserKind::Firefox => "Firefox",
    }
}

/// Joins a timestamp and a message into one log line.
pub fn format_log_line(ts: &str, msg: &str) -> (r: String)
    ensures
        r@ == log_line_spec(ts@, msg@),
{
    let mut out = ts.to_owned();
    out.append(" - ");
    out.append(msg);
    proof {
        assert(out@ =~= log_line_spec(ts@, msg@));
    }
    out
}

/// Builds the message recording a window focus change.
pub fn format_window_message(title: &str, proc: &str) -> (r: String)
    ensures
        r@ == window_message_spec(title@, proc@),
{
    let mut out = String::from_str("Active window: '");
    out.append(title);
    out.append("' (proc: ");
    out.append(proc);
    out.append(")");
    proof {
        assert(out@ =~= window_message_spec(title@, proc@));
    }
    out
}

/// What chrono renders for a unix timestamp, as the visit lines embed it.
pub uninterp spec fn datetime_display_of(ts: int) -> Seq<char>;

/// Relies on chrono's `DateTime::from_timestamp` and the `Display` of
/// `NaiveDateTime`: the rendering is a function of the timestamp alone;
/// a timestamp outside chrono's range is rendered as the epoch is
/// (`from_timestamp(0, 0)` is documented to be in range).
#[verifier::external_body]
pub fn datetime_display(ts: i64) -> (r: String)
    ensures
        r@ == datetime_display_of(ts as int),
{
    chrono::DateTime::from_timestamp(ts, 0)
        .unwrap_or_else(|| chrono::DateTime::from_timestamp(0, 0).unwrap())
        .naive_utc()
        .to_string()
}

/// Builds the message recording one browser visit, rendering the visit
/// time the way chrono displays it.
pub fn format_visit_message(kind: BrowserKind, visited_at: i64, title: &str, url: &str) -> (r:
    String)
    ensures
        r@ == visit_message_spec(
            kind,
            datetime_display_of(visited_at as int),
            title@,
            url@,
        ),
{
    let dt = datetime_display(visited_at);
    let mut out = String::from_str("Browser (");
    out.append(kind_label(kind));
    out.append(") visit: ");
    out.append(dt.as_str());
    out.append(" | ");
    out.append(title);
    out.append(" | ");
    out.append(url);
    proof {
        assert(out@ =~= visit_message_spec(
            kind,
            datetime_display_of(visited_at as int),
            title@,
            url@,
        ));
    }
    out
}

/// Relies on chrono's `Local::now` and its `format` with
/// `"%Y-%m-%d %H:%M:%S"`: whatever instant the clock and the local time
/// zone give, the rendering is digit groups joined by '-', ':' and one
/// interior space, so it holds no " - " and neither starts nor ends
/// with a space, and ends with a digit.
#[verifier::external_body]
pub fn now_timestamp() -> (r: String)
    ensures
        timestamp_shape(r@),
{
    chrono::Local::now().format("%Y-%m-%d %H:%M:%S").to_string()
}

/// Stamps a message with the current local time, giving a full log line.
pub fn stamped_log_line(msg: &str) -> (r: String)
    ensures
        exists|ts: Seq<char>| timestamp_shape(ts) && r@ == log_line_spec(ts, msg@),
{
    let ts = now_timestamp();
    let line = format_log_line(ts.as_str(), msg);
    proof {
        assert(timestamp_shape(ts@) && line@ == log_line_spec(ts@, msg@));
    }
    line
}

} // verus!
