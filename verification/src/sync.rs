//! The sync batch: every parsable log line becomes one event, in file
//! order, and a request goes out only when the batch is non-empty.

use vstd::prelude::*;
use crate::event::{SyncEvent, SyncEventView};
use crate::parse::{parse_line_spec, parse_log_line};
use crate::text::{contains_sub, trim_spec, contains_in, trim_to_string};

verus! {

/// The views of a sequence of lines.
pub open spec fn lines_view(s: Seq<String>) -> Seq<Seq<char>> {
    Seq::new(s.len(), |i: int| s[i]@)
}

/// The views of a sequence of events.
pub open spec fn events_view(s: Seq<SyncEvent>) -> Seq<SyncEventView> {
    Seq::new(s.len(), |i: int| s[i]@)
}

/// The events the parsable lines yield, in file order.
pub open spec fn collect_spec(lines: Seq<Seq<char>>) -> Seq<SyncEventView>
    decreases lines.len(),
{
    if lines.len() == 0 {
        Seq::empty()
    } else {
        let rest = collect_spec(lines.drop_last());
        match parse_line_spec(lines.last()) {
            Some(e) => rest.push(e),
            None => rest,
        }
    }
}

/// How many of the lines parse.
pub open spec fn count_parsable(lines: Seq<Seq<char>>) -> int
    decreases lines.len(),
{
    if lines.len() == 0 {
        0
    } else {
        count_parsable(lines.drop_last()) + if parse_line_spec(lines.last()) is Some {
            1int
        } else {
            0int
        }
    }
}

/// A batch holds exactly one event per parsable line: with N parsable
/// and M unparsable lines, N events are collected, whatever M is.
pub proof fn lemma_collect_counts_parsable(lines: Seq<Seq<char>>)
    ensures
        collect_spec(lines).len() == count_parsable(lines),
        0 <= count_parsable(lines) <= lines.len(),
    decreases lines.len(),
{
    if lines.len() > 0 {
        lemma_collect_counts_parsable(lines.drop_last());
    }
}

/// Parses every line, collecting the events of the parsable ones in
/// file order.
pub fn collect_sync_events(lines: &Vec<String>) -> (r: Vec<SyncEvent>)
    ensures
        events_view(r@) == collect_spec(lines_view(lines@)),
{
    let ghost all = lines_view(lines@);
    let mut out: Vec<SyncEvent> = Vec::new();
    let mut i: usize = 0;
    proof {
        assert(events_view(out@) =~= collect_spec(all.subrange(0, 0)));
    }
    while i < lines.len()
        invariant
            0 <= i <= lines@.len(),
            all == lines_view(lines@),
            events_view(out@) == collect_spec(all.subrange(0, i as int)),
        decreases lines@.len() - i,
    {
        let ghost pref = all.subrange(0, i as int);
        let ghost pref1 = all.subrange(0, i + 1);
        proof {
            assert(pref1.drop_last() =~= pref);
            assert(pref1.last() == lines@[i as int]@);
        }
        match parse_log_line(lines[i].as_str()) {
            Some(e) => {
                proof {
                    assert(parse_line_spec(all[i as int]) == Some(e@));
                }
                out.push(e);
                proof {
                    assert(events_view(out@) =~= collect_spec(pref).push(e@));
                }
            },
            None => {
                proof {
                    assert(collect_spec(pref1) =~= collect_spec(pref));
                }
            },
        }
        i += 1;
    }
    proof {
        assert(all.subrange(0, lines@.len() as int) =~= all);
    }
    out
}

/// A batch goes out exactly when it holds an event.
pub fn should_sync(events: &Vec<SyncEvent>) -> (b: bool)
    ensures
        b == (events@.len() > 0),
{
    events.len() > 0
}

/// Which lines that failed to parse deserve a diagnostic: non-blank
/// ones that are not themselves known benign diagnostics.
pub open spec fn report_unparsable_spec(l: Seq<char>) -> bool {
    &&& trim_spec(l).len() > 0
    &&& !contains_sub(l, "No new log entries"@)
    &&& !contains_sub(l, "Starting main"@)
    &&& !contains_sub(l, "Main loop iteration"@)
}

/// Whether a line that failed to parse deserves a diagnostic.
pub fn should_report_unparsable(line: &str) -> (b: bool)
    ensures
        b == report_unparsable_spec(line@),
{
    let t = trim_to_string(line);
    if t.as_str().unicode_len() == 0 {
        return false;
    }
    if contains_in(line, "No new log entries") {
        return false;
    }
    if contains_in(line, "Starting main") {
        return false;
    }
    if contains_in(line, "Main loop iteration") {
        return false;
    }
    true
}

/// The diagnostic recorded for a line that could not be parsed.
pub fn unparsable_report(line: &str) -> (r: String)
    ensures
        r@ == "Could not parse log line: "@ + line@,
{
    let mut out = String::from_str("Could not parse log line: ");
    out.append(line);
    out
}

} // verus!
