//! Round-trip: a window line the logger writes parses back to the same
//! title and process.

use vstd::prelude::*;
use crate::event::{EventDataView, SyncEventView};
use crate::logfmt::{log_line_spec, window_message_spec, timestamp_shape};
use crate::parse::{parse_line_spec, parse_message_spec, window_fields_spec};
use crate::text::{
    match_at, find_from, contains_sub, starts_with_spec, is_space_char,
    lemma_mismatch_at, lemma_find_from_is_first, lemma_rfind_char_is_last, lemma_trim_id,
    lemma_exists_match_finds,
};

verus! {

/// In a full log line, the first `" - "` stands right after the
/// timestamp: the timestamp holds none, and its ends cannot complete
/// one across the boundary.
proof fn lemma_first_sep(ts: Seq<char>, msg: Seq<char>)
    requires
        timestamp_shape(ts),
    ensures
        find_from(log_line_spec(ts, msg), " - "@, 0) == Some(ts.len() as int),
{
    reveal_strlit(" - ");
    let sep = " - "@;
    let line = log_line_spec(ts, msg);
    let n = ts.len() as int;
    assert(sep.len() == 3);
    assert(line.len() == n + 3 + msg.len());
    assert(forall|i: int| 0 <= i < n ==> line[i] == ts[i]);
    assert(forall|i: int| 0 <= i < 3 ==> line[n + i] == sep[i]);
    assert(line.subrange(n, n + 3) =~= sep);
    assert(match_at(line, sep, n));
    assert forall|j: int| 0 <= j < n implies !match_at(line, sep, j) by {
        if j + 3 <= n {
            if match_at(line, sep, j) {
                assert(ts.subrange(j, j + 3) =~= line.subrange(j, j + 3));
                assert(match_at(ts, sep, j));
                lemma_exists_match_finds(ts, sep, 0, j);
                assert(contains_sub(ts, sep));
            }
        } else if j == n - 2 {
            assert(line[j + 1] == ts[n - 1]);
            assert(ts[n - 1] != '-');
            lemma_mismatch_at(line, sep, j, 1);
        } else {
            assert(j == n - 1);
            assert(line[j + 1] == sep[0]);
            assert(sep[0] == ' ' && sep[1] == '-');
            lemma_mismatch_at(line, sep, j, 1);
        }
    }
    lemma_find_from_is_first(line, sep, 0, n);
}

/// The window message parses back to its own title and process, for a
/// title and a process free of quotes and of the `"(proc: "` marker.
proof fn lemma_window_message_fields(title: Seq<char>, proc: Seq<char>)
    requires
        !title.contains('\''),
        !proc.contains('\''),
        !contains_sub(title, "(proc: "@),
        !contains_sub(proc, "(proc: "@),
    ensures
        ({
            let msg = window_message_spec(title, proc);
            &&& window_fields_spec(msg) == Some((title, proc))
            &&& starts_with_spec(msg, "Active window:"@)
            &&& msg.len() > 0
            &&& !is_space_char(msg[0])
            &&& !is_space_char(msg[msg.len() - 1])
        }),
{
    reveal_strlit("Active window: '");
    reveal_strlit("' (proc: ");
    reveal_strlit(")");
    reveal_strlit("Active window:");
    reveal_strlit("'");
    reveal_strlit("(proc: ");
    let p = "Active window: '"@;
    let q = "' (proc: "@;
    let r = ")"@;
    let pat = "(proc: "@;
    let msg = window_message_spec(title, proc);
    let t = title.len() as int;
    let pr = proc.len() as int;
    assert(p.len() == 16 && q.len() == 9 && r.len() == 1 && pat.len() == 7);
    assert(msg.len() == 26 + t + pr);
    assert(forall|i: int| 0 <= i < 16 ==> msg[i] == p[i]);
    assert(forall|i: int| 0 <= i < t ==> msg[16 + i] == title[i]);
    assert(forall|i: int| 0 <= i < 9 ==> msg[16 + t + i] == q[i]);
    assert(forall|i: int| 0 <= i < pr ==> msg[25 + t + i] == proc[i]);
    assert(msg[25 + t + pr] == r[0]);

    // the message starts with the window marker and no space
    assert(msg.subrange(0, 14) =~= "Active window:"@);
    assert(starts_with_spec(msg, "Active window:"@));
    assert(!is_space_char(msg[0]));
    assert(!is_space_char(msg[msg.len() - 1]));

    // the first quote is the one that opens the title
    assert(match_at(msg, "'"@, 15)) by {
        assert(msg.subrange(15, 16) =~= "'"@);
    }
    assert forall|j: int| 0 <= j < 15 implies !match_at(msg, "'"@, j) by {
        assert(msg[j] == p[j]);
        lemma_mismatch_at(msg, "'"@, j, 0);
    }
    lemma_find_from_is_first(msg, "'"@, 0, 15);

    // the last quote is the one that closes the title
    assert(msg[16 + t] == '\'');
    assert forall|j: int| 16 + t < j <= msg.len() - 1 implies msg[j] != '\'' by {
        if j < 25 + t {
            assert(msg[j] == q[j - 16 - t]);
        } else if j < 25 + t + pr {
            if msg[j] == '\'' {
                assert(proc[j - 25 - t] == '\'');
                assert(proc.contains('\''));
            }
        } else {
            assert(msg[j] == r[0]);
        }
    }
    lemma_rfind_char_is_last(msg, '\'', msg.len() - 1, 16 + t);

    // the first "(proc: " is the marker between title and process
    assert(match_at(msg, pat, 18 + t)) by {
        assert(forall|i: int| 0 <= i < 7 ==> #[trigger] msg[18 + t + i] == q[2 + i]);
        assert(msg.subrange(18 + t, 25 + t) =~= pat);
    }
    assert forall|j: int| 0 <= j < 18 + t implies !match_at(msg, pat, j) by {
        if j < 15 {
            assert(msg[j] == p[j]);
            lemma_mismatch_at(msg, pat, j, 0);
        } else if j == 15 {
            assert(msg[j] == '\'');
            lemma_mismatch_at(msg, pat, j, 0);
        } else if j < 16 + t {
            if j + 7 <= 16 + t {
                if match_at(msg, pat, j) {
                    assert(title.subrange(j - 16, j - 16 + 7) =~= msg.subrange(j, j + 7));
                    assert(match_at(title, pat, j - 16));
                    lemma_exists_match_finds(title, pat, 0, j - 16);
                    assert(contains_sub(title, pat));
                }
            } else {
                let m = 16 + t - j;
                assert(1 <= m < 7);
                assert(msg[j + m] == '\'');
                assert(pat[m] != '\'');
                lemma_mismatch_at(msg, pat, j, m);
            }
        } else if j == 16 + t {
            assert(msg[j] == '\'');
            lemma_mismatch_at(msg, pat, j, 0);
        } else {
            assert(j == 17 + t);
            assert(msg[j] == q[1]);
            lemma_mismatch_at(msg, pat, j, 0);
        }
    }
    lemma_find_from_is_first(msg, pat, 0, 18 + t);

    // the last ')' is the final character
    lemma_rfind_char_is_last(msg, ')', msg.len() - 1, 25 + t + pr);

    assert(msg.subrange(16, 16 + t) =~= title);
    assert(msg.subrange(25 + t, 25 + t + pr) =~= proc);
    assert(window_fields_spec(msg) == Some((title, proc)));
}

/// Round-trip law: a log line the Activity Logger writes for a window
/// observation parses back to the very same timestamp, title and
/// process, provided title and process hold no quote and no
/// `"(proc: "` marker.
pub proof fn lemma_window_round_trip(ts: Seq<char>, title: Seq<char>, proc: Seq<char>)
    requires
        timestamp_shape(ts),
        !title.contains('\''),
        !proc.contains('\''),
        !contains_sub(title, "(proc: "@),
        !contains_sub(proc, "(proc: "@),
    ensures
        parse_line_spec(log_line_spec(ts, window_message_spec(title, proc))) == Some(
            SyncEventView {
                timestamp: ts,
                data: EventDataView::Window { window_title: title, process_name: proc },
            },
        ),
{
    reveal_strlit(" - ");
    let msg = window_message_spec(title, proc);
    let line = log_line_spec(ts, msg);
    let n = ts.len() as int;
    lemma_first_sep(ts, msg);
    lemma_window_message_fields(title, proc);
    assert(line.subrange(0, n) =~= ts);
    assert(line.subrange(n + 3, line.len() as int) =~= msg);
    lemma_trim_id(ts);
    lemma_trim_id(msg);
    assert(parse_line_spec(line) == parse_message_spec(ts, msg));
    assert(parse_message_spec(ts, msg) == Some(
        SyncEventView {
            timestamp: ts,
            data: EventDataView::Window { window_title: title, process_name: proc },
        },
    ));
}

} // verus!
