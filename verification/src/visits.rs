//! Browser-history extraction: epoch conversion, the watermark filter,
//! descending order, and the row cap.
//!
//! A history snapshot hands over raw rows whose visit times are in the
//! store's own convention: Chromium-family stores count microseconds
//! since 1601-01-01, Firefox counts microseconds since the unix epoch.
//! Extraction converts each time to unix seconds, keeps the rows newer
//! than a watermark, orders them newest first, and caps their number.

use vstd::prelude::*;
use vstd::multiset::Multiset;
use vstd::arithmetic::div_mod::{lemma_div_is_ordered, lemma_div_pos_is_pos};
use crate::event::BrowserKind;

verus! {

/// Seconds between 1601-01-01 and the unix epoch.
pub const CHROMIUM_EPOCH_GAP: i64 = 11644473600;

/// Truncating division by a positive divisor, as the history stores
/// compute it: the quotient is rounded toward zero.
pub open spec fn tdiv(a: int, b: int) -> int
    recommends
        b > 0,
{
    if a >= 0 {
        a / b
    } else {
        -((-a) / b)
    }
}

/// Unix seconds of a Chromium-family stored visit time.
pub open spec fn chromium_unix_of(stored: int) -> int {
    tdiv(stored, 1_000_000) - 11644473600
}

/// Unix seconds of a Firefox stored visit time.
pub open spec fn firefox_unix_of(stored: int) -> int {
    tdiv(stored, 1_000_000)
}

/// Unix seconds of a stored visit time, by browser family.
pub open spec fn unix_of(kind: BrowserKind, stored: int) -> int {
    match kind {
        BrowserKind::Chromium => chromium_unix_of(stored),
        BrowserKind::Firefox => firefox_unix_of(stored),
    }
}

/// A row as a history snapshot hands it over.
pub struct RawVisit {
    pub url: String,
    pub title: String,
    pub stored: i64,
}

/// Ghost value of a raw row.
pub struct RawVisitView {
    pub url: Seq<char>,
    pub title: Seq<char>,
    pub stored: int,
}

impl View for RawVisit {
    type V = RawVisitView;

    open spec fn view(&self) -> RawVisitView {
        RawVisitView { url: self.url@, title: self.title@, stored: self.stored as int }
    }
}

/// One browser visit, its time in unix seconds.
pub struct VisitRecord {
    pub url: String,
    pub title: String,
    pub visited_at: i64,
}

/// Ghost value of one visit.
pub struct VisitRecordView {
    pub url: Seq<char>,
    pub title: Seq<char>,
    pub visited_at: int,
}

impl View for VisitRecord {
    type V = VisitRecordView;

    open spec fn view(&self) -> VisitRecordView {
        VisitRecordView { url: self.url@, title: self.title@, visited_at: self.visited_at as int }
    }
}

/// The views of a sequence of raw rows.
pub open spec fn raws_view(s: Seq<RawVisit>) -> Seq<RawVisitView> {
    Seq::new(s.len(), |i: int| s[i]@)
}

/// The views of a sequence of visits.
pub open spec fn recs_view(s: Seq<VisitRecord>) -> Seq<VisitRecordView> {
    Seq::new(s.len(), |i: int| s[i]@)
}

/// The rows newer than `since`, converted to unix seconds, in row order.
pub open spec fn converted_new(rows: Seq<RawVisitView>, kind: BrowserKind, since: int) -> Seq<
    VisitRecordView,
>
    decreases rows.len(),
{
    if rows.len() == 0 {
        Seq::empty()
    } else {
        let rest = converted_new(rows.drop_last(), kind, since);
        let last = rows.last();
        let t = unix_of(kind, last.stored);
        if t > since {
            rest.push(VisitRecordView { url: last.url, title: last.title, visited_at: t })
        } else {
            rest
        }
    }
}

/// `x` placed before the first visit it is at least as new as.
pub open spec fn insert_desc(x: VisitRecordView, s: Seq<VisitRecordView>) -> Seq<VisitRecordView>
    decreases s.len(),
{
    if s.len() == 0 {
        seq![x]
    } else if x.visited_at >= s[0].visited_at {
        seq![x] + s
    } else {
        seq![s[0]] + insert_desc(x, s.drop_first())
    }
}

/// The visits reordered newest first, by insertion.
pub open spec fn sort_desc(s: Seq<VisitRecordView>) -> Seq<VisitRecordView>
    decreases s.len(),
{
    if s.len() == 0 {
        Seq::empty()
    } else {
        insert_desc(s.last(), sort_desc(s.drop_last()))
    }
}

/// Visit times never increase along the sequence.
pub open spec fn sorted_desc(s: Seq<VisitRecordView>) -> bool {
    forall|i: int, j: int| 0 <= i < j < s.len() ==> s[i].visited_at >= s[j].visited_at
}

/// What extraction returns: the rows newer than `since`, newest first,
/// at most `limit` of them.
pub open spec fn extract_spec(
    rows: Seq<RawVisitView>,
    kind: BrowserKind,
    since: int,
    limit: int,
) -> Seq<VisitRecordView> {
    let sorted = sort_desc(converted_new(rows, kind, since));
    if limit < sorted.len() {
        sorted.subrange(0, limit)
    } else {
        sorted
    }
}

/// Inserting keeps the descending order.
pub proof fn lemma_insert_desc_sorted(x: VisitRecordView, s: Seq<VisitRecordView>)
    requires
        sorted_desc(s),
    ensures
        sorted_desc(insert_desc(x, s)),
        insert_desc(x, s).len() == s.len() + 1,
        insert_desc(x, s).to_multiset() == s.to_multiset().insert(x),
    decreases s.len(),
{
    broadcast use vstd::seq_lib::group_seq_lib_default, vstd::multiset::group_multiset_axioms, vstd::seq_lib::group_to_multiset_ensures;

    if s.len() == 0 {
        assert(seq![x] =~= Seq::empty().push(x));
        assert(s.to_multiset() =~= Multiset::empty());
    } else if x.visited_at >= s[0].visited_at {
        let r = seq![x] + s;
        assert(forall|j: int| 1 <= j < r.len() ==> r[j] == s[j - 1]);
        assert((seq![x] + s).drop_first() =~= s);
        vstd::seq_lib::lemma_multiset_commutative(seq![x], s);
        assert(seq![x].to_multiset() =~= Multiset::empty().insert(x));
    } else {
        let t = s.drop_first();
        assert(sorted_desc(t));
        lemma_insert_desc_sorted(x, t);
        let r = seq![s[0]] + insert_desc(x, t);
        assert(forall|j: int| 1 <= j < r.len() ==> r[j] == insert_desc(x, t)[j - 1]);
        // everything in insert_desc(x, t) is x or an element of t, so
        // s[0] stays the newest
        assert forall|j: int| 1 <= j < r.len() implies s[0].visited_at >= r[j].visited_at by {
            lemma_insert_desc_member(x, t, j - 1);
        }
        assert(sorted_desc(r));
        vstd::seq_lib::lemma_multiset_commutative(seq![s[0]], insert_desc(x, t));
        vstd::seq_lib::lemma_multiset_commutative(seq![s[0]], t);
        assert(seq![s[0]] + t =~= s);
        assert(seq![s[0]].to_multiset() =~= Multiset::empty().insert(s[0]));
        assert(r.to_multiset() =~= s.to_multiset().insert(x));
    }
}

/// Every element of an insertion result is the inserted visit or one of
/// the old ones.
proof fn lemma_insert_desc_member(x: VisitRecordView, s: Seq<VisitRecordView>, j: int)
    requires
        0 <= j < insert_desc(x, s).len(),
    ensures
        insert_desc(x, s)[j] == x || exists|k: int|
            0 <= k < s.len() && insert_desc(x, s)[j] == s[k],
    decreases s.len(),
{
    if s.len() == 0 {
    } else if x.visited_at >= s[0].visited_at {
        if j > 0 {
            assert(insert_desc(x, s)[j] == s[j - 1]);
        }
    } else {
        if j > 0 {
            lemma_insert_desc_member(x, s.drop_first(), j - 1);
            if insert_desc(x, s.drop_first())[j - 1] != x {
                let k = choose|k: int|
                    0 <= k < s.drop_first().len() && insert_desc(x, s.drop_first())[j - 1]
                        == s.drop_first()[k];
                assert(insert_desc(x, s)[j] == s[k + 1]);
            }
        } else {
            assert(insert_desc(x, s)[0] == s[0]);
        }
    }
}

/// Sorting yields the same visits, newest first.
pub proof fn lemma_sort_desc_sorted(s: Seq<VisitRecordView>)
    ensures
        sorted_desc(sort_desc(s)),
        sort_desc(s).len() == s.len(),
        sort_desc(s).to_multiset() == s.to_multiset(),
    decreases s.len(),
{
    broadcast use vstd::seq_lib::group_seq_lib_default, vstd::multiset::group_multiset_axioms, vstd::seq_lib::group_to_multiset_ensures;

    if s.len() > 0 {
        lemma_sort_desc_sorted(s.drop_last());
        lemma_insert_desc_sorted(s.last(), sort_desc(s.drop_last()));
        assert(s.drop_last().push(s.last()) =~= s);
        vstd::seq_lib::lemma_seq_union_to_multiset_commutative(s.drop_last(), seq![s.last()]);
        assert(s.drop_last() + seq![s.last()] =~= s);
        assert(seq![s.last()].to_multiset() =~= Multiset::empty().insert(s.last()));
        vstd::seq_lib::lemma_multiset_commutative(s.drop_last(), seq![s.last()]);
    }
}

/// Truncating quotient of `a` and 1,000,000, with its bounds.
fn tdiv_million(a: i64) -> (r: i64)
    ensures
        r == tdiv(a as int, 1_000_000),
        -9223372036854 <= r <= 9223372036854,
{
    if a >= 0 {
        let q = (a as u64) / 1_000_000u64;
        proof {
            lemma_div_is_ordered(a as int, 0x7fff_ffff_ffff_ffffi64 as int, 1_000_000);
            lemma_div_pos_is_pos(a as int, 1_000_000);
        }
        q as i64
    } else if a == -0x8000_0000_0000_0000i64 {
        proof {
            assert(-(a as int) == 0x8000_0000_0000_0000);
            vstd::arithmetic::div_mod::lemma_fundamental_div_mod_converse(
                0x8000_0000_0000_0000,
                1_000_000,
                9223372036854,
                775808,
            );
        }
        -9223372036854
    } else {
        let m = (-a) as u64;
        let q = m / 1_000_000u64;
        proof {
            lemma_div_is_ordered(m as int, 0x7fff_ffff_ffff_ffffi64 as int, 1_000_000);
            lemma_div_pos_is_pos(m as int, 1_000_000);
        }
        -(q as i64)
    }
}

/// Unix seconds of a stored visit time, by browser family.
pub fn to_unix_seconds(kind: BrowserKind, stored: i64) -> (r: i64)
    ensures
        r == unix_of(kind, stored as int),
{
    let q = tdiv_million(stored);
    match kind {
        BrowserKind::Chromium => q - CHROMIUM_EPOCH_GAP,
        BrowserKind::Firefox => q,
    }
}

/// Places a visit before the first one it is at least as new as.
fn insert_visit(out: &mut Vec<VisitRecord>, rec: VisitRecord)
    ensures
        recs_view(final(out)@) == insert_desc(rec@, recs_view(old(out)@)),
{
    let mut j: usize = 0;
    while j < out.len() && rec.visited_at < out[j].visited_at
        invariant
            0 <= j <= out@.len(),
            forall|k: int| 0 <= k < j ==> recs_view(out@)[k].visited_at > rec@.visited_at,
            out == old(out),
        decreases out@.len() - j,
    {
        j += 1;
    }
    proof {
        lemma_insert_desc_at(rec@, recs_view(out@), j as int);
    }
    out.insert(j, rec);
    proof {
        assert(recs_view(out@) =~= recs_view(old(out)@).subrange(0, j as int) + seq![rec@]
            + recs_view(old(out)@).subrange(j as int, recs_view(old(out)@).len() as int));
    }
}

/// Where the scan stops is where the insertion spec puts the visit.
proof fn lemma_insert_desc_at(x: VisitRecordView, s: Seq<VisitRecordView>, j: int)
    requires
        0 <= j <= s.len(),
        forall|k: int| 0 <= k < j ==> s[k].visited_at > x.visited_at,
        j < s.len() ==> x.visited_at >= s[j].visited_at,
    ensures
        insert_desc(x, s) == s.subrange(0, j) + seq![x] + s.subrange(j, s.len() as int),
    decreases j,
{
    if j == 0 {
        if s.len() == 0 {
            assert(insert_desc(x, s) =~= s.subrange(0, 0) + seq![x] + s.subrange(0, 0));
        } else {
            assert(insert_desc(x, s) =~= s.subrange(0, 0) + seq![x] + s.subrange(0, s.len() as int));
        }
    } else {
        let t = s.drop_first();
        assert(forall|k: int| 0 <= k < j - 1 ==> t[k].visited_at > x.visited_at);
        lemma_insert_desc_at(x, t, j - 1);
        assert(s[0].visited_at > x.visited_at);
        assert(insert_desc(x, s) == seq![s[0]] + insert_desc(x, t));
        assert(insert_desc(x, s) =~= s.subrange(0, j) + seq![x] + s.subrange(j, s.len() as int));
    }
}

/// Extracts from raw snapshot rows the visits newer than `since`,
/// newest first, at most `limit` of them.
pub fn extract_visits(rows: &Vec<RawVisit>, kind: BrowserKind, since: i64, limit: usize) -> (r:
    Vec<VisitRecord>)
    ensures
        recs_view(r@) == extract_spec(raws_view(rows@), kind, since as int, limit as int),
        sorted_desc(recs_view(r@)),
        r@.len() <= limit,
{
    let ghost all = raws_view(rows@);
    let mut out: Vec<VisitRecord> = Vec::new();
    let mut i: usize = 0;
    proof {
        assert(recs_view(out@) =~= sort_desc(converted_new(all.subrange(0, 0), kind, since as int)));
    }
    while i < rows.len()
        invariant
            0 <= i <= rows@.len(),
            all == raws_view(rows@),
            recs_view(out@) == sort_desc(converted_new(all.subrange(0, i as int), kind, since as int)),
        decreases rows@.len() - i,
    {
        let row = &rows[i];
        let t = to_unix_seconds(kind, row.stored);
        let ghost pref = all.subrange(0, i as int);
        let ghost pref1 = all.subrange(0, i + 1);
        proof {
            assert(pref1.drop_last() =~= pref);
            assert(pref1.last() == rows@[i as int]@);
        }
        if t > since {
            let rec = VisitRecord { url: row.url.clone(), title: row.title.clone(), visited_at: t };
            proof {
                let conv = converted_new(pref, kind, since as int);
                assert(converted_new(pref1, kind, since as int) =~= conv.push(rec@));
                assert(conv.push(rec@).drop_last() =~= conv);
            }
            insert_visit(&mut out, rec);
        } else {
            proof {
                assert(converted_new(pref1, kind, since as int) =~= converted_new(pref, kind, since as int));
            }
        }
        i += 1;
    }
    proof {
        assert(all.subrange(0, rows@.len() as int) =~= all);
        lemma_sort_desc_sorted(converted_new(all, kind, since as int));
    }
    if out.len() > limit {
        out.truncate(limit);
        proof {
            let sorted = sort_desc(converted_new(all, kind, since as int));
            assert(recs_view(out@) =~= sorted.subrange(0, limit as int));
        }
    } else {
        proof {
            assert(recs_view(out@) =~= extract_spec(all, kind, since as int, limit as int));
        }
    }
    out
}

} // verus!
