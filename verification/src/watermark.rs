//! Per-source watermarks: the cursor that keeps a visit from being
//! logged twice.
//!
//! A batch arrives newest first; it is walked oldest first, so that the
//! watermark advances even if a walk were cut short. A visit is kept
//! only while it is strictly newer than the cursor, which then moves to
//! its time.

use vstd::prelude::*;
use crate::visits::{VisitRecord, VisitRecordView, recs_view};

verus! {

/// The last visit time already processed for one browser family,
/// in unix seconds.
pub struct SourceWatermark {
    pub last_seen: i64,
}

/// What one oldest-first walk emits, and where it leaves the cursor.
pub open spec fn process_spec(s: Seq<VisitRecordView>, w: int) -> (Seq<VisitRecordView>, int)
    decreases s.len(),
{
    if s.len() == 0 {
        (Seq::empty(), w)
    } else if s[0].visited_at > w {
        let r = process_spec(s.drop_first(), s[0].visited_at);
        (seq![s[0]] + r.0, r.1)
    } else {
        process_spec(s.drop_first(), w)
    }
}

/// Visit times never decrease along the sequence.
pub open spec fn sorted_asc(s: Seq<VisitRecordView>) -> bool {
    forall|i: int, j: int| 0 <= i < j < s.len() ==> s[i].visited_at <= s[j].visited_at
}

/// The cursor never moves backwards.
pub proof fn lemma_watermark_monotone(s: Seq<VisitRecordView>, w: int)
    ensures
        process_spec(s, w).1 >= w,
    decreases s.len(),
{
    if s.len() > 0 {
        if s[0].visited_at > w {
            lemma_watermark_monotone(s.drop_first(), s[0].visited_at as int);
        } else {
            lemma_watermark_monotone(s.drop_first(), w);
        }
    }
}

/// Walking one batch after another is walking their concatenation.
pub proof fn lemma_process_append(s1: Seq<VisitRecordView>, s2: Seq<VisitRecordView>, w: int)
    ensures
        process_spec(s1 + s2, w) == {
            let r1 = process_spec(s1, w);
            let r2 = process_spec(s2, r1.1);
            (r1.0 + r2.0, r2.1)
        },
    decreases s1.len(),
{
    if s1.len() == 0 {
        assert(s1 + s2 =~= s2);
        assert(Seq::<VisitRecordView>::empty() + process_spec(s2, w).0 =~= process_spec(s2, w).0);
    } else {
        assert((s1 + s2).drop_first() =~= s1.drop_first() + s2);
        assert((s1 + s2)[0] == s1[0]);
        if s1[0].visited_at > w {
            lemma_process_append(s1.drop_first(), s2, s1[0].visited_at as int);
            let ra = process_spec(s1.drop_first(), s1[0].visited_at as int);
            let rb = process_spec(s2, ra.1);
            assert(seq![s1[0]] + (ra.0 + rb.0) =~= (seq![s1[0]] + ra.0) + rb.0);
        } else {
            lemma_process_append(s1.drop_first(), s2, w);
        }
    }
}

/// Every emitted visit is strictly newer than the initial cursor.
pub proof fn lemma_emitted_newer(s: Seq<VisitRecordView>, w: int)
    ensures
        forall|i: int|
            0 <= i < process_spec(s, w).0.len() ==> process_spec(s, w).0[i].visited_at > w,
    decreases s.len(),
{
    if s.len() > 0 {
        let e = process_spec(s, w).0;
        if s[0].visited_at > w {
            lemma_emitted_newer(s.drop_first(), s[0].visited_at as int);
            let r = process_spec(s.drop_first(), s[0].visited_at as int);
            assert forall|i: int| 0 <= i < e.len() implies e[i].visited_at > w by {
                assert(e == seq![s[0]] + r.0);
                if i >= 1 {
                    assert(e[i] == r.0[i - 1]);
                    assert(r.0[i - 1].visited_at > s[0].visited_at);
                }
            }
        } else {
            lemma_emitted_newer(s.drop_first(), w);
            assert forall|i: int| 0 <= i < e.len() implies e[i].visited_at > w by {
                assert(e[i] == process_spec(s.drop_first(), w).0[i]);
            }
        }
    }
}

/// A batch wholly at or under the cursor emits nothing and leaves the
/// cursor where it was.
pub proof fn lemma_stale_batch_silent(s: Seq<VisitRecordView>, w: int)
    requires
        forall|i: int| 0 <= i < s.len() ==> s[i].visited_at <= w,
    ensures
        process_spec(s, w).0 =~= Seq::<VisitRecordView>::empty(),
        process_spec(s, w).1 == w,
    decreases s.len(),
{
    if s.len() > 0 {
        assert(s[0].visited_at <= w);
        assert(forall|i: int| 0 <= i < s.drop_first().len() ==> s.drop_first()[i].visited_at <= w);
        lemma_stale_batch_silent(s.drop_first(), w);
    }
}

/// What a whole run of batches, walked in order, emits, and where it
/// leaves the cursor.
pub open spec fn process_run(batches: Seq<Seq<VisitRecordView>>, w: int) -> (
    Seq<VisitRecordView>,
    int,
)
    decreases batches.len(),
{
    if batches.len() == 0 {
        (Seq::empty(), w)
    } else {
        let first = process_spec(batches.first(), w);
        let rest = process_run(batches.drop_first(), first.1);
        (first.0 + rest.0, rest.1)
    }
}

/// Walking a run of batches is walking their concatenation: the cursor
/// carries over from one batch to the next.
pub proof fn lemma_run_is_concat(batches: Seq<Seq<VisitRecordView>>, w: int)
    ensures
        process_run(batches, w) == process_spec(batches.flatten(), w),
    decreases batches.len(),
{
    if batches.len() == 0 {
        assert(batches.flatten() =~= Seq::<VisitRecordView>::empty());
    } else {
        let first = process_spec(batches.first(), w);
        lemma_run_is_concat(batches.drop_first(), first.1);
        lemma_process_append(batches.first(), batches.drop_first().flatten(), w);
        assert(batches.flatten() == batches.first() + batches.drop_first().flatten());
    }
}

/// The law of the watermark. Over any run of batches whose injected
/// times, taken together and oldest first, never decrease: the cursor
/// ends at the newest time seen (or where it started, if nothing was
/// newer), and a record at or under the starting cursor is never
/// emitted.
pub proof fn lemma_watermark_law(batches: Seq<Seq<VisitRecordView>>, w: int)
    requires
        sorted_asc(batches.flatten()),
    ensures
        ({
            let all = batches.flatten();
            let r = process_run(batches, w);
            &&& r.1 == if all.len() > 0 && all.last().visited_at > w {
                all.last().visited_at
            } else {
                w
            }
            &&& forall|i: int| 0 <= i < r.0.len() ==> r.0[i].visited_at > w
        }),
{
    let all = batches.flatten();
    lemma_run_is_concat(batches, w);
    lemma_watermark_reaches_max(all, w);
    lemma_emitted_newer(all, w);
}

/// After an oldest-first walk of a non-decreasing batch, the cursor
/// stands at the newest visit time seen, or where it started if nothing
/// was newer.
pub proof fn lemma_watermark_reaches_max(s: Seq<VisitRecordView>, w: int)
    requires
        sorted_asc(s),
    ensures
        process_spec(s, w).1 == if s.len() > 0 && s.last().visited_at > w {
            s.last().visited_at
        } else {
            w
        },
    decreases s.len(),
{
    if s.len() > 0 {
        let t = s.drop_first();
        assert(sorted_asc(t));
        if s[0].visited_at > w {
            lemma_watermark_reaches_max(t, s[0].visited_at as int);
            if t.len() > 0 {
                assert(t.last() == s.last());
            }
        } else {
            lemma_watermark_reaches_max(t, w);
            if t.len() > 0 {
                assert(t.last() == s.last());
            }
        }
    }
}

impl SourceWatermark {
    /// A fresh cursor, set to the moment the process started: history
    /// from before launch is never replayed.
    pub fn new(start: i64) -> (r: Self)
        ensures
            r.last_seen == start,
    {
        SourceWatermark { last_seen: start }
    }

    /// Walks a newest-first batch oldest first, returning the visits
    /// strictly newer than the cursor and advancing it over them.
    pub fn process_batch(&mut self, batch: &Vec<VisitRecord>) -> (emitted: Vec<VisitRecord>)
        ensures
            ({
                let r = process_spec(recs_view(batch@).reverse(), old(self).last_seen as int);
                recs_view(emitted@) == r.0 && final(self).last_seen as int == r.1
            }),
            final(self).last_seen >= old(self).last_seen,
    {
        let ghost rev = recs_view(batch@).reverse();
        let mut emitted: Vec<VisitRecord> = Vec::new();
        let mut i: usize = batch.len();
        proof {
            assert(rev.subrange(0, 0) =~= Seq::<VisitRecordView>::empty());
        }
        while i > 0
            invariant
                0 <= i <= batch@.len(),
                rev == recs_view(batch@).reverse(),
                ({
                    let r = process_spec(
                        rev.subrange(0, batch@.len() - i),
                        old(self).last_seen as int,
                    );
                    recs_view(emitted@) == r.0 && self.last_seen as int == r.1
                }),
            decreases i,
        {
            i -= 1;
            let ghost k = batch@.len() - i - 1;
            let ghost pref = rev.subrange(0, k);
            let ghost pref1 = rev.subrange(0, k + 1);
            proof {
                assert(pref1 =~= pref + seq![rev[k]]);
                lemma_process_append(pref, seq![rev[k]], old(self).last_seen as int);
                assert(rev[k] == recs_view(batch@)[i as int]);
                assert(seq![rev[k]].drop_first() =~= Seq::<VisitRecordView>::empty());
            }
            let ghost w0 = old(self).last_seen as int;
            let ghost r_pref = process_spec(pref, w0);
            let rec = &batch[i];
            proof {
                assert(recs_view(emitted@) == r_pref.0);
                assert(self.last_seen as int == r_pref.1);
                assert(rec@ == rev[k]);
            }
            if rec.visited_at > self.last_seen {
                let kept = VisitRecord {
                    url: rec.url.clone(),
                    title: rec.title.clone(),
                    visited_at: rec.visited_at,
                };
                self.last_seen = rec.visited_at;
                proof {
                    reveal_with_fuel(process_spec, 3);
                    assert(kept@ == rev[k]);
                    assert(process_spec(seq![rev[k]], r_pref.1).0 =~= seq![rev[k]]);
                }
                emitted.push(kept);
                proof {
                    assert(recs_view(emitted@) =~= r_pref.0 + seq![rev[k]]);
                }
            } else {
                proof {
                    reveal_with_fuel(process_spec, 3);
                    assert(process_spec(pref1, w0).0 =~= r_pref.0);
                }
            }
        }
        proof {
            assert(rev.subrange(0, batch@.len() as int) =~= rev);
            lemma_watermark_monotone(rev, old(self).last_seen as int);
        }
        emitted
    }
}

} // verus!
