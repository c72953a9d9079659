//! The ranking engine: every record title is scored against the query, the
//! matches are sorted by score descending with store order as the tie-break
//! (a stable, recency-biased ranking), and the result is truncated to a
//! bounded view. Records that do not match at all never appear in the view.

use vstd::prelude::*;

use crate::record::HistoryEntry;
use crate::record::titles_of;
use crate::score::fuzzy_score;
use crate::score::skim_score;

verus! {

/// How many entries a ranked view may hold at most.
pub const RESULT_LIMIT: usize = 8;

/// Strict ranking order on (store index, score) pairs: higher scores come
/// first, and equal scores keep store order (the lower index first).
pub open spec fn precedes(a: (usize, i64), b: (usize, i64)) -> bool {
    a.1 > b.1 || (a.1 == b.1 && a.0 < b.0)
}

/// A ranked view is sorted when every earlier entry strictly precedes every
/// later one: scores descend, and equal scores keep store order.
pub open spec fn ranked_sorted(r: Seq<(usize, i64)>) -> bool {
    forall|i: int, j: int| 0 <= i < j < r.len() ==> precedes(#[trigger] r[i], #[trigger] r[j])
}

/// One entry of a ranked view is well-formed when its index lies below
/// `bound` and its score is exactly what the scorer assigns to that title.
pub open spec fn entry_ok(titles: Seq<Seq<char>>, query: Seq<char>, bound: int, e: (usize, i64)) -> bool {
    e.0 < bound && skim_score(titles[e.0 as int], query) == Some(e.1)
}

/// Every entry of a ranked view is well-formed.
pub open spec fn entries_ok(titles: Seq<Seq<char>>, query: Seq<char>, bound: int, r: Seq<(usize, i64)>) -> bool {
    forall|j: int| 0 <= j < r.len() ==> entry_ok(titles, query, bound, #[trigger] r[j])
}

/// Inserts `e` into a ranked sequence, after every entry that precedes it
/// and before the rest.
pub open spec fn insert_ranked_spec(r: Seq<(usize, i64)>, e: (usize, i64)) -> Seq<(usize, i64)>
    decreases r.len(),
{
    if r.len() == 0 {
        seq![e]
    } else if precedes(r[0], e) {
        seq![r[0]] + insert_ranked_spec(r.drop_first(), e)
    } else {
        seq![e] + r
    }
}

/// The ranked sequence of the first `n` titles: each matching title is
/// inserted in ranking order, in increasing store order, so that equal
/// scores keep store order; titles the scorer rejects are left out.
pub open spec fn rank_all_spec(titles: Seq<Seq<char>>, query: Seq<char>, n: int) -> Seq<(usize, i64)>
    decreases n,
{
    if n <= 0 {
        Seq::empty()
    } else {
        let prev = rank_all_spec(titles, query, n - 1);
        match skim_score(titles[n - 1], query) {
            Some(s) => insert_ranked_spec(prev, ((n - 1) as usize, s)),
            None => prev,
        }
    }
}

/// The ranked view of a whole store, truncated to the first `k` entries.
pub open spec fn rank_spec(titles: Seq<Seq<char>>, query: Seq<char>, k: int) -> Seq<(usize, i64)> {
    let full = rank_all_spec(titles, query, titles.len() as int);
    if full.len() <= k {
        full
    } else {
        full.take(k)
    }
}

/// Inserting at the first position whose entry does not precede `e` is what
/// `insert_ranked_spec` does.
proof fn lemma_insert_ranked_form(r: Seq<(usize, i64)>, e: (usize, i64), p: int)
    requires
        0 <= p <= r.len(),
        forall|j: int| 0 <= j < p ==> precedes(#[trigger] r[j], e),
        p < r.len() ==> !precedes(r[p], e),
    ensures
        insert_ranked_spec(r, e) == r.take(p) + seq![e] + r.skip(p),
    decreases p,
{
    if p == 0 {
        assert(insert_ranked_spec(r, e) =~= r.take(0) + seq![e] + r.skip(0));
    } else {
        assert(precedes(r[0], e));
        let rest = r.drop_first();
        assert(forall|j: int| 0 <= j < p - 1 ==> precedes(#[trigger] rest[j], e)) by {
            assert(forall|j: int| 0 <= j < p - 1 ==> rest[j] == r[j + 1]);
        }
        lemma_insert_ranked_form(rest, e, p - 1);
        assert(insert_ranked_spec(r, e) =~= r.take(p) + seq![e] + r.skip(p));
    }
}

/// Inserting an entry whose store index is above every present index keeps
/// the view sorted; the result holds exactly the old entries and the new one.
proof fn lemma_insert_ranked_props(r: Seq<(usize, i64)>, e: (usize, i64))
    requires
        ranked_sorted(r),
        forall|j: int| 0 <= j < r.len() ==> (#[trigger] r[j]).0 < e.0,
    ensures
        insert_ranked_spec(r, e).len() == r.len() + 1,
        ranked_sorted(insert_ranked_spec(r, e)),
        forall|j: int| 0 <= j < insert_ranked_spec(r, e).len() ==>
            (r.contains(#[trigger] insert_ranked_spec(r, e)[j]) || insert_ranked_spec(r, e)[j] == e),
    decreases r.len(),
{
    let out = insert_ranked_spec(r, e);
    if r.len() == 0 {
        assert(out =~= seq![e]);
    } else if precedes(r[0], e) {
        let rest = r.drop_first();
        assert(forall|j: int| 0 <= j < rest.len() ==> rest[j] == r[j + 1]);
        lemma_insert_ranked_props(rest, e);
        let inner = insert_ranked_spec(rest, e);
        assert(out =~= seq![r[0]] + inner);
        // The head precedes everything behind it: each later entry is either
        // an old entry of `rest` or `e`, and the head precedes both.
        assert forall|i: int, j: int| 0 <= i < j < out.len() implies precedes(out[i], out[j]) by {
            if i > 0 {
                assert(out[i] == inner[i - 1] && out[j] == inner[j - 1]);
            } else {
                assert(out[j] == inner[j - 1]);
                if inner[j - 1] == e {
                } else {
                    assert(rest.contains(inner[j - 1]));
                    let m = choose|m: int| 0 <= m < rest.len() && rest[m] == inner[j - 1];
                    assert(precedes(r[0], r[m + 1]));
                }
            }
        }
        assert forall|j: int| 0 <= j < out.len() implies (r.contains(out[j]) || out[j] == e) by {
            if j == 0 {
                assert(r[0] == out[0]);
            } else {
                assert(out[j] == inner[j - 1]);
                if inner[j - 1] != e {
                    assert(rest.contains(inner[j - 1]));
                    let m = choose|m: int| 0 <= m < rest.len() && rest[m] == inner[j - 1];
                    assert(r[m + 1] == out[j]);
                }
            }
        }
    } else {
        assert(out =~= seq![e] + r);
        // Not preceding `e` despite a smaller store index forces a strictly
        // smaller score, so `e` precedes the old head and, by sortedness,
        // every old entry.
        assert(r[0].1 < e.1);
        assert forall|i: int, j: int| 0 <= i < j < out.len() implies precedes(out[i], out[j]) by {
            if i == 0 {
                if j > 1 {
                    assert(precedes(r[0], r[j - 1]));
                }
                assert(precedes(e, r[j - 1]));
            }
        }
        assert forall|j: int| 0 <= j < out.len() implies (r.contains(out[j]) || out[j] == e) by {
            if j > 0 {
                assert(r[j - 1] == out[j]);
            }
        }
    }
}

/// The ranked sequence of the first `n` titles is sorted and every entry of
/// it carries a store index below `n` with that title's true score.
pub proof fn lemma_rank_all_props(titles: Seq<Seq<char>>, query: Seq<char>, n: int)
    requires
        0 <= n <= titles.len(),
        titles.len() <= usize::MAX,
    ensures
        ranked_sorted(rank_all_spec(titles, query, n)),
        entries_ok(titles, query, n, rank_all_spec(titles, query, n)),
    decreases n,
{
    if n > 0 {
        lemma_rank_all_props(titles, query, n - 1);
        let prev = rank_all_spec(titles, query, n - 1);
        match skim_score(titles[n - 1], query) {
            Some(s) => {
                let e = ((n - 1) as usize, s);
                assert(forall|j: int| 0 <= j < prev.len() ==> (#[trigger] prev[j]).0 < e.0) by {
                    assert(forall|j: int| 0 <= j < prev.len() ==> entry_ok(titles, query, n - 1, #[trigger] prev[j]));
                }
                lemma_insert_ranked_props(prev, e);
                let out = rank_all_spec(titles, query, n);
                assert(entry_ok(titles, query, n, e));
                assert forall|j: int| 0 <= j < out.len() implies entry_ok(titles, query, n, #[trigger] out[j]) by {
                    if out[j] != e {
                        assert(prev.contains(out[j]));
                        let m = choose|m: int| 0 <= m < prev.len() && prev[m] == out[j];
                        assert(entry_ok(titles, query, n - 1, prev[m]));
                    }
                }
            }
            None => {}
        }
    }
}

/// The truncated ranked view of a whole store is sorted, bounded by `k`, and
/// every entry of it carries a valid store index with that title's score.
pub proof fn lemma_rank_props(titles: Seq<Seq<char>>, query: Seq<char>, k: int)
    requires
        0 <= k,
        titles.len() <= usize::MAX,
    ensures
        ranked_sorted(rank_spec(titles, query, k)),
        entries_ok(titles, query, titles.len() as int, rank_spec(titles, query, k)),
        rank_spec(titles, query, k).len() <= k,
{
    lemma_rank_all_props(titles, query, titles.len() as int);
    let full = rank_all_spec(titles, query, titles.len() as int);
    let r = rank_spec(titles, query, k);
    assert(forall|j: int| 0 <= j < r.len() ==> r[j] == full[j]);
}

/// Ranking is stable: two view entries with equal scores keep their store
/// order, the more recent (lower-indexed) record first.
pub proof fn lemma_rank_stable(titles: Seq<Seq<char>>, query: Seq<char>, k: int, i: int, j: int)
    requires
        0 <= k,
        titles.len() <= usize::MAX,
        0 <= i < j < rank_spec(titles, query, k).len(),
        rank_spec(titles, query, k)[i].1 == rank_spec(titles, query, k)[j].1,
    ensures
        rank_spec(titles, query, k)[i].0 < rank_spec(titles, query, k)[j].0,
{
    lemma_rank_props(titles, query, k);
}

/// Ranking is deterministic, so re-running it over an unchanged store and
/// query yields an identical ordered result.
pub proof fn lemma_rank_deterministic(titles: Seq<Seq<char>>, query: Seq<char>, k: int, r1: Seq<(usize, i64)>, r2: Seq<(usize, i64)>)
    requires
        r1 == rank_spec(titles, query, k),
        r2 == rank_spec(titles, query, k),
    ensures
        r1 == r2,
{
}

/// Inserts `e` into a vector that is kept in ranking order.
fn insert_ranked(v: &mut Vec<(usize, i64)>, e: (usize, i64))
    ensures
        final(v)@ == insert_ranked_spec(old(v)@, e),
{
    let mut p: usize = 0;
    loop
        invariant
            p <= v@.len(),
            v@ == old(v)@,
            forall|j: int| 0 <= j < p ==> precedes(#[trigger] v@[j], e),
        ensures
            p <= v@.len(),
            v@ == old(v)@,
            forall|j: int| 0 <= j < p ==> precedes(#[trigger] v@[j], e),
            p < v@.len() ==> !precedes(v@[p as int], e),
        decreases v@.len() - p,
    {
        if p == v.len() {
            break;
        }
        let cur: (usize, i64) = v[p];
        if !(cur.1 > e.1 || (cur.1 == e.1 && cur.0 < e.0)) {
            break;
        }
        p = p + 1;
    }
    proof {
        lemma_insert_ranked_form(v@, e, p as int);
    }
    let ghost before = v@;
    v.insert(p, e);
    proof {
        assert(v@ =~= before.take(p as int) + seq![e] + before.skip(p as int));
    }
}

/// Ranks every record of the store against the query: matching records are
/// sorted by score descending with store order as the tie-break, records the
/// scorer rejects are left out, and the view is cut to the first `limit`
/// entries.
pub fn rank(records: &Vec<HistoryEntry>, query: &str, limit: usize) -> (r: Vec<(usize, i64)>)
    ensures
        r@ == rank_spec(titles_of(records@), query@, limit as int),
{
    let ghost titles = titles_of(records@);
    let mut ranked: Vec<(usize, i64)> = Vec::new();
    let n = records.len();
    let mut i: usize = 0;
    while i < n
        invariant
            i <= n,
            n == records@.len(),
            titles == titles_of(records@),
            ranked@ == rank_all_spec(titles, query@, i as int),
        decreases n - i,
    {
        let s = fuzzy_score(records[i].title.as_str(), query);
        match s {
            Some(sc) => {
                insert_ranked(&mut ranked, (i, sc));
            }
            None => {}
        }
        i = i + 1;
    }
    if ranked.len() > limit {
        ranked.truncate(limit);
    }
    ranked
}

} // verus!
