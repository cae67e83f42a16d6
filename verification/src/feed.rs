//! A feature's feed, assembled from ledger pages that arrive in either
//! direction: the newest page again on every tick, an older one when
//! the reader pages back. Both merge on `seq`; a newest page that shares
//! nothing with what is held replaces it rather than hiding a gap.
use vstd::prelude::*;

use vstd::multiset::Multiset;

use crate::model::{EventItem, Feed, clone_event};

verus! {

// ---------------------------------------------------------------------
// Newest first
// ---------------------------------------------------------------------

/// `e` placed after every row whose seq is at least its own, before
/// the first one that is older: one step of a stable sort, newest
/// first.
pub open spec fn insert_desc(s: Seq<EventItem>, e: EventItem) -> Seq<EventItem>
    decreases s.len(),
{
    if s.len() == 0 {
        seq![e]
    } else if s[0].seq >= e.seq {
        seq![s[0]] + insert_desc(s.drop_first(), e)
    } else {
        seq![e] + s
    }
}

/// The rows sorted newest first by `seq`; rows with equal seqs keep
/// their order (a stable sort).
pub open spec fn newest_first(s: Seq<EventItem>) -> Seq<EventItem>
    decreases s.len(),
{
    if s.len() == 0 {
        s
    } else {
        insert_desc(newest_first(s.drop_last()), s.last())
    }
}

/// Every row is at least as new as every row after it.
pub open spec fn is_newest_first(s: Seq<EventItem>) -> bool {
    forall|i: int, j: int| 0 <= i < j < s.len() ==> s[i].seq >= s[j].seq
}

/// The place `insert_desc` puts `e`: the first row older than it.
pub open spec fn older_than(e: EventItem) -> spec_fn(EventItem) -> bool {
    |h: EventItem| h.seq < e.seq
}

proof fn lemma_insert_desc_at(s: Seq<EventItem>, e: EventItem, j: int)
    requires
        0 <= j <= s.len(),
        forall|k: int| 0 <= k < j ==> s[k].seq >= e.seq,
        j < s.len() ==> s[j].seq < e.seq,
    ensures
        insert_desc(s, e) == s.insert(j, e),
    decreases s.len(),
{
    if s.len() == 0 {
        assert(s.insert(j, e) =~= seq![e]);
    } else if j == 0 {
        assert(s.insert(0, e) =~= seq![e] + s);
    } else {
        let t = s.drop_first();
        assert forall|k: int| 0 <= k < j - 1 implies t[k].seq >= e.seq by {
            assert(t[k] == s[k + 1]);
        }
        lemma_insert_desc_at(t, e, j - 1);
        assert(s.insert(j, e) =~= seq![s[0]] + t.insert(j - 1, e));
    }
}

proof fn lemma_insert_desc_sorted(s: Seq<EventItem>, e: EventItem)
    requires
        is_newest_first(s),
    ensures
        is_newest_first(insert_desc(s, e)),
        insert_desc(s, e).len() == s.len() + 1,
        forall|x: EventItem| #[trigger] insert_desc(s, e).contains(x) <==> (s.contains(x) || x == e),
    decreases s.len(),
{
    if s.len() > 0 && s[0].seq >= e.seq {
        let t = s.drop_first();
        assert forall|i: int, j: int| 0 <= i < j < t.len() implies t[i].seq >= t[j].seq by {
            assert(t[i] == s[i + 1] && t[j] == s[j + 1]);
        }
        lemma_insert_desc_sorted(t, e);
        let r = insert_desc(s, e);
        let u = insert_desc(t, e);
        assert(r =~= seq![s[0]] + u);
        assert forall|x: EventItem| u.contains(x) implies x.seq <= s[0].seq by {
            if t.contains(x) {
                let k = choose|k: int| 0 <= k < t.len() && t[k] == x;
                assert(t[k] == s[k + 1]);
            }
        }
        assert forall|i: int, j: int| 0 <= i < j < r.len() implies r[i].seq >= r[j].seq by {
            if i == 0 {
                assert(r[j] == u[j - 1]);
                assert(u.contains(u[j - 1]));
            } else {
                assert(r[i] == u[i - 1] && r[j] == u[j - 1]);
            }
        }
        assert forall|x: EventItem| r.contains(x) implies (s.contains(x) || x == e) by {
            let k = choose|k: int| 0 <= k < r.len() && r[k] == x;
            if k == 0 {
                assert(s[0] == x);
            } else {
                assert(u[k - 1] == x);
                assert(u.contains(x));
                if t.contains(x) {
                    let m = choose|m: int| 0 <= m < t.len() && t[m] == x;
                    assert(s[m + 1] == x);
                }
            }
        }
        assert forall|x: EventItem| (s.contains(x) || x == e) implies r.contains(x) by {
            if s.contains(x) {
                let k = choose|k: int| 0 <= k < s.len() && s[k] == x;
                if k > 0 {
                    assert(t[k - 1] == x);
                    assert(t.contains(x));
                    assert(u.contains(x));
                    let m = choose|m: int| 0 <= m < u.len() && u[m] == x;
                    assert(r[m + 1] == x);
                } else {
                    assert(r[0] == x);
                }
            } else {
                assert(u.contains(e));
                let m = choose|m: int| 0 <= m < u.len() && u[m] == e;
                assert(r[m + 1] == e);
            }
        }
    } else {
        let r = insert_desc(s, e);
        assert(r =~= seq![e] + s);
        assert forall|x: EventItem| r.contains(x) <==> (s.contains(x) || x == e) by {
            if r.contains(x) {
                let k = choose|k: int| 0 <= k < r.len() && r[k] == x;
                if k > 0 {
                    assert(s[k - 1] == x);
                }
            }
            if s.contains(x) {
                let k = choose|k: int| 0 <= k < s.len() && s[k] == x;
                assert(r[k + 1] == x);
            }
            if x == e {
                assert(r[0] == e);
            }
        }
        assert forall|i: int, j: int| 0 <= i < j < r.len() implies r[i].seq >= r[j].seq by {
            if i == 0 {
                if s.len() > 0 {
                    assert(r[j] == s[j - 1]);
                    assert(s[0].seq >= s[j - 1].seq || j - 1 == 0);
                }
            } else {
                assert(r[i] == s[i - 1] && r[j] == s[j - 1]);
            }
        }
    }
}

/// Sorting newest first gives rows in that order, and keeps exactly the
/// rows it was given.
pub proof fn lemma_newest_first(s: Seq<EventItem>)
    ensures
        is_newest_first(newest_first(s)),
        newest_first(s).len() == s.len(),
        forall|x: EventItem| #[trigger] newest_first(s).contains(x) <==> s.contains(x),
    decreases s.len(),
{
    if s.len() > 0 {
        let t = s.drop_last();
        lemma_newest_first(t);
        lemma_insert_desc_sorted(newest_first(t), s.last());
        assert forall|x: EventItem| newest_first(s).contains(x) <==> s.contains(x) by {
            if t.contains(x) {
                let k = choose|k: int| 0 <= k < t.len() && t[k] == x;
                assert(s[k] == x);
            }
            if s.contains(x) {
                let k = choose|k: int| 0 <= k < s.len() && s[k] == x;
                if k < s.len() - 1 {
                    assert(t[k] == x);
                }
            }
        }
    }
}

/// The rows sorted newest first, stably.
pub fn sort_newest_first(v: Vec<EventItem>) -> (r: Vec<EventItem>)
    ensures
        r@ == newest_first(v@),
{
    let mut out: Vec<EventItem> = Vec::new();
    let mut rest = v;
    let ghost all = rest@;
    let mut taken: Vec<EventItem> = Vec::new();
    let mut i: usize = 0;
    let n = rest.len();
    // Walk the input front to back by draining it from the back into
    // `taken` first, so each row can be moved rather than copied.
    while rest.len() > 0
        invariant
            rest@ + taken@.reverse() == all,
        decreases rest.len(),
    {
        let ghost before_rest = rest@;
        let ghost before_taken = taken@;
        let e = rest.pop().unwrap();
        taken.push(e);
        assert(rest@ + taken@.reverse() =~= all) by {
            assert(before_rest =~= rest@.push(e));
            assert(taken@.reverse() =~= seq![e] + before_taken.reverse());
        }
    }
    assert(taken@.reverse() =~= all);
    while i < n
        invariant
            n == all.len(),
            i <= n,
            taken@.len() == n - i,
            forall|k: int| 0 <= k < n - i ==> #[trigger] taken@[k] == all[n - 1 - k],
            out@ == newest_first(all.take(i as int)),
        decreases n - i,
    {
        let e = taken.pop().unwrap();
        assert(e == all[i as int]);
        let mut j: usize = 0;
        while j < out.len() && out[j].seq >= e.seq
            invariant
                j <= out@.len(),
                forall|k: int| 0 <= k < j ==> out@[k].seq >= e.seq,
            decreases out.len() - j,
        {
            j = j + 1;
        }
        proof {
            lemma_insert_desc_at(out@, e, j as int);
            assert(all.take(i + 1).drop_last() =~= all.take(i as int));
        }
        out.insert(j, e);
        i = i + 1;
    }
    assert(all.take(n as int) =~= all);
    out
}

// ---------------------------------------------------------------------
// Merging a page
// ---------------------------------------------------------------------

/// Whether a row with this seq is among `s`.
pub open spec fn has_seq(s: Seq<EventItem>, q: i64) -> bool {
    exists|i: int| 0 <= i < s.len() && s[i].seq == q
}

/// The held rows a page does not repeat.
pub open spec fn not_repeated(incoming: Seq<EventItem>) -> spec_fn(EventItem) -> bool {
    |h: EventItem| !has_seq(incoming, h.seq)
}

/// The newest seq of a list as it stands: its first row's.
pub open spec fn newest_seq(s: Seq<EventItem>) -> Option<i64> {
    if s.len() == 0 {
        None
    } else {
        Some(s[0].seq)
    }
}

/// `a >= b` as `Option` orders: nothing below every seq.
pub open spec fn at_least(a: Option<i64>, b: Option<i64>) -> bool {
    match (a, b) {
        (_, None) => true,
        (None, Some(_)) => false,
        (Some(x), Some(y)) => x >= y,
    }
}

/// Whether the page repeats any row held.
pub open spec fn shares_seq(held: Seq<EventItem>, incoming: Seq<EventItem>) -> bool {
    exists|i: int| 0 <= i < incoming.len() && has_seq(held, #[trigger] incoming[i].seq)
}

/// Whether the page is the newest one: it starts at or after what is
/// held.
pub open spec fn is_newest_page(held: Seq<EventItem>, incoming: Seq<EventItem>) -> bool {
    at_least(newest_seq(incoming), newest_seq(held))
}

/// Whether the page is stitched onto what is held: it repeats a row,
/// or it is older. A newest page that repeats nothing stands alone.
pub open spec fn stitches(held: Seq<EventItem>, incoming: Seq<EventItem>) -> bool {
    shares_seq(held, incoming) || !is_newest_page(held, incoming)
}

/// The feed's rows once a page has landed on what is held.
pub open spec fn merged_events(held: Seq<EventItem>, incoming: Seq<EventItem>) -> Seq<EventItem> {
    if stitches(held, incoming) {
        newest_first(held.filter(not_repeated(incoming)) + incoming)
    } else {
        newest_first(incoming)
    }
}

/// Whether the feed is read to its end once a page has landed: paging
/// back says so; a refresh says nothing about it.
pub open spec fn merged_exhausted(
    held: Seq<EventItem>,
    held_exhausted: bool,
    incoming: Seq<EventItem>,
    more: bool,
) -> bool {
    if stitches(held, incoming) && is_newest_page(held, incoming) {
        held_exhausted
    } else {
        !more
    }
}

/// The seqs of a list, in its order.
pub open spec fn seqs_of(s: Seq<EventItem>) -> Seq<i64> {
    s.map_values(|e: EventItem| e.seq)
}

/// Whether a feed differs from what was held, as the screen sees it:
/// its end marker, or the seqs of its rows in order.
pub open spec fn feed_differs(
    held: Seq<EventItem>,
    held_exhausted: bool,
    events: Seq<EventItem>,
    exhausted: bool,
) -> bool {
    held_exhausted != exhausted || seqs_of(held) != seqs_of(events)
}

/// The first page of a feed read: the rows sorted, and the end marker
/// the page carries.
pub fn fresh_feed(incoming: Vec<EventItem>, more: bool) -> (r: Feed)
    ensures
        r.events@ == newest_first(incoming@),
        r.exhausted == !more,
{
    Feed { events: sort_newest_first(incoming), exhausted: !more }
}

fn find_seq(s: &Vec<EventItem>, q: i64) -> (r: bool)
    ensures
        r == has_seq(s@, q),
{
    let mut k: usize = 0;
    while k < s.len()
        invariant
            k <= s@.len(),
            forall|j: int| 0 <= j < k ==> s@[j].seq != q,
        decreases s.len() - k,
    {
        if s[k].seq == q {
            return true;
        }
        k = k + 1;
    }
    false
}

fn kept_rows(held: &Vec<EventItem>, incoming: &Vec<EventItem>) -> (r: Vec<EventItem>)
    ensures
        r@ == held@.filter(not_repeated(incoming@)),
{
    let mut out: Vec<EventItem> = Vec::new();
    let mut i: usize = 0;
    while i < held.len()
        invariant
            i <= held@.len(),
            out@ == held@.take(i as int).filter(not_repeated(incoming@)),
        decreases held.len() - i,
    {
        proof {
            reveal(Seq::filter);
            assert(held@.take(i + 1).drop_last() =~= held@.take(i as int));
        }
        if !find_seq(incoming, held[i].seq) {
            out.push(clone_event(&held[i]));
        }
        i = i + 1;
    }
    assert(held@.take(held.len() as int) =~= held@);
    out
}

fn same_seqs(a: &Vec<EventItem>, b: &Vec<EventItem>) -> (r: bool)
    ensures
        r == (seqs_of(a@) == seqs_of(b@)),
{
    if a.len() != b.len() {
        assert(seqs_of(a@).len() != seqs_of(b@).len());
        return false;
    }
    let mut k: usize = 0;
    while k < a.len()
        invariant
            a.len() == b.len(),
            k <= a@.len(),
            forall|j: int| 0 <= j < k ==> a@[j].seq == b@[j].seq,
        decreases a.len() - k,
    {
        if a[k].seq != b[k].seq {
            assert(seqs_of(a@)[k as int] != seqs_of(b@)[k as int]);
            return false;
        }
        k = k + 1;
    }
    assert(seqs_of(a@) =~= seqs_of(b@));
    true
}

/// Lands a page on the feed held: merged on `seq` when it repeats a row
/// or pages back, standing alone when it is a newest page that repeats
/// nothing. Returns the new feed and whether it differs from the held
/// one.
pub fn merge_page(held: &Feed, incoming: Vec<EventItem>, more: bool) -> (r: (Feed, bool))
    ensures
        r.0.events@ == merged_events(held.events@, incoming@),
        r.0.exhausted == merged_exhausted(held.events@, held.exhausted, incoming@, more),
        r.1 == feed_differs(held.events@, held.exhausted, r.0.events@, r.0.exhausted),
{
    let newest_in: Option<i64> = if incoming.len() > 0 {
        Some(incoming[0].seq)
    } else {
        None
    };
    let newest_held: Option<i64> = if held.events.len() > 0 {
        Some(held.events[0].seq)
    } else {
        None
    };
    let newest_page = match (newest_in, newest_held) {
        (_, None) => true,
        (None, Some(_)) => false,
        (Some(x), Some(y)) => x >= y,
    };
    let mut overlaps = false;
    let mut i: usize = 0;
    while i < incoming.len()
        invariant
            i <= incoming@.len(),
            overlaps == exists|k: int| 0 <= k < i && has_seq(held.events@, #[trigger] incoming@[k].seq),
        decreases incoming.len() - i,
    {
        if find_seq(&held.events, incoming[i].seq) {
            overlaps = true;
        }
        i = i + 1;
    }
    let feed = if overlaps || !newest_page {
        let mut events = kept_rows(&held.events, &incoming);
        let ghost kept = events@;
        let mut rest = incoming;
        events.append(&mut rest);
        assert(events@ =~= kept + incoming@);
        let exhausted = if newest_page {
            held.exhausted
        } else {
            !more
        };
        Feed { events: sort_newest_first(events), exhausted }
    } else {
        fresh_feed(incoming, more)
    };
    let changed = held.exhausted != feed.exhausted || !same_seqs(&held.events, &feed.events);
    (feed, changed)
}

// ---------------------------------------------------------------------
// What landing a page keeps
// ---------------------------------------------------------------------

/// A feed is always newest first, whatever order the page came in.
pub proof fn law_feed_newest_first(held: Seq<EventItem>, incoming: Seq<EventItem>)
    ensures
        is_newest_first(merged_events(held, incoming)),
{
    if stitches(held, incoming) {
        lemma_newest_first(held.filter(not_repeated(incoming)) + incoming);
    } else {
        lemma_newest_first(incoming);
    }
}

/// Merging loses nothing: every row of the page is in the feed, and so
/// is every held row the page does not repeat. Neither is duplicated
/// by the other.
pub proof fn law_merge_keeps_rows(held: Seq<EventItem>, incoming: Seq<EventItem>)
    requires
        stitches(held, incoming),
    ensures
        forall|x: EventItem| incoming.contains(x) ==> merged_events(held, incoming).contains(x),
        forall|x: EventItem|
            held.contains(x) && !has_seq(incoming, x.seq) ==> merged_events(held, incoming).contains(
                x,
            ),
        forall|x: EventItem|
            merged_events(held, incoming).contains(x) ==> incoming.contains(x) || (held.contains(x)
                && !has_seq(incoming, x.seq)),
{
    let kept = held.filter(not_repeated(incoming));
    let all = kept + incoming;
    lemma_newest_first(all);
    assert forall|x: EventItem| incoming.contains(x) implies merged_events(held, incoming).contains(
        x,
    ) by {
        let i = choose|i: int| 0 <= i < incoming.len() && incoming[i] == x;
        assert(all[kept.len() + i] == x);
        assert(all.contains(x));
    }
    assert forall|x: EventItem| held.contains(x) && !has_seq(incoming, x.seq) implies merged_events(
        held,
        incoming,
    ).contains(x) by {
        let h = choose|h: int| 0 <= h < held.len() && held[h] == x;
        held.lemma_filter_contains(not_repeated(incoming), h);
        let i = choose|i: int| 0 <= i < kept.len() && kept[i] == x;
        assert(all[i] == x);
        assert(all.contains(x));
    }
    assert forall|x: EventItem| merged_events(held, incoming).contains(x) implies incoming.contains(
        x,
    ) || (held.contains(x) && !has_seq(incoming, x.seq)) by {
        assert(all.contains(x));
        let i = choose|i: int| 0 <= i < all.len() && all[i] == x;
        if i < kept.len() {
            assert(kept[i] == x);
            held.lemma_filter_pred(not_repeated(incoming), i);
            assert(kept.contains(x));
            held.lemma_filter_contains_rev(not_repeated(incoming), x);
        } else {
            assert(incoming[i - kept.len()] == x);
        }
    }
}

/// No two rows share a seq.
pub open spec fn distinct_seqs(s: Seq<EventItem>) -> bool {
    forall|i: int, j: int| 0 <= i < j < s.len() ==> (#[trigger] s[i]).seq != (#[trigger] s[j]).seq
}

/// Every row is strictly newer than every row after it: newest first,
/// with no seq twice.
pub open spec fn strictly_newest_first(s: Seq<EventItem>) -> bool {
    forall|i: int, j: int| 0 <= i < j < s.len() ==> (#[trigger] s[i]).seq > (#[trigger] s[j]).seq
}

proof fn lemma_insert_desc_distinct(s: Seq<EventItem>, e: EventItem)
    requires
        distinct_seqs(s),
        !has_seq(s, e.seq),
    ensures
        distinct_seqs(insert_desc(s, e)),
        forall|q: i64| has_seq(insert_desc(s, e), q) <==> (has_seq(s, q) || q == e.seq),
    decreases s.len(),
{
    let r = insert_desc(s, e);
    if s.len() > 0 && s[0].seq >= e.seq {
        let t = s.drop_first();
        assert forall|i: int, j: int| 0 <= i < j < t.len() implies (#[trigger] t[i]).seq != (#[trigger] t[j]).seq by {
            assert(t[i] == s[i + 1] && t[j] == s[j + 1]);
        }
        assert(!has_seq(t, e.seq)) by {
            if has_seq(t, e.seq) {
                let k = choose|k: int| 0 <= k < t.len() && t[k].seq == e.seq;
                assert(s[k + 1].seq == e.seq);
            }
        }
        lemma_insert_desc_distinct(t, e);
        let u = insert_desc(t, e);
        assert(r =~= seq![s[0]] + u);
        assert(!has_seq(u, s[0].seq)) by {
            if has_seq(u, s[0].seq) {
                if has_seq(t, s[0].seq) {
                    let k = choose|k: int| 0 <= k < t.len() && t[k].seq == s[0].seq;
                    assert(s[k + 1].seq == s[0].seq);
                    assert(s[0].seq != s[k + 1].seq);
                } else {
                    assert(s[0].seq == e.seq);
                    assert(has_seq(s, e.seq));
                }
            }
        }
        assert forall|i: int, j: int| 0 <= i < j < r.len() implies (#[trigger] r[i]).seq != (#[trigger] r[j]).seq by {
            if i == 0 {
                assert(r[j] == u[j - 1]);
                if r[j].seq == s[0].seq {
                    assert(has_seq(u, s[0].seq));
                }
            } else {
                assert(r[i] == u[i - 1] && r[j] == u[j - 1]);
            }
        }
        assert forall|q: i64| has_seq(r, q) <==> (has_seq(s, q) || q == e.seq) by {
            if has_seq(r, q) {
                let k = choose|k: int| 0 <= k < r.len() && r[k].seq == q;
                if k == 0 {
                    assert(s[0].seq == q);
                } else {
                    assert(u[k - 1].seq == q);
                    assert(has_seq(u, q));
                    if has_seq(t, q) {
                        let m = choose|m: int| 0 <= m < t.len() && t[m].seq == q;
                        assert(s[m + 1].seq == q);
                    }
                }
            }
            if has_seq(s, q) {
                let k = choose|k: int| 0 <= k < s.len() && s[k].seq == q;
                if k == 0 {
                    assert(r[0].seq == q);
                } else {
                    assert(t[k - 1].seq == q);
                    assert(has_seq(t, q));
                    assert(has_seq(u, q));
                    let m = choose|m: int| 0 <= m < u.len() && u[m].seq == q;
                    assert(r[m + 1].seq == q);
                }
            }
            if q == e.seq {
                assert(has_seq(u, q));
                let m = choose|m: int| 0 <= m < u.len() && u[m].seq == q;
                assert(r[m + 1].seq == q);
            }
        }
    } else {
        assert(r =~= seq![e] + s);
        assert forall|i: int, j: int| 0 <= i < j < r.len() implies (#[trigger] r[i]).seq != (#[trigger] r[j]).seq by {
            if i == 0 {
                assert(r[j] == s[j - 1]);
            } else {
                assert(r[i] == s[i - 1] && r[j] == s[j - 1]);
            }
        }
        assert forall|q: i64| has_seq(r, q) <==> (has_seq(s, q) || q == e.seq) by {
            if has_seq(r, q) {
                let k = choose|k: int| 0 <= k < r.len() && r[k].seq == q;
                if k > 0 {
                    assert(s[k - 1].seq == q);
                }
            }
            if has_seq(s, q) {
                let k = choose|k: int| 0 <= k < s.len() && s[k].seq == q;
                assert(r[k + 1].seq == q);
            }
            if q == e.seq {
                assert(r[0].seq == q);
            }
        }
    }
}

proof fn lemma_newest_first_distinct(s: Seq<EventItem>)
    requires
        distinct_seqs(s),
    ensures
        distinct_seqs(newest_first(s)),
        forall|q: i64| has_seq(newest_first(s), q) <==> has_seq(s, q),
    decreases s.len(),
{
    if s.len() > 0 {
        let t = s.drop_last();
        assert forall|i: int, j: int| 0 <= i < j < t.len() implies (#[trigger] t[i]).seq != (#[trigger] t[j]).seq by {
            assert(t[i] == s[i] && t[j] == s[j]);
        }
        lemma_newest_first_distinct(t);
        assert(!has_seq(t, s.last().seq)) by {
            if has_seq(t, s.last().seq) {
                let k = choose|k: int| 0 <= k < t.len() && t[k].seq == s.last().seq;
                assert(s[k].seq == s[s.len() - 1].seq);
            }
        }
        lemma_insert_desc_distinct(newest_first(t), s.last());
        assert forall|q: i64| has_seq(newest_first(s), q) <==> has_seq(s, q) by {
            if has_seq(t, q) {
                let k = choose|k: int| 0 <= k < t.len() && t[k].seq == q;
                assert(s[k].seq == q);
            }
            if has_seq(s, q) {
                let k = choose|k: int| 0 <= k < s.len() && s[k].seq == q;
                if k < s.len() - 1 {
                    assert(t[k].seq == q);
                }
            }
        }
    }
}

/// Leaving rows out keeps a strict order.
proof fn lemma_filter_strict(s: Seq<EventItem>, p: spec_fn(EventItem) -> bool)
    requires
        strictly_newest_first(s),
    ensures
        strictly_newest_first(s.filter(p)),
    decreases s.len(),
{
    reveal(Seq::filter);
    if s.len() > 0 {
        let t = s.drop_last();
        assert forall|i: int, j: int| 0 <= i < j < t.len() implies (#[trigger] t[i]).seq > (#[trigger] t[j]).seq by {
            assert(t[i] == s[i] && t[j] == s[j]);
        }
        lemma_filter_strict(t, p);
        let f = t.filter(p);
        if p(s.last()) {
            let g = f.push(s.last());
            assert(s.filter(p) == g);
            assert forall|i: int, j: int| 0 <= i < j < g.len() implies (#[trigger] g[i]).seq > (#[trigger] g[j]).seq by {
                if j == f.len() {
                    assert(f.contains(f[i]));
                    t.lemma_filter_contains_rev(p, f[i]);
                    let k = choose|k: int| 0 <= k < t.len() && t[k] == f[i];
                    assert(s[k] == f[i]);
                    assert(s[k].seq > s[s.len() - 1].seq);
                } else {
                    assert(g[i] == f[i] && g[j] == f[j]);
                }
            }
        } else {
            assert(s.filter(p) == f);
        }
    }
}

/// A feed held strictly newest first stays so when a page whose rows
/// carry distinct seqs lands on it: no seq is ever stored twice.
pub proof fn law_no_seq_twice(held: Seq<EventItem>, incoming: Seq<EventItem>)
    requires
        strictly_newest_first(held),
        distinct_seqs(incoming),
    ensures
        strictly_newest_first(merged_events(held, incoming)),
{
    law_feed_newest_first(held, incoming);
    let all = if stitches(held, incoming) {
        held.filter(not_repeated(incoming)) + incoming
    } else {
        incoming
    };
    if stitches(held, incoming) {
        let kept = held.filter(not_repeated(incoming));
        lemma_filter_strict(held, not_repeated(incoming));
        assert forall|i: int, j: int| 0 <= i < j < all.len() implies (#[trigger] all[i]).seq != (#[trigger] all[j]).seq by {
            if j < kept.len() {
                assert(all[i] == kept[i] && all[j] == kept[j]);
            } else if i >= kept.len() {
                assert(all[i] == incoming[i - kept.len()] && all[j] == incoming[j - kept.len()]);
            } else {
                assert(all[i] == kept[i]);
                assert(all[j] == incoming[j - kept.len()]);
                held.lemma_filter_pred(not_repeated(incoming), i);
                if all[i].seq == all[j].seq {
                    assert(has_seq(incoming, kept[i].seq));
                }
            }
        }
    }
    assert(distinct_seqs(all));
    lemma_newest_first_distinct(all);
    let m = merged_events(held, incoming);
    assert(m == newest_first(all));
    assert forall|i: int, j: int| 0 <= i < j < m.len() implies (#[trigger] m[i]).seq > (#[trigger] m[j]).seq by {
        assert(m[i].seq >= m[j].seq);
        assert(m[i].seq != m[j].seq);
    }
}

/// A newest page that repeats nothing held replaces the feed: more
/// landed since the last read than fit in a page, and stitching the two
/// together would hide a gap. The feed then has older history to page
/// to exactly when the page says so.
pub proof fn law_gap_replaces(
    held: Seq<EventItem>,
    held_exhausted: bool,
    incoming: Seq<EventItem>,
    more: bool,
)
    requires
        !shares_seq(held, incoming),
        is_newest_page(held, incoming),
    ensures
        merged_events(held, incoming) == newest_first(incoming),
        merged_exhausted(held, held_exhausted, incoming, more) == !more,
{
}

/// The end marker: paging back says whether the end was reached; a
/// refresh stitched onto the feed leaves it as it was, so a later
/// refresh never un-exhausts a fully read feed.
pub proof fn law_end_marker(
    held: Seq<EventItem>,
    held_exhausted: bool,
    incoming: Seq<EventItem>,
    more: bool,
)
    ensures
        !is_newest_page(held, incoming) ==> merged_exhausted(held, held_exhausted, incoming, more)
            == !more,
        stitches(held, incoming) && is_newest_page(held, incoming) ==> merged_exhausted(
            held,
            held_exhausted,
            incoming,
            more,
        ) == held_exhausted,
{
}

// ---------------------------------------------------------------------
// The same page twice
// ---------------------------------------------------------------------

/// The seqs of a list, counted.
pub open spec fn seq_bag(s: Seq<EventItem>) -> Multiset<i64> {
    seqs_of(s).to_multiset()
}

/// Newer-or-equal, the order a feed's seqs run in.
pub open spec fn newer_or_same() -> spec_fn(i64, i64) -> bool {
    |a: i64, b: i64| a >= b
}

proof fn lemma_bag_push(s: Seq<EventItem>, e: EventItem)
    ensures
        seq_bag(s.push(e)) == seq_bag(s).insert(e.seq),
{
    broadcast use vstd::seq_lib::group_to_multiset_ensures;

    assert(seqs_of(s.push(e)) =~= seqs_of(s).push(e.seq));
}

proof fn lemma_bag_add(a: Seq<EventItem>, b: Seq<EventItem>)
    ensures
        seq_bag(a + b) == seq_bag(a).add(seq_bag(b)),
{
    assert(seqs_of(a + b) =~= seqs_of(a) + seqs_of(b));
    vstd::seq_lib::lemma_multiset_commutative(seqs_of(a), seqs_of(b));
}

proof fn lemma_bag_insert_desc(s: Seq<EventItem>, e: EventItem)
    ensures
        seq_bag(insert_desc(s, e)) == seq_bag(s).insert(e.seq),
{
    broadcast use vstd::seq_lib::group_to_multiset_ensures;

    crate::seqs::lemma_first_is_first(s, older_than(e));
    let j = match first_where_older(s, e) {
        Some(j) => j,
        None => s.len() as int,
    };
    assert forall|k: int| 0 <= k < j implies s[k].seq >= e.seq by {
        if !(s[k].seq >= e.seq) {
            assert(older_than(e)(s[k]));
        }
    }
    lemma_insert_desc_at(s, e, j);
    assert(seqs_of(s.insert(j, e)) =~= seqs_of(s).insert(j, e.seq));
}

/// The first row older than `e`.
spec fn first_where_older(s: Seq<EventItem>, e: EventItem) -> Option<int> {
    crate::seqs::first_where(s, older_than(e))
}

proof fn lemma_bag_newest_first(s: Seq<EventItem>)
    ensures
        seq_bag(newest_first(s)) == seq_bag(s),
    decreases s.len(),
{
    if s.len() > 0 {
        lemma_bag_newest_first(s.drop_last());
        lemma_bag_insert_desc(newest_first(s.drop_last()), s.last());
        lemma_bag_push(s.drop_last(), s.last());
        assert(s.drop_last().push(s.last()) =~= s);
    } else {
        assert(newest_first(s) == s);
    }
}

proof fn lemma_bag_filter(x: Seq<EventItem>, inc: Seq<EventItem>, v: i64)
    ensures
        seq_bag(x.filter(not_repeated(inc))).count(v) == (if has_seq(inc, v) {
            0
        } else {
            seq_bag(x).count(v)
        }),
    decreases x.len(),
{
    broadcast use vstd::multiset::group_multiset_axioms;
    broadcast use vstd::seq_lib::group_to_multiset_ensures;

    reveal(Seq::filter);
    let p = not_repeated(inc);
    if x.len() == 0 {
        assert(seqs_of(x) =~= Seq::<i64>::empty());
        assert(x.filter(p) =~= x);
        assert(seq_bag(x) =~= Multiset::<i64>::empty());
    } else {
        let rest = x.drop_last();
        let l = x.last();
        lemma_bag_filter(rest, inc, v);
        lemma_bag_push(rest, l);
        assert(rest.push(l) =~= x);
        assert(seq_bag(x).count(v) == seq_bag(rest).count(v) + if l.seq == v {
            1int
        } else {
            0int
        });
        if p(l) {
            assert(x.filter(p) == rest.filter(p).push(l));
            lemma_bag_push(rest.filter(p), l);
            assert(!has_seq(inc, l.seq));
        } else {
            assert(x.filter(p) == rest.filter(p));
            assert(has_seq(inc, l.seq));
        }
    }
}

proof fn lemma_bag_absent(k: Seq<EventItem>, v: i64)
    requires
        forall|i: int| 0 <= i < k.len() ==> k[i].seq != v,
    ensures
        seq_bag(k).count(v) == 0,
{
    broadcast use vstd::seq_lib::group_to_multiset_ensures;

    if seqs_of(k).contains(v) {
        let i = choose|i: int| 0 <= i < seqs_of(k).len() && seqs_of(k)[i] == v;
        assert(k[i].seq == v);
    }
}

proof fn lemma_sorted_seqs(s: Seq<EventItem>)
    requires
        is_newest_first(s),
    ensures
        vstd::relations::sorted_by(seqs_of(s), newer_or_same()),
{
}

proof fn lemma_newer_or_same_total()
    ensures
        vstd::relations::total_ordering(newer_or_same()),
{
}

proof fn lemma_same_seqs_when_same_bag(a: Seq<EventItem>, b: Seq<EventItem>)
    requires
        is_newest_first(a),
        is_newest_first(b),
        seq_bag(a) == seq_bag(b),
    ensures
        seqs_of(a) == seqs_of(b),
{
    lemma_sorted_seqs(a);
    lemma_sorted_seqs(b);
    lemma_newer_or_same_total();
    vstd::seq_lib::lemma_sorted_unique(seqs_of(a), seqs_of(b), newer_or_same());
}

/// The page's rows, counted, and where its seqs match another page's.
proof fn lemma_has_seq_same(inc: Seq<EventItem>, inc2: Seq<EventItem>, v: i64)
    requires
        seqs_of(inc2) == seqs_of(inc),
    ensures
        has_seq(inc2, v) == has_seq(inc, v),
{
    assert(seqs_of(inc2).len() == inc2.len());
    assert(seqs_of(inc).len() == inc.len());
    assert(inc2.len() == inc.len());
    if has_seq(inc, v) {
        let i = choose|i: int| 0 <= i < inc.len() && inc[i].seq == v;
        assert(seqs_of(inc)[i] == inc[i].seq);
        assert(seqs_of(inc2)[i] == inc2[i].seq);
        assert(inc2[i].seq == v);
    }
    if has_seq(inc2, v) {
        let i = choose|i: int| 0 <= i < inc2.len() && inc2[i].seq == v;
        assert(seqs_of(inc)[i] == inc[i].seq);
        assert(seqs_of(inc2)[i] == inc2[i].seq);
        assert(inc[i].seq == v);
    }
}

/// The second landing of a page that repeats `inc`'s seqs on a feed that
/// is `newest_first(kept + inc)`, where nothing kept has a seq of the
/// page: the rows come out with the same seqs, in the same order.
proof fn lemma_relanding(kept: Seq<EventItem>, inc: Seq<EventItem>, inc2: Seq<EventItem>)
    requires
        forall|i: int| 0 <= i < kept.len() ==> !has_seq(inc, #[trigger] kept[i].seq),
        seqs_of(inc2) == seqs_of(inc),
    ensures
        ({
            let r = newest_first(kept + inc);
            seqs_of(newest_first(r.filter(not_repeated(inc2)) + inc2)) == seqs_of(r)
        }),
{
    broadcast use vstd::multiset::group_multiset_axioms;

    let r = newest_first(kept + inc);
    let again = r.filter(not_repeated(inc2)) + inc2;
    lemma_bag_newest_first(kept + inc);
    lemma_bag_add(kept, inc);
    lemma_bag_add(r.filter(not_repeated(inc2)), inc2);
    assert(seq_bag(inc2) == seq_bag(inc));
    assert forall|v: i64| #[trigger] seq_bag(again).count(v) == seq_bag(r).count(v) by {
        lemma_bag_filter(r, inc2, v);
        lemma_has_seq_same(inc, inc2, v);
        if has_seq(inc, v) {
            assert forall|i: int| 0 <= i < kept.len() implies kept[i].seq != v by {
                assert(!has_seq(inc, kept[i].seq));
            }
            lemma_bag_absent(kept, v);
        } else {
            let w = v;
            if seq_bag(inc).count(w) > 0 {
                broadcast use vstd::seq_lib::group_to_multiset_ensures;

                assert(seqs_of(inc).contains(w));
                let i = choose|i: int| 0 <= i < seqs_of(inc).len() && seqs_of(inc)[i] == w;
                assert(inc[i].seq == w);
            }
        }
    }
    assert(seq_bag(again) =~= seq_bag(r));
    lemma_bag_newest_first(again);
    lemma_newest_first(again);
    lemma_newest_first(kept + inc);
    lemma_same_seqs_when_same_bag(newest_first(again), r);
}

/// Landing the same page twice changes nothing the second time: a
/// refresh that returns what the last one did wakes nobody. The page
/// is taken newest first, as the server sends it, and the feed held
/// is one this module built.
pub proof fn law_same_page_twice(
    held: Option<(Seq<EventItem>, bool)>,
    inc: Seq<EventItem>,
    inc2: Seq<EventItem>,
    more: bool,
)
    requires
        held matches Some(h) ==> is_newest_first(h.0),
        is_newest_first(inc),
        seqs_of(inc2) == seqs_of(inc),
    ensures
        ({
            let (events, exhausted) = match held {
                Some(h) => (merged_events(h.0, inc), merged_exhausted(h.0, h.1, inc, more)),
                None => (newest_first(inc), !more),
            };
            !feed_differs(
                events,
                exhausted,
                merged_events(events, inc2),
                merged_exhausted(events, exhausted, inc2, more),
            )
        }),
{
    let (events, exhausted) = match held {
        Some(h) => (merged_events(h.0, inc), merged_exhausted(h.0, h.1, inc, more)),
        None => (newest_first(inc), !more),
    };
    let kept = match held {
        Some(h) => if stitches(h.0, inc) {
            h.0.filter(not_repeated(inc))
        } else {
            Seq::<EventItem>::empty()
        },
        None => Seq::<EventItem>::empty(),
    };
    assert(Seq::<EventItem>::empty() + inc =~= inc);
    assert(events == newest_first(kept + inc));
    assert forall|i: int| 0 <= i < kept.len() implies !has_seq(inc, #[trigger] kept[i].seq) by {
        if let Some(h) = held {
            h.0.lemma_filter_pred(not_repeated(inc), i);
        }
    }
    lemma_newest_first(kept + inc);
    lemma_relanding(kept, inc, inc2);
    if inc.len() > 0 {
        // The page repeats its own first row, which is now held.
        assert((kept + inc)[kept.len() as int] == inc[0]);
        assert((kept + inc).contains(inc[0]));
        assert(events.contains(inc[0]));
        let j = choose|j: int| 0 <= j < events.len() && events[j] == inc[0];
        assert(seqs_of(inc2).len() == inc2.len());
        assert(seqs_of(inc).len() == inc.len());
        assert(seqs_of(inc2)[0] == seqs_of(inc)[0]);
        assert(seqs_of(inc)[0] == inc[0].seq);
        assert(seqs_of(inc2)[0] == inc2[0].seq);
        assert(events[j].seq == inc2[0].seq);
        assert(has_seq(events, inc2[0].seq));
        assert(shares_seq(events, inc2));
        // The held feed's newest row is the page's first one, unless the
        // page was older than the feed.
        assert(events.contains(events[0]));
        assert((kept + inc).contains(events[0]));
        let m = choose|m: int| 0 <= m < (kept + inc).len() && (kept + inc)[m] == events[0];
        if is_newest_page(events, inc2) {
        } else {
            if let Some(h) = held {
                if stitches(h.0, inc) && is_newest_page(h.0, inc) {
                    if m < kept.len() {
                        assert(kept.contains(kept[m]));
                        h.0.lemma_filter_contains_rev(not_repeated(inc), kept[m]);
                        let q = choose|q: int| 0 <= q < h.0.len() && h.0[q] == kept[m];
                        assert(h.0[0].seq >= h.0[q].seq || q == 0);
                    } else {
                        assert(inc[0].seq >= inc[m - kept.len()].seq || m - kept.len() == 0);
                    }
                    assert(events[0].seq >= events[j].seq || j == 0);
                }
            }
        }
    } else {
        assert(seqs_of(inc2).len() == inc2.len());
        assert(seqs_of(inc).len() == inc.len());
        assert(inc2 =~= inc);
        if events.len() > 0 {
            if let Some(h) = held {
                if !stitches(h.0, inc) {
                    assert(newest_first(inc).len() == 0);
                }
            } else {
                assert(newest_first(inc).len() == 0);
            }
        } else {
            assert(newest_first(Seq::<EventItem>::empty()) == Seq::<EventItem>::empty());
            if let Some(h) = held {
                if stitches(h.0, inc) {
                    assert(h.0.len() > 0);
                    assert(!has_seq(inc, h.0[0].seq));
                    h.0.lemma_filter_contains(not_repeated(inc), 0);
                    assert(kept.len() > 0);
                }
            }
        }
    }
}

} // verus!
