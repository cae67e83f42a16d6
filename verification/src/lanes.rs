//! The lanes of the graph's edges. In each gap between two columns the
//! hops into one node share a vertical lane (a trunk); the trunks start
//! in the order of their targets' heights, then each is placed where it
//! adds the fewest crossings against those already placed.
use vstd::prelude::*;

use crate::graph::{GraphLayout, Link, Node, node_h};

verus! {

/// Where one hop leaves its source: the source's centre height.
#[derive(Debug, PartialEq, Eq)]
pub struct Stub {
    pub y: u128,
    pub link: Link,
}

/// Every hop into one node of the next column, sharing a lane.
#[derive(Debug, PartialEq, Eq)]
pub struct Trunk {
    /// The node the hops go into.
    pub to: usize,
    /// Its centre height.
    pub yt: u128,
    pub stubs: Vec<Stub>,
}

/// A node's centre height.
pub open spec fn node_mid(n: Node) -> int {
    n.y + node_h(n) / 2
}

/// The trunk's highest point: its target or a source, whichever is
/// higher on the canvas.
pub open spec fn top_of(yt: int, stubs: Seq<Stub>) -> int
    decreases stubs.len(),
{
    if stubs.len() == 0 {
        yt
    } else {
        let t = top_of(yt, stubs.drop_last());
        if stubs.last().y < t {
            stubs.last().y as int
        } else {
            t
        }
    }
}

/// The trunk's lowest point.
pub open spec fn bottom_of(yt: int, stubs: Seq<Stub>) -> int
    decreases stubs.len(),
{
    if stubs.len() == 0 {
        yt
    } else {
        let b = bottom_of(yt, stubs.drop_last());
        if stubs.last().y > b {
            stubs.last().y as int
        } else {
            b
        }
    }
}

/// Whether a horizontal run at height `y` crosses the trunk's vertical:
/// strictly between its ends.
pub open spec fn spans(t: Trunk, y: int) -> bool {
    top_of(t.yt as int, t.stubs@) < y < bottom_of(t.yt as int, t.stubs@)
}

/// How many of the stubs cross `a`'s vertical.
pub open spec fn crossed(a: Trunk, stubs: Seq<Stub>) -> int
    decreases stubs.len(),
{
    if stubs.len() == 0 {
        0
    } else {
        crossed(a, stubs.drop_last()) + if spans(a, stubs.last().y as int) {
            1int
        } else {
            0
        }
    }
}

/// Crossings from putting `a`'s lane left of `b`'s: `a`'s run into its
/// target crosses `b`'s vertical when it passes through it, and each of
/// `b`'s stubs crosses `a`'s vertical when it passes through that.
pub open spec fn cost(a: Trunk, b: Trunk) -> int {
    (if spans(b, a.yt as int) {
        1int
    } else {
        0
    }) + crossed(a, b.stubs@)
}

/// The crossings `t` adds against the trunks left of place `at`.
pub open spec fn left_cost(placed: Seq<Trunk>, t: Trunk, at: int) -> int
    decreases at,
{
    if at <= 0 {
        0
    } else {
        left_cost(placed, t, at - 1) + cost(placed[at - 1], t)
    }
}

/// The crossings `t` adds against the trunks from place `at` on.
pub open spec fn right_cost(placed: Seq<Trunk>, t: Trunk, at: int) -> int
    decreases placed.len() - at,
{
    if at >= placed.len() {
        0
    } else {
        cost(t, placed[at]) + right_cost(placed, t, at + 1)
    }
}

/// The crossings `t` adds when it goes in at place `at`.
pub open spec fn insert_cost(placed: Seq<Trunk>, t: Trunk, at: int) -> int {
    left_cost(placed, t, at) + right_cost(placed, t, at)
}

/// Among places `0..=k`, the first of least cost.
pub open spec fn first_min(placed: Seq<Trunk>, t: Trunk, k: int) -> int
    decreases k,
{
    if k <= 0 {
        0
    } else {
        let b = first_min(placed, t, k - 1);
        if insert_cost(placed, t, k) < insert_cost(placed, t, b) {
            k
        } else {
            b
        }
    }
}

/// Each trunk in turn goes in at the first place of least cost.
pub open spec fn greedy(placed: Seq<Trunk>, rest: Seq<Trunk>) -> Seq<Trunk>
    decreases rest.len(),
{
    if rest.len() == 0 {
        placed
    } else {
        let at = first_min(placed, rest[0], placed.len() as int);
        greedy(placed.insert(at, rest[0]), rest.drop_first())
    }
}

/// The place after every trunk no lower than `y`, in a list ordered by
/// target height.
pub open spec fn after_le(s: Seq<Trunk>, y: int) -> int
    decreases s.len(),
{
    if s.len() == 0 {
        0
    } else if s[0].yt > y {
        0
    } else {
        1 + after_le(s.drop_first(), y)
    }
}

/// The trunks ordered by target height, equal heights in their first
/// order.
pub open spec fn by_height(s: Seq<Trunk>) -> Seq<Trunk>
    decreases s.len(),
{
    if s.len() == 0 {
        s
    } else {
        let sorted = by_height(s.drop_last());
        sorted.insert(after_le(sorted, s.last().yt as int), s.last())
    }
}

/// The lane order of one gap: by target height, then each trunk where
/// it adds the fewest crossings against those already placed.
pub open spec fn lanes(trunks: Seq<Trunk>) -> Seq<Trunk> {
    greedy(Seq::empty(), by_height(trunks))
}

/// A list's stubs and trunks together.
pub open spec fn weight(ts: Seq<Trunk>) -> int
    decreases ts.len(),
{
    if ts.len() == 0 {
        0
    } else {
        1 + ts[0].stubs@.len() + weight(ts.drop_first())
    }
}

/// The bound a gap's trunks keep: far below what memory can hold of
/// them, since a link alone takes more than one byte.
pub open spec fn small(ts: Seq<Trunk>) -> bool {
    weight(ts) <= 0x4000_0000_0000_0000
}

// ---------------------------------------------------------------------
// Costs
// ---------------------------------------------------------------------

proof fn lemma_ends(yt: int, stubs: Seq<Stub>)
    ensures
        top_of(yt, stubs) <= yt <= bottom_of(yt, stubs),
        0 <= yt ==> 0 <= top_of(yt, stubs),
    decreases stubs.len(),
{
    if stubs.len() > 0 {
        lemma_ends(yt, stubs.drop_last());
    }
}

fn top(t: &Trunk) -> (r: u128)
    ensures
        r == top_of(t.yt as int, t.stubs@),
{
    let mut m = t.yt;
    let mut k: usize = 0;
    while k < t.stubs.len()
        invariant
            k <= t.stubs@.len(),
            m == top_of(t.yt as int, t.stubs@.take(k as int)),
        decreases t.stubs.len() - k,
    {
        assert(t.stubs@.take(k as int + 1).drop_last() =~= t.stubs@.take(k as int));
        if t.stubs[k].y < m {
            m = t.stubs[k].y;
        }
        k = k + 1;
    }
    assert(t.stubs@.take(k as int) =~= t.stubs@);
    m
}

fn bottom(t: &Trunk) -> (r: u128)
    ensures
        r == bottom_of(t.yt as int, t.stubs@),
{
    let mut m = t.yt;
    let mut k: usize = 0;
    while k < t.stubs.len()
        invariant
            k <= t.stubs@.len(),
            m == bottom_of(t.yt as int, t.stubs@.take(k as int)),
        decreases t.stubs.len() - k,
    {
        assert(t.stubs@.take(k as int + 1).drop_last() =~= t.stubs@.take(k as int));
        if t.stubs[k].y > m {
            m = t.stubs[k].y;
        }
        k = k + 1;
    }
    assert(t.stubs@.take(k as int) =~= t.stubs@);
    m
}

proof fn lemma_crossed_bound(a: Trunk, stubs: Seq<Stub>)
    ensures
        0 <= crossed(a, stubs) <= stubs.len(),
    decreases stubs.len(),
{
    if stubs.len() > 0 {
        lemma_crossed_bound(a, stubs.drop_last());
    }
}

/// The crossings from putting `a`'s lane left of `b`'s.
fn trunk_cost(a: &Trunk, b: &Trunk) -> (r: u128)
    ensures
        r == cost(*a, *b),
        r <= 1 + b.stubs@.len(),
{
    let (at, ab) = (top(a), bottom(a));
    let (bt, bb) = (top(b), bottom(b));
    let mut c: u128 = if bt < a.yt && a.yt < bb {
        1
    } else {
        0
    };
    let mut k: usize = 0;
    while k < b.stubs.len()
        invariant
            k <= b.stubs@.len(),
            at == top_of(a.yt as int, a.stubs@),
            ab == bottom_of(a.yt as int, a.stubs@),
            c == (if spans(*b, a.yt as int) {
                1int
            } else {
                0
            }) + crossed(*a, b.stubs@.take(k as int)),
            c <= 1 + k,
        decreases b.stubs.len() - k,
    {
        assert(b.stubs@.take(k as int + 1).drop_last() =~= b.stubs@.take(k as int));
        let y = b.stubs[k].y;
        if at < y && y < ab {
            c = c + 1;
        }
        k = k + 1;
    }
    assert(b.stubs@.take(k as int) =~= b.stubs@);
    c
}

// ---------------------------------------------------------------------
// Weights
// ---------------------------------------------------------------------

proof fn lemma_weight_insert(s: Seq<Trunk>, i: int, x: Trunk)
    requires
        0 <= i <= s.len(),
    ensures
        weight(s.insert(i, x)) == weight(s) + 1 + x.stubs@.len(),
    decreases i,
{
    if i == 0 {
        assert(s.insert(0, x).drop_first() =~= s);
    } else {
        lemma_weight_insert(s.drop_first(), i - 1, x);
        assert(s.insert(i, x).drop_first() =~= s.drop_first().insert(i - 1, x));
        assert(s.insert(i, x)[0] == s[0]);
    }
}

proof fn lemma_weight_nonneg(s: Seq<Trunk>)
    ensures
        weight(s) >= s.len(),
    decreases s.len(),
{
    if s.len() > 0 {
        lemma_weight_nonneg(s.drop_first());
    }
}

proof fn lemma_weight_last(s: Seq<Trunk>)
    requires
        s.len() > 0,
    ensures
        weight(s) == weight(s.drop_last()) + 1 + s.last().stubs@.len(),
{
    lemma_weight_insert(s.drop_last(), s.len() - 1, s.last());
    assert(s.drop_last().insert(s.len() - 1, s.last()) =~= s);
}

proof fn lemma_weight_skip(s: Seq<Trunk>, at: int)
    requires
        0 <= at <= s.len(),
    ensures
        weight(s.skip(at)) <= weight(s),
    decreases at,
{
    if at > 0 {
        lemma_weight_skip(s.drop_first(), at - 1);
        assert(s.drop_first().skip(at - 1) =~= s.skip(at));
        lemma_weight_nonneg(s.drop_first());
    } else {
        assert(s.skip(0) =~= s);
    }
}

proof fn lemma_by_height_weight(s: Seq<Trunk>)
    ensures
        weight(by_height(s)) == weight(s),
        by_height(s).len() == s.len(),
    decreases s.len(),
{
    if s.len() > 0 {
        lemma_by_height_weight(s.drop_last());
        let sorted = by_height(s.drop_last());
        lemma_after_le_bound(sorted, s.last().yt as int);
        lemma_weight_insert(sorted, after_le(sorted, s.last().yt as int), s.last());
        lemma_weight_last(s);
    }
}

proof fn lemma_after_le_bound(s: Seq<Trunk>, y: int)
    ensures
        0 <= after_le(s, y) <= s.len(),
    decreases s.len(),
{
    if s.len() > 0 {
        lemma_after_le_bound(s.drop_first(), y);
    }
}

proof fn lemma_left_bound(placed: Seq<Trunk>, t: Trunk, at: int)
    requires
        0 <= at <= placed.len(),
    ensures
        0 <= left_cost(placed, t, at) <= at * (1 + t.stubs@.len()),
    decreases at,
{
    if at > 0 {
        lemma_left_bound(placed, t, at - 1);
        lemma_crossed_bound(placed[at - 1], t.stubs@);
        let b = 1 + t.stubs@.len();
        assert((at - 1) * b + b == at * b) by (nonlinear_arith);
    }
}

proof fn lemma_right_bound(placed: Seq<Trunk>, t: Trunk, at: int)
    requires
        0 <= at <= placed.len(),
    ensures
        0 <= right_cost(placed, t, at) <= weight(placed.skip(at)),
    decreases placed.len() - at,
{
    if at < placed.len() {
        lemma_right_bound(placed, t, at + 1);
        lemma_crossed_bound(t, placed[at].stubs@);
        assert(placed.skip(at).drop_first() =~= placed.skip(at + 1));
        assert(placed.skip(at)[0] == placed[at]);
    } else {
        assert(placed.skip(at) =~= Seq::<Trunk>::empty());
    }
}

// ---------------------------------------------------------------------
// Ordering the lanes
// ---------------------------------------------------------------------

/// The place after every trunk no lower than `y`.
fn place_after(sorted: &Vec<Trunk>, y: u128) -> (r: usize)
    ensures
        r == after_le(sorted@, y as int),
{
    let mut i: usize = 0;
    assert(sorted@.skip(0) =~= sorted@);
    while i < sorted.len() && sorted[i].yt <= y
        invariant
            i <= sorted@.len(),
            after_le(sorted@, y as int) == i + after_le(sorted@.skip(i as int), y as int),
        decreases sorted.len() - i,
    {
        assert(sorted@.skip(i as int).drop_first() =~= sorted@.skip(i as int + 1));
        assert(sorted@.skip(i as int)[0] == sorted@[i as int]);
        i = i + 1;
    }
    if i < sorted.len() {
        assert(sorted@.skip(i as int)[0] == sorted@[i as int]);
    }
    i
}

/// The trunks by target height, equal heights in their first order.
fn order_by_height(trunks: Vec<Trunk>) -> (r: Vec<Trunk>)
    ensures
        r@ == by_height(trunks@),
{
    let ghost all = trunks@;
    let mut rest = trunks;
    let mut sorted: Vec<Trunk> = Vec::new();
    let ghost mut k: int = 0;
    assert(all.take(0) =~= Seq::<Trunk>::empty());
    assert(all.skip(0) =~= all);
    while rest.len() > 0
        invariant
            0 <= k <= all.len(),
            sorted@ == by_height(all.take(k)),
            rest@ == all.skip(k),
        decreases rest.len(),
    {
        let t = rest.remove(0);
        let at = place_after(&sorted, t.yt);
        proof {
            lemma_after_le_bound(sorted@, t.yt as int);
            assert(all.take(k + 1).drop_last() =~= all.take(k));
            assert(all.take(k + 1).last() == t);
            assert(all.skip(k + 1) =~= rest@);
        }
        sorted.insert(at, t);
        proof {
            k = k + 1;
        }
    }
    assert(all.take(k) =~= all);
    sorted
}

/// The crossings `t` adds at place `at`.
fn cost_at(placed: &Vec<Trunk>, t: &Trunk, at: usize) -> (r: u128)
    requires
        at <= placed@.len(),
        weight(placed@) + 1 + t.stubs@.len() <= 0x4000_0000_0000_0000,
    ensures
        r == insert_cost(placed@, *t, at as int),
{
    proof {
        lemma_weight_nonneg(placed@);
    }
    let ghost b: int = 1 + t.stubs@.len() as int;
    let mut left: u128 = 0;
    let mut i: usize = 0;
    while i < at
        invariant
            i <= at,
            at <= placed@.len(),
            placed@.len() <= 0x4000_0000_0000_0000,
            b == 1 + t.stubs@.len(),
            1 <= b <= 0x4000_0000_0000_0000,
            left == left_cost(placed@, *t, i as int),
            left <= i * b,
        decreases at - i,
    {
        proof {
            lemma_left_bound(placed@, *t, i as int + 1);
            assert((i + 1) * b <= 0x4000_0000_0000_0000 * 0x4000_0000_0000_0000) by (nonlinear_arith)
                requires
                    i + 1 <= 0x4000_0000_0000_0000,
                    b <= 0x4000_0000_0000_0000,
                    b >= 1,
                    i >= 0,
            ;
        }
        left = left + trunk_cost(&placed[i], t);
        i = i + 1;
    }
    proof {
        assert(at * b <= 0x4000_0000_0000_0000 * 0x4000_0000_0000_0000) by (nonlinear_arith)
            requires
                at <= 0x4000_0000_0000_0000,
                b <= 0x4000_0000_0000_0000,
                b >= 1,
        ;
    }
    let mut right: u128 = 0;
    let mut j: usize = placed.len();
    while j > at
        invariant
            at <= j <= placed@.len(),
            weight(placed@) <= 0x4000_0000_0000_0000,
            right == right_cost(placed@, *t, j as int),
            right <= weight(placed@),
        decreases j - at,
    {
        j = j - 1;
        proof {
            lemma_right_bound(placed@, *t, j as int);
            lemma_weight_skip(placed@, j as int);
        }
        right = trunk_cost(t, &placed[j]) + right;
    }
    left + right
}

/// The first place of least cost for `t` among those already placed.
fn best_place(placed: &Vec<Trunk>, t: &Trunk) -> (r: usize)
    requires
        weight(placed@) + 1 + t.stubs@.len() <= 0x4000_0000_0000_0000,
    ensures
        r == first_min(placed@, *t, placed@.len() as int),
        r <= placed@.len(),
{
    let mut best_cost = cost_at(placed, t, 0);
    let mut best: usize = 0;
    let mut k: usize = 0;
    while k < placed.len()
        invariant
            k <= placed@.len(),
            weight(placed@) + 1 + t.stubs@.len() <= 0x4000_0000_0000_0000,
            best == first_min(placed@, *t, k as int),
            best <= k,
            best_cost == insert_cost(placed@, *t, best as int),
        decreases placed@.len() - k,
    {
        let c = cost_at(placed, t, k + 1);
        if c < best_cost {
            best_cost = c;
            best = k + 1;
        }
        k = k + 1;
    }
    best
}

/// Each trunk in turn at the first place of least cost.
fn place_all(sorted: Vec<Trunk>) -> (r: Vec<Trunk>)
    requires
        small(sorted@),
    ensures
        r@ == greedy(Seq::empty(), sorted@),
{
    let ghost all = sorted@;
    let mut rest = sorted;
    let mut placed: Vec<Trunk> = Vec::new();
    while rest.len() > 0
        invariant
            greedy(placed@, rest@) == greedy(Seq::empty(), all),
            weight(placed@) + weight(rest@) == weight(all),
            weight(all) <= 0x4000_0000_0000_0000,
        decreases rest.len(),
    {
        let ghost before = rest@;
        let t = rest.remove(0);
        proof {
            assert(rest@ =~= before.drop_first());
            assert(t == before[0]);
            lemma_weight_nonneg(rest@);
        }
        let at = best_place(&placed, &t);
        proof {
            lemma_weight_insert(placed@, at as int, t);
        }
        placed.insert(at, t);
    }
    placed
}

// ---------------------------------------------------------------------
// What the lanes are for
// ---------------------------------------------------------------------

/// A height the trunk's vertical reaches: its target's or a source's.
pub open spec fn point_of(t: Trunk, p: int) -> bool {
    p == t.yt || exists|k: int| 0 <= k < t.stubs@.len() && t.stubs@[k].y == p
}

/// A horizontal run at height `y` passes through the trunk's vertical:
/// the vertical reaches both above and below it.
pub open spec fn runs_through(t: Trunk, y: int) -> bool {
    exists|p: int, q: int| #[trigger] point_of(t, p) && #[trigger] point_of(t, q) && p < y < q
}

proof fn lemma_top_bottom(t: Trunk, stubs: Seq<Stub>)
    requires
        stubs.len() <= t.stubs@.len(),
        stubs == t.stubs@.take(stubs.len() as int),
    ensures
        point_of(t, top_of(t.yt as int, stubs)),
        point_of(t, bottom_of(t.yt as int, stubs)),
        top_of(t.yt as int, stubs) <= t.yt <= bottom_of(t.yt as int, stubs),
        forall|k: int| 0 <= k < stubs.len() ==> top_of(t.yt as int, stubs) <= #[trigger] stubs[k].y <= bottom_of(
            t.yt as int,
            stubs,
        ),
    decreases stubs.len(),
{
    if stubs.len() > 0 {
        let rest = stubs.drop_last();
        assert(rest == t.stubs@.take(rest.len() as int));
        lemma_top_bottom(t, rest);
        let n = stubs.len() - 1;
        assert(stubs.last() == t.stubs@[n]);
        assert forall|k: int| 0 <= k < stubs.len() implies top_of(t.yt as int, stubs) <= #[trigger] stubs[k].y
            <= bottom_of(t.yt as int, stubs) by {
            if k < n {
                assert(rest[k] == stubs[k]);
            }
        }
    }
}

/// `spans` is the run passing through the vertical.
proof fn lemma_spans_runs_through(t: Trunk, y: int)
    ensures
        spans(t, y) <==> runs_through(t, y),
{
    assert(t.stubs@.take(t.stubs@.len() as int) =~= t.stubs@);
    lemma_top_bottom(t, t.stubs@);
    let top = top_of(t.yt as int, t.stubs@);
    let bot = bottom_of(t.yt as int, t.stubs@);
    if spans(t, y) {
        assert(point_of(t, top) && point_of(t, bot));
    }
    if runs_through(t, y) {
        let (p, q) = choose|p: int, q: int| #[trigger] point_of(t, p) && #[trigger] point_of(t, q) && p < y < q;
        if p != t.yt {
            let k = choose|k: int| 0 <= k < t.stubs@.len() && t.stubs@[k].y == p;
            assert(top <= t.stubs@[k].y);
        }
        if q != t.yt {
            let k = choose|k: int| 0 <= k < t.stubs@.len() && t.stubs@[k].y == q;
            assert(t.stubs@[k].y <= bot);
        }
    }
}

proof fn lemma_crossed_counts(a: Trunk, stubs: Seq<Stub>)
    ensures
        crossed(a, stubs) == crate::seqs::count(stubs, |st: Stub| runs_through(a, st.y as int)),
    decreases stubs.len(),
{
    if stubs.len() > 0 {
        lemma_crossed_counts(a, stubs.drop_last());
        lemma_spans_runs_through(a, stubs.last().y as int);
    }
}

/// What putting `a`'s lane left of `b`'s costs, as crossings on the
/// canvas: one when `a`'s run into its target passes through `b`'s
/// vertical, and one for each of `b`'s stubs whose run passes through
/// `a`'s vertical.
pub proof fn law_cost_counts_crossings(a: Trunk, b: Trunk)
    ensures
        cost(a, b) == (if runs_through(b, a.yt as int) {
            1int
        } else {
            0
        }) + crate::seqs::count(b.stubs@, |st: Stub| runs_through(a, st.y as int)),
{
    lemma_spans_runs_through(b, a.yt as int);
    lemma_crossed_counts(a, b.stubs@);
}

/// Each trunk goes in at a place where it adds the fewest crossings:
/// no place among those open costs less.
pub proof fn law_placed_where_least(placed: Seq<Trunk>, t: Trunk, k: int)
    requires
        0 <= k <= placed.len(),
    ensures
        0 <= first_min(placed, t, placed.len() as int) <= placed.len(),
        insert_cost(placed, t, first_min(placed, t, placed.len() as int)) <= insert_cost(placed, t, k),
{
    lemma_first_min(placed, t, placed.len() as int, k);
}

proof fn lemma_first_min(placed: Seq<Trunk>, t: Trunk, n: int, k: int)
    requires
        0 <= k <= n,
    ensures
        0 <= first_min(placed, t, n) <= n,
        insert_cost(placed, t, first_min(placed, t, n)) <= insert_cost(placed, t, k),
    decreases n,
{
    if n > 0 {
        if k < n {
            lemma_first_min(placed, t, n - 1, k);
        } else {
            lemma_first_min(placed, t, n - 1, 0);
        }
    }
}

/// Two trunks in one gap stand in the order with fewer crossings.
pub proof fn law_two_trunks(a: Trunk, b: Trunk)
    ensures
        lanes(seq![a, b]).len() == 2,
        lanes(seq![a, b]) == seq![a, b] || lanes(seq![a, b]) == seq![b, a],
        cost(lanes(seq![a, b])[0], lanes(seq![a, b])[1]) <= cost(lanes(seq![a, b])[1], lanes(seq![a, b])[0]),
{
    let s = seq![a, b];
    assert(s.drop_last() =~= seq![a]);
    assert(seq![a].drop_last() =~= Seq::<Trunk>::empty());
    let e0 = Seq::<Trunk>::empty();
    assert(by_height(e0) == e0);
    assert(after_le(e0, a.yt as int) == 0);
    assert(seq![a].last() == a);
    assert(by_height(seq![a]) == e0.insert(0, a));
    assert(e0.insert(0, a) =~= seq![a]);
    let sorted = by_height(s);
    let at = after_le(seq![a], b.yt as int);
    assert(seq![a].drop_first() =~= e0);
    assert(after_le(e0, b.yt as int) == 0);
    assert(at == 0 || at == 1);
    assert(s.last() == b);
    assert(sorted == seq![a].insert(at, b));
    if at == 0 {
        assert(sorted =~= seq![b, a]);
    } else {
        assert(sorted =~= seq![a, b]);
    }
    let x = sorted[0];
    let y = sorted[1];
    let e = Seq::<Trunk>::empty();
    assert(first_min(e, x, 0) == 0);
    let p1 = e.insert(0, x);
    assert(p1 =~= seq![x]);
    assert(sorted.drop_first() =~= seq![y]);
    assert(seq![y].drop_first() =~= Seq::<Trunk>::empty());
    assert(greedy(e, sorted) == greedy(p1, seq![y]));
    assert(first_min(p1, y, 0) == 0);
    let m = first_min(p1, y, 1);
    assert(m == 0 || m == 1);
    assert(greedy(p1, seq![y]) == greedy(p1.insert(m, y), Seq::<Trunk>::empty()));
    // Going in first costs y against x; going in last costs x against y.
    assert(insert_cost(p1, y, 0) == cost(y, x)) by {
        assert(right_cost(p1, y, 1) == 0);
        assert(right_cost(p1, y, 0) == cost(y, p1[0]) + right_cost(p1, y, 1));
    }
    assert(insert_cost(p1, y, 1) == cost(x, y)) by {
        assert(left_cost(p1, y, 0) == 0);
        assert(left_cost(p1, y, 1) == left_cost(p1, y, 0) + cost(p1[0], y));
    }
    assert(first_min(p1, y, 0) == 0);
    if m == 0 {
        assert(p1.insert(0, y) =~= seq![y, x]);
    } else {
        assert(p1.insert(1, y) =~= seq![x, y]);
    }
}

/// The lane order of one gap: by target height, then each trunk where it
/// adds the fewest crossings against those already placed.
pub fn lane_order(trunks: Vec<Trunk>) -> (r: Vec<Trunk>)
    requires
        small(trunks@),
    ensures
        r@ == lanes(trunks@),
{
    let ghost all = trunks@;
    let sorted = order_by_height(trunks);
    proof {
        lemma_by_height_weight(all);
    }
    place_all(sorted)
}

// ---------------------------------------------------------------------
// Grouping a gap's hops into trunks
// ---------------------------------------------------------------------

/// The hops out of column `gap`, in link order.
pub open spec fn gap_links(links: Seq<Link>, nodes: Seq<Node>, gap: int) -> Seq<Link>
    decreases links.len(),
{
    if links.len() == 0 {
        Seq::empty()
    } else {
        let r = gap_links(links.drop_last(), nodes, gap);
        if nodes[links.last().from as int].col == gap {
            r.push(links.last())
        } else {
            r
        }
    }
}

/// The targets of the hops, each once, in the order of its first hop.
pub open spec fn targets(ls: Seq<Link>) -> Seq<usize>
    decreases ls.len(),
{
    if ls.len() == 0 {
        Seq::empty()
    } else {
        let r = targets(ls.drop_last());
        if r.contains(ls.last().to) {
            r
        } else {
            r.push(ls.last().to)
        }
    }
}

/// The hops into `to`, in order.
pub open spec fn hops_into(ls: Seq<Link>, to: usize) -> Seq<Link>
    decreases ls.len(),
{
    if ls.len() == 0 {
        Seq::empty()
    } else {
        let r = hops_into(ls.drop_last(), to);
        if ls.last().to == to {
            r.push(ls.last())
        } else {
            r
        }
    }
}

/// The targets of a list of trunks.
pub open spec fn tos(ts: Seq<Trunk>) -> Seq<usize> {
    ts.map_values(|t: Trunk| t.to)
}

/// The links of a trunk's stubs.
pub open spec fn stub_links(ss: Seq<Stub>) -> Seq<Link> {
    ss.map_values(|s: Stub| s.link)
}

/// The trunks of a gap: one per target in the order of its first hop,
/// each at its target's centre, holding the hops into it in order, each
/// stub at its source's centre.
pub open spec fn grouped(ts: Seq<Trunk>, ls: Seq<Link>, nodes: Seq<Node>) -> bool {
    &&& tos(ts) == targets(ls)
    &&& forall|k: int| 0 <= k < ts.len() ==> {
        let t = #[trigger] ts[k];
        &&& t.to < nodes.len()
        &&& t.yt == node_mid(nodes[t.to as int])
        &&& stub_links(t.stubs@) == hops_into(ls, t.to)
        &&& forall|q: int| 0 <= q < t.stubs@.len() ==> {
            let st = #[trigger] t.stubs@[q];
            &&& st.link.from < nodes.len()
            &&& st.y == node_mid(nodes[st.link.from as int])
        }
    }
}

proof fn lemma_into_empty(ls: Seq<Link>, x: usize)
    requires
        !targets(ls).contains(x),
    ensures
        hops_into(ls, x) == Seq::<Link>::empty(),
    decreases ls.len(),
{
    if ls.len() > 0 {
        let r = targets(ls.drop_last());
        if !r.contains(ls.last().to) {
            assert(targets(ls) == r.push(ls.last().to));
            assert(targets(ls)[r.len() as int] == ls.last().to);
            assert forall|i: int| 0 <= i < r.len() implies r[i] != x by {
                assert(targets(ls)[i] == r[i]);
            }
        }
        lemma_into_empty(ls.drop_last(), x);
    }
}

proof fn lemma_remove_weight(s: Seq<Trunk>, k: int)
    requires
        0 <= k < s.len(),
    ensures
        weight(s.remove(k)) + 1 + s[k].stubs@.len() == weight(s),
{
    lemma_weight_insert(s.remove(k), k, s[k]);
    assert(s.remove(k).insert(k, s[k]) =~= s);
}

/// A node's centre height.
fn mid_of(n: &Node) -> (r: u128)
    requires
        n.y + node_h(*n) <= u128::MAX,
    ensures
        r == node_mid(*n),
{
    if n.module.is_some() {
        n.y + crate::graph::CARD_H / 2
    } else {
        n.y + crate::graph::PASS_H / 2
    }
}

/// The first trunk into `to`.
fn trunk_into(ts: &Vec<Trunk>, to: usize) -> (r: Option<usize>)
    ensures
        match r {
            Some(k) => k < ts@.len() && ts@[k as int].to == to,
            None => !tos(ts@).contains(to),
        },
{
    let mut k: usize = 0;
    while k < ts.len()
        invariant
            k <= ts@.len(),
            forall|q: int| 0 <= q < k ==> ts@[q].to != to,
        decreases ts.len() - k,
    {
        if ts[k].to == to {
            return Some(k);
        }
        k = k + 1;
    }
    assert forall|q: int| 0 <= q < tos(ts@).len() implies tos(ts@)[q] != to by {
        assert(tos(ts@)[q] == ts@[q].to);
    }
    None
}

/// The trunks of the gap after column `gap`, before their lanes are
/// ordered.
#[verifier::rlimit(80)]
pub fn trunks_of(layout: &GraphLayout, gap: usize) -> (r: Vec<Trunk>)
    requires
        crate::graph::ends_in(layout.nodes@, layout.links@),
        crate::graph::tall_enough(layout.nodes@, layout.height as int),
        layout.links@.len() <= 0x2000_0000_0000_0000,
    ensures
        grouped(r@, gap_links(layout.links@, layout.nodes@, gap as int), layout.nodes@),
        small(r@),
{
    let nodes = &layout.nodes;
    let links = &layout.links;
    let ghost ns = nodes@;
    let mut out: Vec<Trunk> = Vec::new();
    let mut j: usize = 0;
    assert(links@.take(0) =~= Seq::<Link>::empty());
    assert(tos(out@) =~= Seq::<usize>::empty());
    while j < links.len()
        invariant
            ns == nodes@,
            crate::graph::ends_in(ns, links@),
            crate::graph::tall_enough(ns, layout.height as int),
            links@.len() <= 0x2000_0000_0000_0000,
            j <= links@.len(),
            grouped(out@, gap_links(links@.take(j as int), ns, gap as int), ns),
            weight(out@) <= 2 * j,
        decreases links.len() - j,
    {
        let ghost before = out@;
        let ghost ls = gap_links(links@.take(j as int), ns, gap as int);
        assert(links@.take(j as int + 1).drop_last() =~= links@.take(j as int));
        assert(links@.take(j as int + 1).last() == links@[j as int]);
        let l = links[j];
        if nodes[l.from].col == gap {
            proof {
                assert(ns[l.from as int].y + node_h(ns[l.from as int]) + crate::graph::PAD <= layout.height);
                assert(ns[l.to as int].y + node_h(ns[l.to as int]) + crate::graph::PAD <= layout.height);
            }
            let ys = mid_of(&nodes[l.from]);
            let stub = Stub { y: ys, link: l };
            let ghost ls2 = ls.push(l);
            assert(ls2.drop_last() =~= ls);
            assert(gap_links(links@.take(j as int + 1), ns, gap as int) == ls2);
            match trunk_into(&out, l.to) {
                Some(k) => {
                    let mut tr = out.remove(k);
                    let ghost old_t = before[k as int];
                    tr.stubs.push(stub);
                    out.insert(k, tr);
                    proof {
                        lemma_remove_weight(before, k as int);
                        lemma_weight_insert(before.remove(k as int), k as int, out@[k as int]);
                        assert(out@ =~= before.update(k as int, out@[k as int]));
                        assert(tos(out@) =~= tos(before));
                        assert(tos(before)[k as int] == l.to);
                        assert(targets(ls).contains(l.to));
                        assert(targets(ls2) == targets(ls));
                        assert(stub_links(out@[k as int].stubs@) =~= stub_links(old_t.stubs@).push(l));
                        assert forall|kk: int| 0 <= kk < out@.len() implies {
                            let t = #[trigger] out@[kk];
                            &&& t.to < ns.len()
                            &&& t.yt == node_mid(ns[t.to as int])
                            &&& stub_links(t.stubs@) == hops_into(ls2, t.to)
                            &&& forall|q: int| 0 <= q < t.stubs@.len() ==> {
                                let st = #[trigger] t.stubs@[q];
                                &&& st.link.from < ns.len()
                                &&& st.y == node_mid(ns[st.link.from as int])
                            }
                        } by {
                            if kk == k {
                                let t = out@[kk];
                                assert forall|q: int| 0 <= q < t.stubs@.len() implies {
                                    let st = #[trigger] t.stubs@[q];
                                    &&& st.link.from < ns.len()
                                    &&& st.y == node_mid(ns[st.link.from as int])
                                } by {
                                    if q < old_t.stubs@.len() {
                                        assert(t.stubs@[q] == old_t.stubs@[q]);
                                    }
                                }
                            } else {
                                assert(out@[kk] == before[kk]);
                                assert(before[kk].to != l.to) by {
                                    assert(tos(before)[kk] == before[kk].to);
                                    assert(tos(before)[k as int] == before[k as int].to);
                                    lemma_distinct_targets(ls);
                                }
                            }
                        }
                    }
                },
                None => {
                    let mut stubs: Vec<Stub> = Vec::new();
                    stubs.push(stub);
                    let yt = mid_of(&nodes[l.to]);
                    out.push(Trunk { to: l.to, yt, stubs });
                    proof {
                        lemma_weight_last(out@);
                        assert(out@.drop_last() =~= before);
                        assert(!targets(ls).contains(l.to));
                        lemma_into_empty(ls, l.to);
                        assert(tos(out@) =~= tos(before).push(l.to));
                        assert forall|kk: int| 0 <= kk < out@.len() implies {
                            let t = #[trigger] out@[kk];
                            &&& t.to < ns.len()
                            &&& t.yt == node_mid(ns[t.to as int])
                            &&& stub_links(t.stubs@) == hops_into(ls2, t.to)
                            &&& forall|q: int| 0 <= q < t.stubs@.len() ==> {
                                let st = #[trigger] t.stubs@[q];
                                &&& st.link.from < ns.len()
                                &&& st.y == node_mid(ns[st.link.from as int])
                            }
                        } by {
                            if kk < before.len() {
                                assert(out@[kk] == before[kk]);
                                assert(before[kk].to != l.to) by {
                                    assert(tos(before)[kk] == before[kk].to);
                                }
                            } else {
                                assert(stub_links(out@[kk].stubs@) =~= seq![l]);
                                assert(hops_into(ls2, l.to) =~= seq![l]);
                            }
                        }
                    }
                },
            }
        }
        j = j + 1;
    }
    assert(links@.take(j as int) =~= links@);
    out
}

proof fn lemma_distinct_targets(ls: Seq<Link>)
    ensures
        forall|a: int, b: int| 0 <= a < b < targets(ls).len() ==> targets(ls)[a] != targets(ls)[b],
    decreases ls.len(),
{
    if ls.len() > 0 {
        lemma_distinct_targets(ls.drop_last());
        let r = targets(ls.drop_last());
        if !r.contains(ls.last().to) {
            assert forall|a: int, b: int| 0 <= a < b < targets(ls).len() implies targets(ls)[a] != targets(ls)[b] by {
                if b == r.len() {
                    assert(targets(ls)[a] == r[a]);
                    assert(r[a] != ls.last().to);
                } else {
                    assert(targets(ls)[a] == r[a]);
                    assert(targets(ls)[b] == r[b]);
                }
            }
        }
    }
}

} // verus!
