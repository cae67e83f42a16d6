//! The console's one scheduler, as a step: each frame it works out what
//! the screen needs, what the cache already holds and what a tick has
//! made stale, and issues the difference as fetches. The caller runs
//! the loop, performs the fetches, and lands their results.
use vstd::prelude::*;

use crate::cache::{Current, detail_with, feed_for, feed_with, module_read_with};
use crate::model::Feed;
use crate::seqs::{first_where, lemma_first_found, lemma_first_is_first, lemma_none_found, store_place, stored_at};
use crate::text::{begins_with, dec, dec_int, push_decimal_i64, same_text, starts_with};

verus! {

/// The fallback poll's cadence, in microseconds. Every committed event
/// arrives over the event socket within a frame or two; this keeps the
/// console correct when that socket is down. A poll refreshes
/// everything on screen, as if a tick had named all of it. A fetch
/// older than this is treated as dropped.
pub const POLL_MICROS: u64 = 30_000_000;

/// How many ledger entries one page of a feature's feed holds.
pub const FEED_PAGE: i64 = 50;

/// How many wants one page of the pool holds.
pub const POOL_PAGE: usize = 20;

// ---------------------------------------------------------------------
// Fetch slots
// ---------------------------------------------------------------------

/// The reads on their way, by slot, and when each left.
pub open spec fn flight_view(v: Seq<(String, u64)>) -> Seq<(Seq<char>, u64)> {
    v.map_values(|e: (String, u64)| (e.0@, e.1))
}

/// The entry for a slot.
pub open spec fn slot_with(slot: Seq<char>) -> spec_fn((Seq<char>, u64)) -> bool {
    |e: (Seq<char>, u64)| e.0 == slot
}

/// Microseconds since `t`, never negative.
pub open spec fn since(now: u64, t: u64) -> int {
    if now >= t {
        now - t
    } else {
        0
    }
}

/// Taking a slot: refused while a fresh read holds it; otherwise the
/// slot is marked taken now (replacing a stale entry in place).
pub open spec fn take_slot(v: Seq<(Seq<char>, u64)>, now: u64, slot: Seq<char>) -> (bool, Seq<(Seq<char>, u64)>) {
    match first_where(v, slot_with(slot)) {
        Some(k) => if since(now, v[k].1) < POLL_MICROS {
            (false, v)
        } else {
            (true, v.update(k, (slot, now)))
        },
        None => (true, v.push((slot, now))),
    }
}

/// Takes a fetch slot, unless a fresh read already holds it.
pub fn claim(in_flight: &mut Vec<(String, u64)>, now: u64, slot: &str) -> (r: bool)
    ensures
        (r, flight_view(final(in_flight)@)) == take_slot(flight_view(old(in_flight)@), now, slot@),
{
    let ghost v = flight_view(in_flight@);
    let mut k: usize = 0;
    while k < in_flight.len()
        invariant
            v == flight_view(in_flight@),
            in_flight@ == old(in_flight)@,
            k <= in_flight@.len(),
            forall|j: int| 0 <= j < k ==> !(#[trigger] slot_with(slot@)(v[j])),
        decreases in_flight.len() - k,
    {
        if same_text(in_flight[k].0.as_str(), slot) {
            proof {
                lemma_first_found(v, slot_with(slot@), k as int);
            }
            let t = in_flight[k].1;
            let age = if now >= t { now - t } else { 0 };
            if age < POLL_MICROS {
                return false;
            }
            in_flight.set(k, (String::from_str(slot), now));
            assert(flight_view(in_flight@) =~= v.update(k as int, (slot@, now)));
            return true;
        }
        k = k + 1;
    }
    proof {
        lemma_none_found(v, slot_with(slot@));
    }
    in_flight.push((String::from_str(slot), now));
    assert(flight_view(in_flight@) =~= v.push((slot@, now)));
    true
}

/// Gives a slot back once its read has answered: the entry for it goes.
pub fn release(in_flight: &mut Vec<(String, u64)>, slot: &str)
    ensures
        match first_where(flight_view(old(in_flight)@), slot_with(slot@)) {
            Some(k) => flight_view(final(in_flight)@) == flight_view(old(in_flight)@).remove(k),
            None => final(in_flight)@ == old(in_flight)@,
        },
        flight_view(final(in_flight)@) == give_back(flight_view(old(in_flight)@), slot@),
{
    let ghost v = flight_view(in_flight@);
    let mut k: usize = 0;
    while k < in_flight.len()
        invariant
            v == flight_view(in_flight@),
            in_flight@ == old(in_flight)@,
            k <= in_flight@.len(),
            forall|j: int| 0 <= j < k ==> !(#[trigger] slot_with(slot@)(v[j])),
        decreases in_flight.len() - k,
    {
        if same_text(in_flight[k].0.as_str(), slot) {
            proof {
                lemma_first_found(v, slot_with(slot@), k as int);
            }
            in_flight.remove(k);
            assert(flight_view(in_flight@) =~= v.remove(k as int));
            return ;
        }
        k = k + 1;
    }
    proof {
        lemma_none_found(v, slot_with(slot@));
    }
}

/// Giving a slot back: its entry goes, if it has one.
pub open spec fn give_back(v: Seq<(Seq<char>, u64)>, slot: Seq<char>) -> Seq<(Seq<char>, u64)> {
    match first_where(v, slot_with(slot)) {
        Some(k) => v.remove(k),
        None => v,
    }
}

/// No slot is held twice.
pub open spec fn one_per_slot(v: Seq<(Seq<char>, u64)>) -> bool {
    forall|i: int, j: int| 0 <= i < j < v.len() ==> (#[trigger] v[i]).0 != (#[trigger] v[j]).0
}

/// After a slot is taken, the read holding it is the one found under it.
proof fn lemma_taken_found(v: Seq<(Seq<char>, u64)>, now: u64, slot: Seq<char>)
    requires
        take_slot(v, now, slot).0,
    ensures
        first_where(take_slot(v, now, slot).1, slot_with(slot)) matches Some(k)
            && take_slot(v, now, slot).1[k] == (slot, now),
{
    let after = take_slot(v, now, slot).1;
    let at = first_where(v, slot_with(slot));
    match at {
        Some(k) => {
            lemma_first_is_first(v, slot_with(slot));
            assert(stored_at(v, after, at));
        },
        None => {
            assert(stored_at(v, after, at));
        },
    }
    assert(slot_with(slot)(after[store_place(v, at)]));
    crate::seqs::lemma_found_where_stored(v, after, slot_with(slot));
}

/// One read per slot at a time: once a slot is taken, asking for it again
/// within the poll window is refused, and nothing changes.
pub proof fn law_taken_slot_refuses(v: Seq<(Seq<char>, u64)>, now: u64, later: u64, slot: Seq<char>)
    requires
        take_slot(v, now, slot).0,
        now <= later < now + POLL_MICROS,
    ensures
        take_slot(take_slot(v, now, slot).1, later, slot) == (false, take_slot(v, now, slot).1),
{
    lemma_taken_found(v, now, slot);
}

/// A lost answer cannot wedge its slot: a full poll window after it was
/// taken, the slot can be taken again.
pub proof fn law_stale_slot_frees(v: Seq<(Seq<char>, u64)>, now: u64, later: u64, slot: Seq<char>)
    requires
        take_slot(v, now, slot).0,
        later >= now + POLL_MICROS,
    ensures
        take_slot(take_slot(v, now, slot).1, later, slot).0,
{
    lemma_taken_found(v, now, slot);
}

/// Taking and giving back slots never holds one slot twice.
pub proof fn law_one_read_per_slot(v: Seq<(Seq<char>, u64)>, now: u64, slot: Seq<char>)
    requires
        one_per_slot(v),
    ensures
        one_per_slot(take_slot(v, now, slot).1),
        one_per_slot(give_back(v, slot)),
{
    lemma_first_is_first(v, slot_with(slot));
    let taken = take_slot(v, now, slot).1;
    assert forall|i: int, j: int| 0 <= i < j < taken.len() implies (#[trigger] taken[i]).0 != (#[trigger] taken[j]).0 by {
        match first_where(v, slot_with(slot)) {
            Some(k) => {
                if i != k && j != k {
                    assert(taken[i] == v[i] && taken[j] == v[j]);
                } else if i == k {
                    assert(taken[i].0 == v[k].0);
                    assert(taken[j] == v[j] || j == k);
                } else {
                    assert(taken[j].0 == v[k].0);
                    assert(taken[i] == v[i]);
                }
            },
            None => {
                if j == v.len() {
                    assert(taken[i] == v[i]);
                    assert(!slot_with(slot)(v[i]));
                } else {
                    assert(taken[i] == v[i] && taken[j] == v[j]);
                }
            },
        }
    }
    let back = give_back(v, slot);
    assert forall|i: int, j: int| 0 <= i < j < back.len() implies (#[trigger] back[i]).0 != (#[trigger] back[j]).0 by {
        match first_where(v, slot_with(slot)) {
            Some(k) => {
                let i2 = if i < k { i } else { i + 1 };
                let j2 = if j < k { j } else { j + 1 };
                assert(back[i] == v[i2] && back[j] == v[j2]);
            },
            None => {},
        }
    }
}

/// A slot given back can be taken at once, while no slot is held twice.
pub proof fn law_released_slot_is_free(v: Seq<(Seq<char>, u64)>, now: u64, slot: Seq<char>)
    requires
        one_per_slot(v),
    ensures
        take_slot(give_back(v, slot), now, slot).0,
{
    lemma_first_is_first(v, slot_with(slot));
    let back = give_back(v, slot);
    match first_where(v, slot_with(slot)) {
        Some(k) => {
            assert forall|j: int| 0 <= j < back.len() implies !(#[trigger] slot_with(slot)(back[j])) by {
                let j2 = if j < k { j } else { j + 1 };
                assert(back[j] == v[j2]);
                if j2 != k {
                    assert(v[j2].0 != v[k].0);
                }
            }
        },
        None => {},
    }
    lemma_none_found(back, slot_with(slot));
}

/// A module drawer's slot.
pub open spec fn module_slot(id: Seq<char>) -> Seq<char> {
    "module:"@ + id
}

/// A feed page's slot: the feature and the cursor, zero for the newest.
pub open spec fn feed_slot(id: Seq<char>, before: Option<i64>) -> Seq<char> {
    "feed:"@ + id + ":"@ + dec_int(
        match before {
            Some(b) => b as int,
            None => 0,
        },
    )
}

pub fn module_slot_of(id: &str) -> (r: String)
    ensures
        r@ == module_slot(id@),
{
    let mut s = String::from_str("module:");
    s.append(id);
    s
}

pub fn feed_slot_of(id: &str, before: Option<i64>) -> (r: String)
    ensures
        r@ == feed_slot(id@, before),
{
    let mut s = String::from_str("feed:");
    s.append(id);
    s.append(":");
    push_decimal_i64(
        &mut s,
        match before {
            Some(b) => b,
            None => 0,
        },
    );
    s
}

/// The slot a fetch holds while it is on its way: the one to release
/// once it answers.
pub open spec fn slot_of_view(f: FetchView) -> Seq<char> {
    match f {
        FetchView::Board => "board"@,
        FetchView::Feature(_) => "feature"@,
        FetchView::Module(id) => module_slot(id),
        FetchView::Feed(id, before) => feed_slot(id, before),
        FetchView::Pool(_) => "pool"@,
        FetchView::Want(_) => "want"@,
    }
}

/// The slot a fetch holds while it is on its way.
pub fn slot_of(f: &Fetch) -> (r: String)
    ensures
        r@ == slot_of_view(fetch_view(*f)),
{
    match f {
        Fetch::Board => String::from_str("board"),
        Fetch::Feature(_) => String::from_str("feature"),
        Fetch::Module(id) => module_slot_of(id.as_str()),
        Fetch::Feed { feature, before } => feed_slot_of(feature.as_str(), *before),
        Fetch::Pool(_) => String::from_str("pool"),
        Fetch::Want(_) => String::from_str("want"),
    }
}

// ---------------------------------------------------------------------
// What the screen needs
// ---------------------------------------------------------------------

/// The pool page the wants screen is showing: its filters and page.
#[derive(Debug, Default)]
pub struct PoolKey {
    pub query: String,
    pub status: String,
    pub tags: Vec<String>,
    pub page: usize,
}

/// A pool key by its texts.
pub open spec fn pool_view(k: PoolKey) -> (Seq<char>, Seq<char>, Seq<Seq<char>>, usize) {
    (k.query@, k.status@, k.tags.deep_view(), k.page)
}

/// Which reads the screen needs loaded right now.
#[derive(Debug, Default)]
pub struct Wanted {
    /// The selected feature's graph, when the feature pane is showing.
    pub feature: Option<String>,
    /// The open module's drawer contents.
    pub module: Option<String>,
    /// The selected feature's feed, when its activity tab is showing.
    pub feed: Option<String>,
    /// The pool page the wants screen is showing.
    pub pool: Option<PoolKey>,
    /// The idea whose drawer is open.
    pub want: Option<String>,
}

/// What the screen needs, by its texts.
pub struct WantedView {
    pub feature: Option<Seq<char>>,
    pub module: Option<Seq<char>>,
    pub feed: Option<Seq<char>>,
    pub pool: Option<(Seq<char>, Seq<char>, Seq<Seq<char>>, usize)>,
    pub want: Option<Seq<char>>,
}

/// A `Wanted` by its texts.
pub open spec fn wanted_view(w: Wanted) -> WantedView {
    WantedView {
        feature: crate::wire::opt_text(w.feature),
        module: crate::wire::opt_text(w.module),
        feed: crate::wire::opt_text(w.feed),
        pool: match w.pool {
            Some(k) => Some(pool_view(k)),
            None => None,
        },
        want: crate::wire::opt_text(w.want),
    }
}

/// What is on screen: the pane, the selected feature's place, the open
/// module, the feature pane's tab, the pool's filters and page, and
/// the open want.
pub struct Screen {
    pub pane: String,
    pub feature: usize,
    pub selected: Option<String>,
    pub view: String,
    pub pool: PoolKey,
    pub want: Option<String>,
}

/// The selected feature's id, when the place holds one.
pub open spec fn selected_id(c: Current, s: Screen) -> Option<Seq<char>> {
    if s.feature < c.features@.len() {
        Some(c.features@[s.feature as int].id@)
    } else {
        None
    }
}

/// Which reads a screen needs: the feature's graph, its open module and
/// — on the activity tab — its feed while the feature pane shows a
/// feature; the pool page on the wants screen; the open want always.
pub open spec fn wanted_of(c: Current, s: Screen) -> WantedView {
    let fid = selected_id(c, s);
    let on = s.pane@ == "feature"@ && fid is Some;
    WantedView {
        feature: if on { fid } else { None },
        module: if on { crate::wire::opt_text(s.selected) } else { None },
        feed: if on && s.view@ == "feed"@ { fid } else { None },
        pool: if s.pane@ == "wants"@ { Some(pool_view(s.pool)) } else { None },
        want: crate::wire::opt_text(s.want),
    }
}

fn copy_text_opt(o: &Option<String>) -> (r: Option<String>)
    ensures
        crate::wire::opt_text(r) == crate::wire::opt_text(*o),
{
    match o {
        Some(s) => Some(s.clone()),
        None => None,
    }
}

fn copy_pool(k: &PoolKey) -> (r: PoolKey)
    ensures
        pool_view(r) == pool_view(*k),
{
    PoolKey {
        query: k.query.clone(),
        status: k.status.clone(),
        tags: crate::model::copy_strings(&k.tags),
        page: k.page,
    }
}

/// The reads a screen needs.
pub fn wanted(cur: &Current, screen: &Screen) -> (r: Wanted)
    ensures
        wanted_view(r) == wanted_of(*cur, *screen),
        screen.pane@ == "feature"@ && screen.feature < cur.features@.len() && screen.selected is Some
            ==> (r.module matches Some(m) && m@ == screen.selected->0@),
{
    let fid = crate::cache::feature_id_at(cur, screen.feature);
    let on = same_text(screen.pane.as_str(), "feature") && fid.is_some();
    let feature = if on { copy_text_opt(&fid) } else { None };
    let module = if on { copy_text_opt(&screen.selected) } else { None };
    let feed = if on && same_text(screen.view.as_str(), "feed") { copy_text_opt(&fid) } else { None };
    let pool = if same_text(screen.pane.as_str(), "wants") { Some(copy_pool(&screen.pool)) } else { None };
    Wanted { feature, module, feed, pool, want: copy_text_opt(&screen.want) }
}

fn same_opt_text(a: &Option<String>, b: &Option<String>) -> (r: bool)
    ensures
        r == (crate::wire::opt_text(*a) == crate::wire::opt_text(*b)),
{
    crate::wire::eq_opt_text(a, b)
}

fn same_pool(a: &Option<PoolKey>, b: &Option<PoolKey>) -> (r: bool)
    ensures
        r == ((match *a { Some(k) => Some(pool_view(k)), None => None }) == (match *b { Some(k) => Some(pool_view(k)), None => None })),
{
    match (a, b) {
        (Some(x), Some(y)) => {
            let r = x.page == y.page && same_text(x.query.as_str(), y.query.as_str()) && same_text(
                x.status.as_str(),
                y.status.as_str(),
            ) && crate::wire::eq_texts(&x.tags, &y.tags);
            r
        },
        (None, None) => true,
        _ => false,
    }
}

// ---------------------------------------------------------------------
// The step
// ---------------------------------------------------------------------

/// The newest event the socket has delivered.
pub struct Tick {
    pub seq: i64,
    /// Empty from a database whose trigger predates typed ticks.
    pub kind: String,
    pub feature_id: Option<String>,
}

/// What one frame brings: the clock, the newest tick, the local-write
/// counter, the screen, and a pending "load older" on a feed.
pub struct Frame {
    pub now: u64,
    pub tick: Option<Tick>,
    pub nudge: u64,
    pub screen: Screen,
    pub older: Option<String>,
}

/// One read to issue.
#[derive(Debug)]
pub enum Fetch {
    Board,
    Feature(String),
    Module(String),
    /// The newest page when `before` is `None`, the page older than that
    /// seq otherwise.
    Feed { feature: String, before: Option<i64> },
    Pool(PoolKey),
    Want(String),
}

/// A fetch by its texts.
pub enum FetchView {
    Board,
    Feature(Seq<char>),
    Module(Seq<char>),
    Feed(Seq<char>, Option<i64>),
    Pool((Seq<char>, Seq<char>, Seq<Seq<char>>, usize)),
    Want(Seq<char>),
}

pub open spec fn fetch_view(f: Fetch) -> FetchView {
    match f {
        Fetch::Board => FetchView::Board,
        Fetch::Feature(id) => FetchView::Feature(id@),
        Fetch::Module(id) => FetchView::Module(id@),
        Fetch::Feed { feature, before } => FetchView::Feed(feature@, before),
        Fetch::Pool(k) => FetchView::Pool(pool_view(k)),
        Fetch::Want(id) => FetchView::Want(id@),
    }
}

pub open spec fn fetches_view(s: Seq<Fetch>) -> Seq<FetchView> {
    s.map_values(|f: Fetch| fetch_view(f))
}

/// The scheduler's memory between frames.
pub struct SyncState {
    /// When the last poll started; `None` until the first.
    pub last_poll: Option<u64>,
    pub seen_nudge: u64,
    pub seen_seq: i64,
    pub last: Wanted,
    /// What a tick or the poll has invalidated since it was last read.
    pub stale_board: bool,
    pub stale_feature: bool,
    pub stale_pool: bool,
    pub stale_want: bool,
    pub in_flight: Vec<(String, u64)>,
}

impl SyncState {
    /// Nothing read, everything stale.
    pub fn new() -> (r: SyncState)
        ensures
            r.last_poll is None,
            r.seen_nudge == 0,
            r.seen_seq == 0,
            wanted_view(r.last) == (WantedView { feature: None, module: None, feed: None, pool: None, want: None }),
            r.stale_board && r.stale_feature && r.stale_pool && r.stale_want,
            r.in_flight@.len() == 0,
    {
        SyncState {
            last_poll: None,
            seen_nudge: 0,
            seen_seq: 0,
            last: Wanted { feature: None, module: None, feed: None, pool: None, want: None },
            stale_board: true,
            stale_feature: true,
            stale_pool: true,
            stale_want: true,
            in_flight: Vec::new(),
        }
    }
}

/// Whether a tick is new.
pub open spec fn fresh_tick(st: SyncState, f: Frame) -> bool {
    f.tick matches Some(t) && t.seq > st.seen_seq
}

/// Whether a new tick touches the selected feature: it names it, or it
/// is untyped and so assumed to touch everything.
pub open spec fn tick_touches_feature(st: SyncState, c: Current, f: Frame) -> bool {
    f.tick matches Some(t) && t.seq > st.seen_seq && (t.kind@.len() == 0 || crate::wire::opt_text(t.feature_id) == selected_id(c, f.screen))
}

/// Whether a new tick touches the pool: a want or a tag, or untyped.
pub open spec fn tick_touches_pool(st: SyncState, f: Frame) -> bool {
    f.tick matches Some(t) && t.seq > st.seen_seq && (t.kind@.len() == 0 || starts_with(t.kind@, "want"@) || starts_with(t.kind@, "tag"@))
}

/// Whether the fallback poll is due.
pub open spec fn poll_due(st: SyncState, now: u64) -> bool {
    match st.last_poll {
        None => true,
        Some(t) => since(now, t) >= POLL_MICROS,
    }
}

/// The staleness a frame leaves before anything is issued: the board on
/// any new tick, a local write or a poll; the feature on a tick that
/// touches it, a poll, or a change of selection; the pool and the want
/// likewise.
pub open spec fn marked(st: SyncState, c: Current, f: Frame) -> (bool, bool, bool, bool) {
    let w = wanted_of(c, f.screen);
    let last = wanted_view(st.last);
    let poll = poll_due(st, f.now);
    let nudged = f.nudge != st.seen_nudge;
    (
        st.stale_board || fresh_tick(st, f) || nudged || poll,
        st.stale_feature || tick_touches_feature(st, c, f) || poll || w.feature != last.feature,
        st.stale_pool || tick_touches_pool(st, f) || nudged || poll || w.pool != last.pool,
        st.stale_want || tick_touches_pool(st, f) || poll || w.want != last.want,
    )
}

/// Tries a fetch through its slot: issued when the slot is free.
pub open spec fn try_fetch(
    fl: Seq<(Seq<char>, u64)>,
    out: Seq<FetchView>,
    now: u64,
    slot: Seq<char>,
    fetch: FetchView,
) -> (bool, Seq<(Seq<char>, u64)>, Seq<FetchView>) {
    let (ok, next) = take_slot(fl, now, slot);
    (ok, next, if ok { out.push(fetch) } else { out })
}

/// The oldest seq a held feed has loaded.
pub open spec fn oldest_of(f: Option<Feed>) -> Option<i64> {
    match f {
        Some(feed) => if feed.events@.len() > 0 {
            Some(feed.events@.last().seq)
        } else {
            None
        },
        None => None,
    }
}

/// The board's fetch, when it is stale.
pub open spec fn issue_board(sb: bool, fl: Seq<(Seq<char>, u64)>, out: Seq<FetchView>, now: u64) -> (bool, Seq<(Seq<char>, u64)>, Seq<FetchView>) {
    if sb {
        let (ok, fl1, out1) = try_fetch(fl, out, now, "board"@, FetchView::Board);
        (!ok, fl1, out1)
    } else {
        (false, fl, out)
    }
}

/// The selected feature's fetch, when it is stale or was never read;
/// its open drawer and its feed ride along when it goes.
pub open spec fn issue_feature(
    sf: bool,
    c: Current,
    w: WantedView,
    fl: Seq<(Seq<char>, u64)>,
    out: Seq<FetchView>,
    now: u64,
) -> (bool, Seq<(Seq<char>, u64)>, Seq<FetchView>) {
    let (went, fl2, out2) = match w.feature {
        Some(id) => if sf || first_where(c.details@, detail_with(id)) is None {
            try_fetch(fl, out, now, "feature"@, FetchView::Feature(id))
        } else {
            (false, fl, out)
        },
        None => (false, fl, out),
    };
    if went {
        let (_, fla, outa) = match w.module {
            Some(mid) => try_fetch(fl2, out2, now, module_slot(mid), FetchView::Module(mid)),
            None => (false, fl2, out2),
        };
        let (_, flb, outb) = match w.feed {
            Some(fid) => try_fetch(fla, outa, now, feed_slot(fid, None), FetchView::Feed(fid, None)),
            None => (false, fla, outa),
        };
        (false, flb, outb)
    } else {
        (sf, fl2, out2)
    }
}

/// A drawer or a feed opened onto nothing held, and an older feed page
/// asked for.
pub open spec fn issue_opened(
    c: Current,
    w: WantedView,
    older: Option<Seq<char>>,
    fl: Seq<(Seq<char>, u64)>,
    out: Seq<FetchView>,
    now: u64,
) -> (Seq<(Seq<char>, u64)>, Seq<FetchView>) {
    let (_, fl4, out4) = match w.module {
        Some(mid) => if first_where(c.modules@, module_read_with(mid)) is None {
            try_fetch(fl, out, now, module_slot(mid), FetchView::Module(mid))
        } else {
            (false, fl, out)
        },
        None => (false, fl, out),
    };
    let (_, fl5, out5) = match w.feed {
        Some(fid) => if feed_for(c.feeds@, fid) is None {
            try_fetch(fl4, out4, now, feed_slot(fid, None), FetchView::Feed(fid, None))
        } else {
            (false, fl4, out4)
        },
        None => (false, fl4, out4),
    };
    let (_, fl6, out6) = match older {
        Some(fid) => match oldest_of(feed_for(c.feeds@, fid)) {
            Some(cursor) => try_fetch(fl5, out5, now, feed_slot(fid, Some(cursor)), FetchView::Feed(fid, Some(cursor))),
            None => (false, fl5, out5),
        },
        None => (false, fl5, out5),
    };
    (fl6, out6)
}

/// The pool page's and the open want's fetches, each when stale.
pub open spec fn issue_pool_want(
    sp: bool,
    sw: bool,
    w: WantedView,
    fl: Seq<(Seq<char>, u64)>,
    out: Seq<FetchView>,
    now: u64,
) -> (bool, bool, Seq<(Seq<char>, u64)>, Seq<FetchView>) {
    let (p_ok, fl7, out7) = match w.pool {
        Some(k) => if sp {
            try_fetch(fl, out, now, "pool"@, FetchView::Pool(k))
        } else {
            (false, fl, out)
        },
        None => (false, fl, out),
    };
    let (w_ok, fl8, out8) = match w.want {
        Some(id) => if sw {
            try_fetch(fl7, out7, now, "want"@, FetchView::Want(id))
        } else {
            (false, fl7, out7)
        },
        None => (false, fl7, out7),
    };
    (sp && !p_ok, sw && !w_ok, fl8, out8)
}

/// The fetches a frame issues, in order, with the slots and staleness
/// they leave: the board when stale; the selected feature when stale or
/// never read, its open drawer and feed riding along; a drawer or feed
/// opened onto nothing held; an older feed page asked for; the pool
/// page and the open want when stale. Each goes only if its slot is
/// free, and a stale flag clears only when its fetch goes.
pub open spec fn issued(
    marks: (bool, bool, bool, bool),
    c: Current,
    w: WantedView,
    older: Option<Seq<char>>,
    now: u64,
    fl0: Seq<(Seq<char>, u64)>,
) -> (Seq<FetchView>, Seq<(Seq<char>, u64)>, (bool, bool, bool, bool)) {
    let (sb, sf, sp, sw) = marks;
    let (sb1, fl1, out1) = issue_board(sb, fl0, Seq::empty(), now);
    let (sf1, fl2, out2) = issue_feature(sf, c, w, fl1, out1, now);
    let (fl3, out3) = issue_opened(c, w, older, fl2, out2, now);
    let (sp1, sw1, fl4, out4) = issue_pool_want(sp, sw, w, fl3, out3, now);
    (out4, fl4, (sb1, sf1, sp1, sw1))
}

fn try_issue(in_flight: &mut Vec<(String, u64)>, out: &mut Vec<Fetch>, now: u64, slot: &str, fetch: Fetch) -> (r: bool)
    ensures
        (r, flight_view(final(in_flight)@), fetches_view(final(out)@)) == try_fetch(
            flight_view(old(in_flight)@),
            fetches_view(old(out)@),
            now,
            slot@,
            fetch_view(fetch),
        ),
{
    let ok = claim(in_flight, now, slot);
    if ok {
        let ghost before = out@;
        let ghost fv = fetch_view(fetch);
        out.push(fetch);
        assert(fetches_view(out@) =~= fetches_view(before).push(fv));
    }
    ok
}

fn text_copy(s: &String) -> (r: String)
    ensures
        r@ == s@,
{
    s.clone()
}

fn do_board(sb: bool, in_flight: &mut Vec<(String, u64)>, out: &mut Vec<Fetch>, now: u64) -> (r: bool)
    ensures
        (r, flight_view(final(in_flight)@), fetches_view(final(out)@)) == issue_board(sb, flight_view(old(in_flight)@), fetches_view(old(out)@), now),
{
    if sb {
        let ok = try_issue(in_flight, out, now, "board", Fetch::Board);
        !ok
    } else {
        false
    }
}

fn do_feature(
    sf: bool,
    cur: &Current,
    w: &Wanted,
    in_flight: &mut Vec<(String, u64)>,
    out: &mut Vec<Fetch>,
    now: u64,
) -> (r: bool)
    ensures
        (r, flight_view(final(in_flight)@), fetches_view(final(out)@)) == issue_feature(sf, *cur, wanted_view(*w), flight_view(old(in_flight)@), fetches_view(old(out)@), now),
{
    let mut went = false;
    if let Some(id) = &w.feature {
        let due = sf || !crate::cache::has_detail(cur, id.as_str());
        if due {
            went = try_issue(in_flight, out, now, "feature", Fetch::Feature(text_copy(id)));
        }
    }
    if went {
        if let Some(mid) = &w.module {
            let slot = module_slot_of(mid.as_str());
            try_issue(in_flight, out, now, slot.as_str(), Fetch::Module(text_copy(mid)));
        }
        if let Some(f) = &w.feed {
            let slot = feed_slot_of(f.as_str(), None);
            try_issue(in_flight, out, now, slot.as_str(), Fetch::Feed { feature: text_copy(f), before: None });
        }
        false
    } else {
        sf
    }
}

fn do_opened(
    cur: &Current,
    w: &Wanted,
    older: &Option<String>,
    in_flight: &mut Vec<(String, u64)>,
    out: &mut Vec<Fetch>,
    now: u64,
)
    ensures
        (flight_view(final(in_flight)@), fetches_view(final(out)@)) == issue_opened(*cur, wanted_view(*w), crate::wire::opt_text(*older), flight_view(old(in_flight)@), fetches_view(old(out)@), now),
{
    if let Some(mid) = &w.module {
        if crate::cache::module_detail(cur, mid.as_str()).is_none() {
            let slot = module_slot_of(mid.as_str());
            try_issue(in_flight, out, now, slot.as_str(), Fetch::Module(text_copy(mid)));
        }
    }
    if let Some(f) = &w.feed {
        if crate::cache::feed(cur, f.as_str()).is_none() {
            let slot = feed_slot_of(f.as_str(), None);
            try_issue(in_flight, out, now, slot.as_str(), Fetch::Feed { feature: text_copy(f), before: None });
        }
    }
    if let Some(f) = older {
        let cursor = match crate::cache::feed(cur, f.as_str()) {
            Some(held) => held.oldest(),
            None => None,
        };
        if let Some(c) = cursor {
            let slot = feed_slot_of(f.as_str(), Some(c));
            try_issue(in_flight, out, now, slot.as_str(), Fetch::Feed { feature: text_copy(f), before: Some(c) });
        }
    }
}

fn do_pool_want(
    sp: bool,
    sw: bool,
    w: &Wanted,
    in_flight: &mut Vec<(String, u64)>,
    out: &mut Vec<Fetch>,
    now: u64,
) -> (r: (bool, bool))
    ensures
        (r.0, r.1, flight_view(final(in_flight)@), fetches_view(final(out)@)) == issue_pool_want(sp, sw, wanted_view(*w), flight_view(old(in_flight)@), fetches_view(old(out)@), now),
{
    let mut p_ok = false;
    if let Some(k) = &w.pool {
        if sp {
            p_ok = try_issue(in_flight, out, now, "pool", Fetch::Pool(copy_pool(k)));
        }
    }
    let mut w_ok = false;
    if let Some(id) = &w.want {
        if sw {
            w_ok = try_issue(in_flight, out, now, "want", Fetch::Want(text_copy(id)));
        }
    }
    (sp && !p_ok, sw && !w_ok)
}

fn mark(st: &mut SyncState, cur: &Current, frame: &Frame, w: &Wanted)
    requires
        wanted_view(*w) == wanted_of(*cur, frame.screen),
    ensures
        (final(st).stale_board, final(st).stale_feature, final(st).stale_pool, final(st).stale_want) == marked(*old(st), *cur, *frame),
        final(st).seen_seq == (if fresh_tick(*old(st), *frame) {
            frame.tick->0.seq
        } else {
            old(st).seen_seq
        }),
        final(st).seen_nudge == frame.nudge,
        final(st).last_poll == (if poll_due(*old(st), frame.now) {
            Some(frame.now)
        } else {
            old(st).last_poll
        }),
        final(st).in_flight == old(st).in_flight,
{
    let now = frame.now;
    let fid = crate::cache::feature_id_at(cur, frame.screen.feature);
    if let Some(tick) = &frame.tick {
        if tick.seq > st.seen_seq {
            st.seen_seq = tick.seq;
            st.stale_board = true;
            let untyped = tick.kind.as_str().is_empty();
            if untyped || same_opt_text(&tick.feature_id, &fid) {
                st.stale_feature = true;
            }
            if untyped || begins_with(tick.kind.as_str(), "want") || begins_with(tick.kind.as_str(), "tag") {
                st.stale_pool = true;
                st.stale_want = true;
            }
        }
    }
    if frame.nudge != st.seen_nudge {
        st.seen_nudge = frame.nudge;
        st.stale_board = true;
        st.stale_pool = true;
    }
    let poll = match st.last_poll {
        None => true,
        Some(t) => (if now >= t { now - t } else { 0 }) >= POLL_MICROS,
    };
    if poll {
        st.last_poll = Some(now);
        st.stale_board = true;
        st.stale_feature = true;
        st.stale_pool = true;
        st.stale_want = true;
    }
    if !same_opt_text(&w.feature, &st.last.feature) {
        st.stale_feature = true;
    }
    if !same_pool(&w.pool, &st.last.pool) {
        st.stale_pool = true;
    }
    if !same_opt_text(&w.want, &st.last.want) {
        st.stale_want = true;
    }
}

/// One frame of the scheduler: marks what the frame has made stale,
/// then issues the fetches that are due, in order, each through its
/// slot. Returns the fetches to perform.
pub fn step(st: &mut SyncState, cur: &Current, frame: &Frame) -> (r: Vec<Fetch>)
    ensures
        final(st).seen_seq == (if fresh_tick(*old(st), *frame) {
            frame.tick->0.seq
        } else {
            old(st).seen_seq
        }),
        final(st).seen_nudge == frame.nudge,
        final(st).last_poll == (if poll_due(*old(st), frame.now) {
            Some(frame.now)
        } else {
            old(st).last_poll
        }),
        wanted_view(final(st).last) == wanted_of(*cur, frame.screen),
        (fetches_view(r@), flight_view(final(st).in_flight@), (
            final(st).stale_board,
            final(st).stale_feature,
            final(st).stale_pool,
            final(st).stale_want,
        )) == issued(
            marked(*old(st), *cur, *frame),
            *cur,
            wanted_of(*cur, frame.screen),
            crate::wire::opt_text(frame.older),
            frame.now,
            flight_view(old(st).in_flight@),
        ),
{
    let now = frame.now;
    let w = wanted(cur, &frame.screen);
    mark(st, cur, frame, &w);
    let mut out: Vec<Fetch> = Vec::new();
    assert(fetches_view(out@) =~= Seq::<FetchView>::empty());
    let sb = do_board(st.stale_board, &mut st.in_flight, &mut out, now);
    let sf = do_feature(st.stale_feature, cur, &w, &mut st.in_flight, &mut out, now);
    do_opened(cur, &w, &frame.older, &mut st.in_flight, &mut out, now);
    let (sp, sw) = do_pool_want(st.stale_pool, st.stale_want, &w, &mut st.in_flight, &mut out, now);
    st.stale_board = sb;
    st.stale_feature = sf;
    st.stale_pool = sp;
    st.stale_want = sw;
    st.last = w;
    out
}

// ---------------------------------------------------------------------
// Landing what came back
// ---------------------------------------------------------------------

/// No read for this slot is on its way.
pub open spec fn slot_free(fl: Seq<(Seq<char>, u64)>, slot: Seq<char>) -> bool {
    forall|j: int| 0 <= j < fl.len() ==> (#[trigger] fl[j]).0 != slot
}

/// Either the fetch is already out, or its slot is still free.
spec fn out_or_free(fl: Seq<(Seq<char>, u64)>, out: Seq<FetchView>, slot: Seq<char>, f: FetchView) -> bool {
    out.contains(f) || slot_free(fl, slot)
}

proof fn lemma_take_other(fl: Seq<(Seq<char>, u64)>, now: u64, other: Seq<char>, slot: Seq<char>)
    requires
        slot_free(fl, slot),
        other != slot,
    ensures
        slot_free(take_slot(fl, now, other).1, slot),
{
    lemma_first_is_first(fl, slot_with(other));
    let after = take_slot(fl, now, other).1;
    assert forall|j: int| 0 <= j < after.len() implies (#[trigger] after[j]).0 != slot by {
        if j < fl.len() {
            if after[j] != fl[j] {
                assert(after[j] == (other, now));
            }
        } else {
            assert(after[j] == (other, now));
        }
    }
}

proof fn lemma_try_keeps(fl: Seq<(Seq<char>, u64)>, out: Seq<FetchView>, now: u64, slot: Seq<char>, f: FetchView, x: FetchView)
    requires
        out.contains(x),
    ensures
        try_fetch(fl, out, now, slot, f).2.contains(x),
{
    let k = choose|k: int| 0 <= k < out.len() && out[k] == x;
    assert(try_fetch(fl, out, now, slot, f).2[k] == x);
}

proof fn lemma_try_ready(
    fl: Seq<(Seq<char>, u64)>,
    out: Seq<FetchView>,
    now: u64,
    slot: Seq<char>,
    f: FetchView,
    want_slot: Seq<char>,
    want: FetchView,
)
    requires
        out_or_free(fl, out, want_slot, want),
        slot != want_slot || f == want,
    ensures
        out_or_free(try_fetch(fl, out, now, slot, f).1, try_fetch(fl, out, now, slot, f).2, want_slot, want),
        slot == want_slot && slot_free(fl, slot) ==> try_fetch(fl, out, now, slot, f).2.contains(want),
{
    if out.contains(want) {
        lemma_try_keeps(fl, out, now, slot, f, want);
    }
    if slot_free(fl, want_slot) {
        if slot != want_slot {
            lemma_take_other(fl, now, slot, want_slot);
        } else {
            lemma_none_found(fl, slot_with(slot));
            let o = try_fetch(fl, out, now, slot, f).2;
            assert(o == out.push(f));
            assert(o[out.len() as int] == want);
        }
    }
}

proof fn lemma_slot_names(mid: Seq<char>, fid: Seq<char>, before: Option<i64>)
    ensures
        module_slot(mid) != "board"@,
        module_slot(mid) != "feature"@,
        module_slot(mid) != "pool"@,
        module_slot(mid) != "want"@,
        module_slot(mid) != feed_slot(fid, before),
{
    reveal_strlit("module:");
    reveal_strlit("board");
    reveal_strlit("feature");
    reveal_strlit("pool");
    reveal_strlit("want");
    reveal_strlit("feed:");
    assert(module_slot(mid)[0] == 'm');
    assert("board"@[0] == 'b');
    assert("feature"@[0] == 'f');
    assert("pool"@[0] == 'p');
    assert("want"@[0] == 'w');
    assert(feed_slot(fid, before)[0] == 'f');
}

/// An open drawer loads: while the feature pane shows a feature and a
/// module is selected whose drawer read is not held, a frame with that
/// module's slot free fetches it.
pub proof fn law_open_module_fetched(
    marks: (bool, bool, bool, bool),
    c: Current,
    s: Screen,
    older: Option<Seq<char>>,
    now: u64,
    fl0: Seq<(Seq<char>, u64)>,
)
    requires
        s.pane@ == "feature"@,
        s.feature < c.features@.len(),
        s.selected is Some,
        first_where(c.modules@, module_read_with(s.selected->0@)) is None,
        slot_free(fl0, module_slot(s.selected->0@)),
    ensures
        wanted_of(c, s).module == Some(s.selected->0@),
        issued(marks, c, wanted_of(c, s), older, now, fl0).0.contains(FetchView::Module(s.selected->0@)),
{
    let w = wanted_of(c, s);
    let mid = s.selected->0@;
    let sl = module_slot(mid);
    let mv = FetchView::Module(mid);
    let fid = w.feature->0;
    lemma_slot_names(mid, fid, None);
    let (sb, sf, sp, sw) = marks;
    // The board.
    let out0 = Seq::<FetchView>::empty();
    if sb {
        lemma_try_ready(fl0, out0, now, "board"@, FetchView::Board, sl, mv);
    }
    let (sb1, fl1, out1) = issue_board(sb, fl0, out0, now);
    assert(out_or_free(fl1, out1, sl, mv));
    // The feature, its drawer and its feed riding along.
    let went_try = sf || first_where(c.details@, detail_with(fid)) is None;
    if went_try {
        lemma_try_ready(fl1, out1, now, "feature"@, FetchView::Feature(fid), sl, mv);
        let (went, fl2, out2) = try_fetch(fl1, out1, now, "feature"@, FetchView::Feature(fid));
        if went {
            lemma_try_ready(fl2, out2, now, sl, mv, sl, mv);
            let (_, fla, outa) = try_fetch(fl2, out2, now, sl, mv);
            match w.feed {
                Some(f) => {
                    lemma_slot_names(mid, f, None);
                    lemma_try_ready(fla, outa, now, feed_slot(f, None), FetchView::Feed(f, None), sl, mv);
                },
                None => {},
            }
        }
    }
    let (sf1, fl2, out2) = issue_feature(sf, c, w, fl1, out1, now);
    assert(out_or_free(fl2, out2, sl, mv));
    // The drawer opened onto nothing held.
    lemma_try_ready(fl2, out2, now, sl, mv, sl, mv);
    if out2.contains(mv) {
        lemma_try_keeps(fl2, out2, now, sl, mv, mv);
    }
    let (_, fl4, out4) = try_fetch(fl2, out2, now, sl, mv);
    assert(out4.contains(mv));
    match w.feed {
        Some(f) => {
            lemma_try_keeps(fl4, out4, now, feed_slot(f, None), FetchView::Feed(f, None), mv);
        },
        None => {},
    }
    let (_, fl5, out5) = match w.feed {
        Some(f) => if feed_for(c.feeds@, f) is None {
            try_fetch(fl4, out4, now, feed_slot(f, None), FetchView::Feed(f, None))
        } else {
            (false, fl4, out4)
        },
        None => (false, fl4, out4),
    };
    assert(out5.contains(mv));
    match older {
        Some(f) => match oldest_of(feed_for(c.feeds@, f)) {
            Some(cursor) => {
                lemma_try_keeps(fl5, out5, now, feed_slot(f, Some(cursor)), FetchView::Feed(f, Some(cursor)), mv);
            },
            None => {},
        },
        None => {},
    }
    let (fl3, out3) = issue_opened(c, w, older, fl2, out2, now);
    assert(out3.contains(mv));
    // The pool and the open want.
    match w.pool {
        Some(k) => {
            lemma_try_keeps(fl3, out3, now, "pool"@, FetchView::Pool(k), mv);
        },
        None => {},
    }
    let (p_ok, fl7, out7) = match w.pool {
        Some(k) => if sp {
            try_fetch(fl3, out3, now, "pool"@, FetchView::Pool(k))
        } else {
            (false, fl3, out3)
        },
        None => (false, fl3, out3),
    };
    assert(out7.contains(mv));
    match w.want {
        Some(id) => {
            lemma_try_keeps(fl7, out7, now, "want"@, FetchView::Want(id), mv);
        },
        None => {},
    }
}

/// The last page of the pool that exists for `total` wants: page zero
/// when there are none.
pub open spec fn last_page(total: i64) -> int {
    let n = crate::reads::count_of(total) as int;
    let pages = (n + POOL_PAGE - 1) / (POOL_PAGE as int);
    if pages > 1 { pages - 1 } else { 0 }
}

/// Where the pool pager goes once a page lands: a tick can shrink the
/// pool under the page the reader is on, and then it steps back to the
/// last page that exists. `None` leaves it where it is.
pub fn pool_page_after(asked: usize, total: i64) -> (r: Option<usize>)
    ensures
        asked > last_page(total) ==> r == Some(last_page(total) as usize),
        asked <= last_page(total) ==> r is None,
{
    let n = crate::reads::count(total);
    let pages = n / POOL_PAGE + if n % POOL_PAGE > 0 { 1 } else { 0 };
    assert(pages == (n + POOL_PAGE - 1) / (POOL_PAGE as int)) by (nonlinear_arith)
        requires
            pages == n / 20 + (if n % 20 > 0 { 1int } else { 0int }),
            POOL_PAGE == 20,
    ;
    let last = if pages > 1 { pages - 1 } else { 0 };
    if asked > last {
        Some(last)
    } else {
        None
    }
}

/// Whether the host is refusing the console's key once a board read has
/// answered: any board clears it, a 401 sets it, and any other failure
/// leaves it as it was. `status` is the HTTP status of a host refusal.
pub fn denied_after(was: bool, ok: bool, status: Option<u16>) -> (r: bool)
    ensures
        r == (if ok {
            false
        } else if status == Some(401u16) {
            true
        } else {
            was
        }),
{
    if ok {
        false
    } else {
        match status {
            Some(code) => if code == 401 {
                true
            } else {
                was
            },
            None => was,
        }
    }
}

/// Which feature the console lands on once a board arrives: only the
/// first board that changes anything moves the selection, to the first
/// feature still in play. A later one must not steal the feature the
/// reader is on.
pub fn landing_feature(first_load: bool, changed: bool, cur: &Current) -> (r: Option<usize>)
    ensures
        !(first_load && changed) ==> r is None,
        first_load && changed ==> match first_where(cur.features@, |f: crate::model::Feature| crate::model::in_play(f)) {
            Some(k) => r is Some && r->0 == k,
            None => r is None,
        },
{
    if first_load && changed {
        crate::cache::first_open_feature(cur)
    } else {
        None
    }
}

/// The open module's place in the selected feature's graph, by id: the
/// graph may not have loaded yet when the drawer is asked for, and it
/// arrives a read later.
pub fn drawer_target(cur: &Current, feature: usize, module_id: &str) -> (r: Option<usize>)
    ensures
        feature >= cur.features@.len() ==> r is None,
        feature < cur.features@.len() ==> match first_where(cur.features@[feature as int].modules@, crate::model::module_with(module_id@)) {
            Some(k) => r is Some && r->0 == k,
            None => r is None,
        },
{
    if feature < cur.features.len() {
        cur.features[feature].module_index(module_id)
    } else {
        None
    }
}

} // verus!
