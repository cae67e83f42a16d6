//! What the main pane, the nav and a roadmap card show: which of a
//! feature's views is up, the nav's destinations with their counts, and
//! a roadmap item's card read off the cache.
use vstd::prelude::*;

use crate::cache::Current;
use crate::edits::item_by_id;
use crate::model::{Feature, RoadEdge, RoadFeature, RoadItem, Roadmap, RoadState, Status, in_play, road_state_label, road_state_status, released_count};
use crate::seqs::{positions, count};
use crate::text::{dec, push_decimal, same_text, trim, trimmed};

verus! {

// ---------------------------------------------------------------------
// The main pane
// ---------------------------------------------------------------------

/// The view a feature's pane shows under its head.
#[derive(Clone, Copy, Debug, PartialEq, Eq, Structural)]
pub enum PaneView {
    Graph,
    Whitepaper,
    Feed,
    Origin,
    Files,
    Discussion,
    /// An unknown view name: the head alone.
    Blank,
}

/// The view a tab id names.
pub open spec fn view_named(id: Seq<char>) -> PaneView {
    if id == "graph"@ {
        PaneView::Graph
    } else if id == "whitepaper"@ {
        PaneView::Whitepaper
    } else if id == "feed"@ {
        PaneView::Feed
    } else if id == "origin"@ {
        PaneView::Origin
    } else if id == "files"@ {
        PaneView::Files
    } else if id == "discussion"@ {
        PaneView::Discussion
    } else {
        PaneView::Blank
    }
}

/// The view a tab id names.
pub fn pane_view(id: &str) -> (r: PaneView)
    ensures
        r == view_named(id@),
{
    if same_text(id, "graph") {
        PaneView::Graph
    } else if same_text(id, "whitepaper") {
        PaneView::Whitepaper
    } else if same_text(id, "feed") {
        PaneView::Feed
    } else if same_text(id, "origin") {
        PaneView::Origin
    } else if same_text(id, "files") {
        PaneView::Files
    } else if same_text(id, "discussion") {
        PaneView::Discussion
    } else {
        PaneView::Blank
    }
}

/// The line above a discussion whose feature has open questions.
pub open spec fn pending_text(n: nat) -> Seq<char> {
    dec(n) + " open question"@ + (if n == 1 {
        Seq::empty()
    } else {
        "s"@
    }) + " \u{2014} nothing in this feature is dispatchable until answered."@
}

/// `n open questions — nothing in this feature is dispatchable until
/// answered.`
pub fn pending_line(n: usize) -> (r: String)
    ensures
        r@ == pending_text(n as nat),
{
    let mut out = String::new();
    push_decimal(&mut out, n as u128);
    out.append(" open question");
    if n != 1 {
        out.append("s");
    }
    out.append(" \u{2014} nothing in this feature is dispatchable until answered.");
    out
}

/// What an empty graph says: the graph has not been read yet, or it has
/// and holds nothing.
pub fn graph_blank(detail_loaded: bool) -> (r: &'static str)
    ensures
        r@ == (if detail_loaded {
            "No modules planned."@
        } else {
            "Loading the graph\u{2026}"@
        }),
{
    if detail_loaded {
        "No modules planned."
    } else {
        "Loading the graph\u{2026}"
    }
}

/// The pane with no feature to show: its title, its line, and whether
/// the "New plan" button is offered, by whether the board has loaded.
pub fn empty_pane(loaded: bool) -> (r: (&'static str, &'static str, bool))
    ensures
        r.0@ == (if loaded { "No features yet"@ } else { "Connecting to mcpm\u{2026}"@ }),
        r.1@ == (if loaded {
            "Plan the first one here, or connect an agent to the `mcpm` MCP server and call plan_feature."@
        } else {
            "Start the API host: cargo run -p api --bin mcpm-web --features server"@
        }),
        r.2 == loaded,
{
    if loaded {
        (
            "No features yet",
            "Plan the first one here, or connect an agent to the `mcpm` MCP server and call plan_feature.",
            true,
        )
    } else {
        ("Connecting to mcpm\u{2026}", "Start the API host: cargo run -p api --bin mcpm-web --features server", false)
    }
}

/// Whether the feature list's filters are set, so "Clear filters" shows.
pub fn feature_filters_set(query: &str, status: &str) -> (b: bool)
    ensures
        b == !(query@.len() == 0 && status@ == "all"@),
{
    !(query.unicode_len() == 0 && same_text(status, "all"))
}

/// Whether the want pool's filters are set, so "Clear filters" shows:
/// a query, a state other than "all", or a tag.
pub fn pool_filters_set(query: &str, status: &str, tags: &Vec<String>) -> (b: bool)
    ensures
        b == (query@.len() > 0 || status@ != "all"@ || tags@.len() > 0),
{
    query.unicode_len() > 0 || !same_text(status, "all") || tags.len() > 0
}

// ---------------------------------------------------------------------
// The nav
// ---------------------------------------------------------------------

/// One destination in the nav.
#[derive(Debug, PartialEq, Eq)]
pub struct NavEntry {
    pub id: &'static str,
    pub glyph: &'static str,
    pub label: &'static str,
    /// Trailing count; zero shows no badge.
    pub count: usize,
    /// The count is something to drain rather than a plain total.
    pub urgent: bool,
    pub selected: bool,
}

/// A nav entry as id, label, count, urgency and selection.
pub open spec fn nav_is(e: NavEntry, id: Seq<char>, label: Seq<char>, count: nat, urgent: bool, selected: bool) -> bool {
    &&& e.id@ == id
    &&& e.label@ == label
    &&& e.count == count
    &&& e.urgent == urgent
    &&& e.selected == selected
}

/// The nav's destinations for the pane showing: the feature count, the
/// roadmap items ready to ship, and the loose wants ride their entries.
/// Both a feature and the feature list light "Features".
pub fn nav_entries(pane: &str, total: usize, loose: usize, ready: usize) -> (r: Vec<NavEntry>)
    ensures
        r@.len() == 6,
        nav_is(r@[0], "overview"@, "Overview"@, 0, false, pane@ == "overview"@),
        nav_is(r@[1], "features"@, "Features"@, total as nat, false, pane@ == "feature"@ || pane@ == "features"@),
        nav_is(r@[2], "roadmap"@, "Roadmap"@, ready as nat, true, pane@ == "roadmap"@),
        nav_is(r@[3], "wants"@, "Want pool"@, loose as nat, true, pane@ == "wants"@),
        nav_is(r@[4], "capture"@, "Capture"@, 0, false, pane@ == "capture"@),
        nav_is(r@[5], "knowledge"@, "Knowledge"@, 0, false, pane@ == "knowledge"@),
{
    let on_feature = same_text(pane, "feature") || same_text(pane, "features");
    let mut out: Vec<NavEntry> = Vec::new();
    out.push(NavEntry {
        id: "overview",
        glyph: "\u{25c7}",
        label: "Overview",
        count: 0,
        urgent: false,
        selected: same_text(pane, "overview"),
    });
    out.push(NavEntry {
        id: "features",
        glyph: "\u{25a4}",
        label: "Features",
        count: total,
        urgent: false,
        selected: on_feature,
    });
    out.push(NavEntry {
        id: "roadmap",
        glyph: "\u{25b3}",
        label: "Roadmap",
        count: ready,
        urgent: true,
        selected: same_text(pane, "roadmap"),
    });
    out.push(NavEntry {
        id: "wants",
        glyph: "\u{25cb}",
        label: "Want pool",
        count: loose,
        urgent: true,
        selected: same_text(pane, "wants"),
    });
    out.push(NavEntry {
        id: "capture",
        glyph: "\u{270e}",
        label: "Capture",
        count: 0,
        urgent: false,
        selected: same_text(pane, "capture"),
    });
    out.push(NavEntry {
        id: "knowledge",
        glyph: "\u{25c8}",
        label: "Knowledge",
        count: 0,
        urgent: false,
        selected: same_text(pane, "knowledge"),
    });
    out
}

/// The rail's scope: how many features are in play, of how many.
pub fn scope_label(features: &[Feature]) -> (r: String)
    ensures
        r@ == dec(positions(features@, |i: int, f: Feature| in_play(f)).len()) + " of "@ + dec(features@.len()),
{
    let playing = crate::model::in_play_of(features);
    let mut out = String::new();
    push_decimal(&mut out, playing.len() as u128);
    out.append(" of ");
    push_decimal(&mut out, features.len() as u128);
    out
}

// ---------------------------------------------------------------------
// A roadmap card
// ---------------------------------------------------------------------

/// What a roadmap item's card shows.
#[derive(Debug, PartialEq, Eq)]
pub struct RoadCard {
    pub name: String,
    /// The intent, or the instruction to write one.
    pub intent: String,
    pub state_label: String,
    /// The board status whose tone the state borrows.
    pub status: Status,
    /// `2/3 features released`, or the blank state.
    pub feature_line: String,
    /// One chip per prerequisite still holding it.
    pub waits: Vec<String>,
    /// One chip per item it holds.
    pub unlocks: Vec<String>,
}

/// What an item with no intent says instead.
pub open spec fn no_intent() -> Seq<char> {
    "No intent written. An item without one teaches nobody anything."@
}

/// A holding prerequisite's chip; a hard one says so.
pub open spec fn wait_chip(e: RoadEdge) -> Seq<char> {
    if e.hard {
        "waits on "@ + e.name@ + " \u{b7} hard"@
    } else {
        "waits on "@ + e.name@
    }
}

/// The chips of the prerequisites that have not shipped.
pub open spec fn wait_chips(es: Seq<RoadEdge>) -> Seq<Seq<char>>
    decreases es.len(),
{
    if es.len() == 0 {
        Seq::empty()
    } else {
        let rest = wait_chips(es.drop_last());
        if es.last().shipped {
            rest
        } else {
            rest.push(wait_chip(es.last()))
        }
    }
}

/// The card an item reads as; an item the cache lacks reads blank and
/// in the future.
pub open spec fn road_card_of(item: Option<RoadItem>, card: RoadCard) -> bool {
    let state = match item {
        Some(i) => i.state,
        None => RoadState::Future,
    };
    &&& card.state_label@ == road_state_label(state)
    &&& card.status == road_state_status(state)
    &&& match item {
        Some(i) => {
            &&& card.name@ == i.name@
            &&& card.intent@ == (if trimmed(i.intent@).len() == 0 {
                no_intent()
            } else {
                i.intent@
            })
            &&& card.feature_line@ == (if i.features@.len() == 0 {
                "No features bound"@
            } else {
                dec(released_count(i.features@)) + "/"@ + dec(i.features@.len()) + " features released"@
            })
            &&& card.waits.deep_view() == wait_chips(i.depends_on@)
            &&& card.unlocks.deep_view() == i.unlocks@.map_values(|e: RoadEdge| "unlocks "@ + e.name@)
        },
        None => {
            &&& card.name@.len() == 0
            &&& card.intent@ == no_intent()
            &&& card.feature_line@.len() == 0
            &&& card.waits@.len() == 0
            &&& card.unlocks@.len() == 0
        },
    }
}

/// The card for the roadmap item with this id.
pub fn road_card(cur: &Current, id: &str) -> (r: RoadCard)
    ensures
        road_card_of(item_by_id(cur.roadmap.items@, id@), r),
{
    match cur.roadmap.item(id) {
        None => RoadCard {
            name: String::new(),
            intent: String::from_str("No intent written. An item without one teaches nobody anything."),
            state_label: String::from_str(RoadState::Future.label()),
            status: RoadState::Future.status(),
            feature_line: String::new(),
            waits: Vec::new(),
            unlocks: Vec::new(),
        },
        Some(i) => {
            let intent = if trim(i.intent.as_str()).unicode_len() == 0 {
                String::from_str("No intent written. An item without one teaches nobody anything.")
            } else {
                i.intent.clone()
            };
            let es = &i.depends_on;
            let mut waits: Vec<String> = Vec::new();
            let mut k: usize = 0;
            while k < es.len()
                invariant
                    k <= es@.len(),
                    waits.deep_view() == wait_chips(es@.take(k as int)),
                decreases es.len() - k,
            {
                assert(es@.take(k as int + 1).drop_last() =~= es@.take(k as int));
                let e = &es[k];
                if !e.shipped {
                    let mut chip = String::from_str("waits on ");
                    chip.append(e.name.as_str());
                    if e.hard {
                        chip.append(" \u{b7} hard");
                    }
                    let ghost before = waits.deep_view();
                    waits.push(chip);
                    assert(waits.deep_view() =~= before.push(wait_chip(*e)));
                }
                k = k + 1;
            }
            assert(es@.take(k as int) =~= es@);
            let us = &i.unlocks;
            let mut unlocks: Vec<String> = Vec::new();
            let mut k: usize = 0;
            while k < us.len()
                invariant
                    k <= us@.len(),
                    unlocks.deep_view() =~= us@.take(k as int).map_values(|e: RoadEdge| "unlocks "@ + e.name@),
                decreases us.len() - k,
            {
                let mut chip = String::from_str("unlocks ");
                chip.append(us[k].name.as_str());
                let ghost before = unlocks.deep_view();
                unlocks.push(chip);
                assert(us@.take(k as int + 1).map_values(|e: RoadEdge| "unlocks "@ + e.name@) =~= before.push(
                    "unlocks "@ + us@[k as int].name@,
                ));
                k = k + 1;
            }
            assert(us@.take(k as int) =~= us@);
            RoadCard {
                name: i.name.clone(),
                intent,
                state_label: String::from_str(i.state.label()),
                status: i.state.status(),
                feature_line: i.feature_line(),
                waits,
                unlocks,
            }
        },
    }
}

// ---------------------------------------------------------------------
// Summary lines
// ---------------------------------------------------------------------

/// The overview's line under the project name.
pub fn overview_meta(playing: usize, agents: usize, loose: usize) -> (r: String)
    ensures
        r@ == dec(playing as nat) + " features in play \u{b7} "@ + dec(agents as nat) + " agents working \u{b7} "@
            + dec(loose as nat) + " loose ideas"@,
{
    let mut s = String::new();
    push_decimal(&mut s, playing as u128);
    s.append(" features in play \u{b7} ");
    push_decimal(&mut s, agents as u128);
    s.append(" agents working \u{b7} ");
    push_decimal(&mut s, loose as u128);
    s.append(" loose ideas");
    s
}

/// The roadmap's line: items on it, shipped, ready to ship, and the
/// features bound to none.
pub open spec fn roadmap_text(r: Roadmap) -> Seq<char> {
    let items = count(r.items@, |i: RoadItem| !i.shelved);
    let shipped = count(r.items@, |i: RoadItem| i.state == RoadState::Shipped);
    let ready = count(r.items@, |i: RoadItem| i.state == RoadState::Ready);
    let loose = r.loose_features@.len();
    dec(items) + " item"@ + (if items == 1 {
        Seq::empty()
    } else {
        "s"@
    }) + " \u{b7} "@ + dec(shipped) + " shipped \u{b7} "@ + dec(ready) + " ready to ship \u{b7} "@ + dec(loose)
        + " loose feature"@ + (if loose == 1 {
        Seq::empty()
    } else {
        "s"@
    })
}

/// How many items pass `p`.
fn count_items(items: &Vec<RoadItem>, shelved_only_not: bool, state: Option<RoadState>) -> (r: usize)
    ensures
        shelved_only_not ==> r == count(items@, |i: RoadItem| !i.shelved),
        !shelved_only_not && state is Some ==> r == count(items@, |i: RoadItem| i.state == state->0),
{
    let mut n: usize = 0;
    let mut k: usize = 0;
    while k < items.len()
        invariant
            k <= items@.len(),
            n <= k,
            shelved_only_not ==> n == count(items@.take(k as int), |i: RoadItem| !i.shelved),
            !shelved_only_not && state is Some ==> n == count(items@.take(k as int), |i: RoadItem| i.state == state->0),
        decreases items.len() - k,
    {
        proof {
            crate::seqs::lemma_count_step(items@, |i: RoadItem| !i.shelved, k as int);
            if state is Some {
                crate::seqs::lemma_count_step(items@, |i: RoadItem| i.state == state->0, k as int);
            }
        }
        let hit = if shelved_only_not {
            !items[k].shelved
        } else {
            match state {
                Some(st) => items[k].state == st,
                None => false,
            }
        };
        if hit {
            n = n + 1;
        }
        k = k + 1;
    }
    assert(items@.take(k as int) =~= items@);
    n
}

/// The roadmap's line.
pub fn roadmap_meta(road: &Roadmap) -> (r: String)
    ensures
        r@ == roadmap_text(*road),
{
    let items = count_items(&road.items, true, None);
    let shipped = count_items(&road.items, false, Some(RoadState::Shipped));
    let ready = count_items(&road.items, false, Some(RoadState::Ready));
    let loose = road.loose_features.len();
    let mut s = String::new();
    push_decimal(&mut s, items as u128);
    s.append(" item");
    if items != 1 {
        s.append("s");
    }
    s.append(" \u{b7} ");
    push_decimal(&mut s, shipped as u128);
    s.append(" shipped \u{b7} ");
    push_decimal(&mut s, ready as u128);
    s.append(" ready to ship \u{b7} ");
    push_decimal(&mut s, loose as u128);
    s.append(" loose feature");
    if loose != 1 {
        s.append("s");
    }
    s
}

// ---------------------------------------------------------------------
// A roadmap item's panel and its features
// ---------------------------------------------------------------------

/// What an item's panel shows besides the card.
#[derive(Debug)]
pub struct RoadPanelFacts {
    /// `Shipped <when> by <who>`, or empty.
    pub shipped: String,
    /// Each prerequisite, marked hard and shipped where it is.
    pub waits: Vec<String>,
    pub unlocks: Vec<String>,
    pub has_vision: bool,
}

/// A prerequisite as the panel lists it.
pub open spec fn edge_line(e: RoadEdge) -> Seq<char> {
    e.name@ + (if e.hard {
        " \u{b7} hard"@
    } else {
        Seq::empty()
    }) + (if e.shipped {
        " \u{b7} shipped"@
    } else {
        Seq::empty()
    })
}

/// An item's panel.
pub fn road_panel(item: &RoadItem) -> (r: RoadPanelFacts)
    ensures
        r.shipped@ == (if item.shipped_at@.len() == 0 {
            Seq::empty()
        } else {
            "Shipped "@ + item.shipped_at@ + " by "@ + item.shipped_by@
        }),
        r.waits.deep_view() == item.depends_on@.map_values(|e: RoadEdge| edge_line(e)),
        r.unlocks.deep_view() == item.unlocks@.map_values(|e: RoadEdge| e.name@),
        r.has_vision == (trimmed(item.vision@).len() > 0),
{
    let shipped = if item.shipped_at.unicode_len() == 0 {
        String::new()
    } else {
        let mut s = String::from_str("Shipped ");
        s.append(item.shipped_at.as_str());
        s.append(" by ");
        s.append(item.shipped_by.as_str());
        s
    };
    let es = &item.depends_on;
    let mut waits: Vec<String> = Vec::new();
    let mut k: usize = 0;
    while k < es.len()
        invariant
            k <= es@.len(),
            waits.deep_view() =~= es@.take(k as int).map_values(|e: RoadEdge| edge_line(e)),
        decreases es.len() - k,
    {
        let e = &es[k];
        let mut line = e.name.clone();
        if e.hard {
            line.append(" \u{b7} hard");
        }
        if e.shipped {
            line.append(" \u{b7} shipped");
        }
        let ghost before = waits.deep_view();
        waits.push(line);
        assert(es@.take(k as int + 1).map_values(|e: RoadEdge| edge_line(e)) =~= before.push(edge_line(*e)));
        k = k + 1;
    }
    assert(es@.take(k as int) =~= es@);
    let us = &item.unlocks;
    let mut unlocks: Vec<String> = Vec::new();
    let mut k: usize = 0;
    while k < us.len()
        invariant
            k <= us@.len(),
            unlocks.deep_view() =~= us@.take(k as int).map_values(|e: RoadEdge| e.name@),
        decreases us.len() - k,
    {
        let ghost before = unlocks.deep_view();
        unlocks.push(us[k].name.clone());
        assert(us@.take(k as int + 1).map_values(|e: RoadEdge| e.name@) =~= before.push(us@[k as int].name@));
        k = k + 1;
    }
    assert(us@.take(k as int) =~= us@);
    RoadPanelFacts { shipped, waits, unlocks, has_vision: trim(item.vision.as_str()).unicode_len() > 0 }
}

/// A roadmap feature with the id.
pub open spec fn road_feature_with(id: Seq<char>) -> spec_fn(RoadFeature) -> bool {
    |f: RoadFeature| f.id@ == id
}

/// The first feature with the id under the items, in order.
pub open spec fn bound_feature(items: Seq<RoadItem>, id: Seq<char>) -> Option<RoadFeature>
    decreases items.len(),
{
    if items.len() == 0 {
        None
    } else {
        match crate::seqs::first_where(items[0].features@, road_feature_with(id)) {
            Some(k) => Some(items[0].features@[k]),
            None => bound_feature(items.drop_first(), id),
        }
    }
}

/// A feature as the roadmap lists it: under an item, else loose.
pub open spec fn road_feature_of(r: Roadmap, id: Seq<char>) -> Option<RoadFeature> {
    match bound_feature(r.items@, id) {
        Some(f) => Some(f),
        None => match crate::seqs::first_where(r.loose_features@, road_feature_with(id)) {
            Some(k) => Some(r.loose_features@[k]),
            None => None,
        },
    }
}

/// What a feature's row under an item shows.
#[derive(Debug)]
pub struct RoadFeatureFacts {
    pub name: String,
    /// "out" once released, "unreleased" once done but not out, else
    /// nothing: an unfinished feature says so with its bar.
    pub ship_state: &'static str,
    /// `modules done/total`, or empty.
    pub counts: String,
}

fn first_road_feature(fs: &Vec<RoadFeature>, id: &str) -> (r: Option<usize>)
    ensures
        match crate::seqs::first_where(fs@, road_feature_with(id@)) {
            Some(k) => r is Some && r->0 == k,
            None => r is None,
        },
{
    let mut k: usize = 0;
    while k < fs.len()
        invariant
            k <= fs@.len(),
            forall|q: int| 0 <= q < k ==> !(#[trigger] road_feature_with(id@)(fs@[q])),
        decreases fs.len() - k,
    {
        if same_text(fs[k].id.as_str(), id) {
            proof {
                crate::seqs::lemma_first_found(fs@, road_feature_with(id@), k as int);
            }
            return Some(k);
        }
        k = k + 1;
    }
    proof {
        crate::seqs::lemma_none_found(fs@, road_feature_with(id@));
    }
    None
}

/// The first feature with the id under the items.
fn bound_in<'a>(items: &'a Vec<RoadItem>, id: &str) -> (r: Option<&'a RoadFeature>)
    ensures
        match bound_feature(items@, id@) {
            Some(f) => r matches Some(x) && *x == f,
            None => r is None,
        },
{
    let mut k: usize = 0;
    assert(items@.subrange(0, items@.len() as int) =~= items@);
    while k < items.len()
        invariant
            k <= items@.len(),
            bound_feature(items@, id@) == bound_feature(items@.subrange(k as int, items@.len() as int), id@),
        decreases items.len() - k,
    {
        let ghost rest = items@.subrange(k as int, items@.len() as int);
        assert(rest[0] == items@[k as int]);
        assert(rest.drop_first() =~= items@.subrange(k as int + 1, items@.len() as int));
        match first_road_feature(&items[k].features, id) {
            Some(j) => {
                return Some(&items[k].features[j]);
            },
            None => {},
        }
        k = k + 1;
    }
    assert(items@.subrange(k as int, items@.len() as int) =~= Seq::<RoadItem>::empty());
    None
}

/// A feature's row under a roadmap item.
pub fn road_feature_row(road: &Roadmap, id: &str) -> (r: RoadFeatureFacts)
    ensures
        match road_feature_of(*road, id@) {
            Some(f) => {
                &&& r.name@ == f.name@
                &&& r.ship_state@ == (if f.released {
                    "out"@
                } else if f.status@ == "done"@ {
                    "unreleased"@
                } else {
                    Seq::empty()
                })
                &&& r.counts@ == dec(f.modules_done as nat) + "/"@ + dec(f.modules_total as nat)
            },
            None => r.name@.len() == 0 && r.ship_state@.len() == 0 && r.counts@.len() == 0,
        },
{
    proof {
        reveal_strlit("");
    }
    let f: Option<&RoadFeature> = match bound_in(&road.items, id) {
        Some(f) => Some(f),
        None => match first_road_feature(&road.loose_features, id) {
            Some(j) => Some(&road.loose_features[j]),
            None => None,
        },
    };
    match f {
        None => RoadFeatureFacts { name: String::new(), ship_state: "", counts: String::new() },
        Some(f) => {
            let ship_state = if f.released {
                "out"
            } else if same_text(f.status.as_str(), "done") {
                "unreleased"
            } else {
                ""
            };
            let mut counts = String::new();
            push_decimal(&mut counts, f.modules_done as u128);
            counts.append("/");
            push_decimal(&mut counts, f.modules_total as u128);
            RoadFeatureFacts { name: f.name.clone(), ship_state, counts }
        },
    }
}

} // verus!
