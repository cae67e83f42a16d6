//! The module graph's layout: a layered drawing with one column per
//! depth, every module right of everything it depends on. A dependency
//! that skips columns runs through them on thin pass-through rows of its
//! own (one bus per source and column crossed); each column is ordered
//! by barycentre sweeps, and the rows are stacked into canvas pixels.
use vstd::prelude::*;

use crate::model::{Module, Status};
use crate::text::same_text;

verus! {

/// Width of a module card, in px.
pub const CARD_W: u128 = 232;
/// Height of a module card, in px.
pub const CARD_H: u128 = 124;
/// Gap between columns, in px.
pub const COL_GAP: u128 = 96;
/// Gap between the rows of a column, in px.
pub const ROW_GAP: u128 = 16;
/// The canvas's inner padding, in px.
pub const PAD: u128 = 24;
/// Height of a pass-through row: room for a line and its margins.
pub const PASS_H: u128 = 12;

/// The colour arm of an edge.
#[derive(Clone, Copy, Debug, PartialEq, Eq, Structural, Default)]
pub enum EdgeLineTone {
    /// The dependent is done.
    #[default]
    Muted,
    /// The prerequisite is done: this edge no longer holds the dependent back.
    Open,
    /// The prerequisite is still open.
    Blocking,
}

/// The tone of an edge from its dependent's and its prerequisite's status.
pub open spec fn edge_tone(target: Status, source: Status) -> EdgeLineTone {
    if target == Status::Done {
        EdgeLineTone::Muted
    } else if source == Status::Done {
        EdgeLineTone::Open
    } else {
        EdgeLineTone::Blocking
    }
}

fn tone_of(target: Status, source: Status) -> (t: EdgeLineTone)
    ensures
        t == edge_tone(target, source),
{
    if target == Status::Done {
        EdgeLineTone::Muted
    } else if source == Status::Done {
        EdgeLineTone::Open
    } else {
        EdgeLineTone::Blocking
    }
}

/// Where one module sits: column = depth − 1, row = its place in that
/// column, counting the pass-through rows of long edges.
#[derive(Clone, Copy, Debug, PartialEq, Eq, Structural)]
pub struct Slot {
    pub col: usize,
    pub row: usize,
}

/// A module's card on the canvas, in px.
#[derive(Clone, Copy, Debug, PartialEq, Eq, Structural)]
pub struct CardSlot {
    pub module: usize,
    pub x: u128,
    pub y: u128,
}

/// One node of the layered graph: a module, or the point where a long
/// edge passes through a column it does not stop in.
#[derive(Clone, Copy, Debug, PartialEq, Eq, Structural)]
pub struct Node {
    pub col: usize,
    pub row: usize,
    /// Top edge on the canvas, px.
    pub y: u128,
    /// `Some` for a module, `None` for a pass-through.
    pub module: Option<usize>,
}

/// A node's height: a card for a module, a sliver for a pass-through.
pub open spec fn node_h(n: Node) -> nat {
    if n.module is Some {
        CARD_H as nat
    } else {
        PASS_H as nat
    }
}

fn height_of(n: &Node) -> (h: u128)
    ensures
        h == node_h(*n),
{
    if n.module.is_some() {
        CARD_H
    } else {
        PASS_H
    }
}

/// One hop of the layered graph, always between adjacent columns. A
/// dependency across k columns is k links through k − 1 pass-throughs,
/// all carrying the same `edge`.
#[derive(Clone, Copy, Debug, PartialEq, Eq, Structural)]
pub struct Link {
    pub from: usize,
    pub to: usize,
    pub edge: usize,
}

// ---------------------------------------------------------------------
// The edges a plan declares
// ---------------------------------------------------------------------

/// The deepest module, 0 for none.
pub open spec fn max_depth(ms: Seq<Module>) -> nat
    decreases ms.len(),
{
    if ms.len() == 0 {
        0
    } else {
        let d = max_depth(ms.drop_last());
        if ms.last().depth > d {
            ms.last().depth as nat
        } else {
            d
        }
    }
}

/// How many columns the graph has: one per depth, at least one.
pub open spec fn col_count(ms: Seq<Module>) -> nat {
    if ms.len() == 0 {
        1
    } else {
        max_depth(ms)
    }
}

/// The module an id names: the last one carrying it.
pub open spec fn id_index(ms: Seq<Module>, id: Seq<char>) -> Option<int>
    decreases ms.len(),
{
    if ms.len() == 0 {
        None
    } else if ms.last().id@ == id {
        Some(ms.len() - 1)
    } else {
        id_index(ms.drop_last(), id)
    }
}

/// The edges `(prerequisite, dependent)` that the listed prerequisites of
/// module `t` make: those naming a module in an earlier column.
pub open spec fn dep_edges(ms: Seq<Module>, t: int, deps: Seq<String>) -> Seq<(int, int)>
    decreases deps.len(),
{
    if deps.len() == 0 {
        Seq::empty()
    } else {
        let rest = dep_edges(ms, t, deps.drop_last());
        match id_index(ms, deps.last()@) {
            Some(s) => if ms[s].depth < ms[t].depth {
                rest.push((s, t))
            } else {
                rest
            },
            None => rest,
        }
    }
}

/// The edges of the first `n` modules, in plan order.
pub open spec fn edges_upto(ms: Seq<Module>, n: int) -> Seq<(int, int)>
    decreases n,
{
    if n <= 0 {
        Seq::empty()
    } else {
        edges_upto(ms, n - 1) + dep_edges(ms, n - 1, ms[n - 1].depends_on@)
    }
}

/// Every edge of the plan, in plan order: each module's prerequisites in
/// the order it lists them.
pub open spec fn edges_of(ms: Seq<Module>) -> Seq<(int, int)> {
    edges_upto(ms, ms.len() as int)
}

/// Every module sits in a column: its depth counts from 1.
pub open spec fn depths_ok(ms: Seq<Module>) -> bool {
    forall|i: int| 0 <= i < ms.len() ==> #[trigger] ms[i].depth >= 1
}

proof fn lemma_id_index(ms: Seq<Module>, id: Seq<char>)
    ensures
        id_index(ms, id) matches Some(k) ==> 0 <= k < ms.len() && ms[k].id@ == id,
    decreases ms.len(),
{
    if ms.len() > 0 {
        lemma_id_index(ms.drop_last(), id);
    }
}

proof fn lemma_max_depth(ms: Seq<Module>)
    ensures
        forall|i: int| 0 <= i < ms.len() ==> ms[i].depth <= max_depth(ms),
        ms.len() > 0 ==> exists|i: int| 0 <= i < ms.len() && ms[i].depth == max_depth(ms),
    decreases ms.len(),
{
    if ms.len() > 0 {
        lemma_max_depth(ms.drop_last());
        assert forall|i: int| 0 <= i < ms.len() implies ms[i].depth <= max_depth(ms) by {
            if i < ms.len() - 1 {
                assert(ms[i] == ms.drop_last()[i]);
            }
        }
        if ms.last().depth <= max_depth(ms.drop_last()) && ms.len() > 1 {
            let w = choose|i: int| 0 <= i < ms.len() - 1 && ms.drop_last()[i].depth == max_depth(ms.drop_last());
            assert(ms[w] == ms.drop_last()[w]);
        }
    }
}

proof fn lemma_dep_edges(ms: Seq<Module>, t: int, deps: Seq<String>)
    requires
        0 <= t < ms.len(),
    ensures
        forall|e: int| 0 <= e < dep_edges(ms, t, deps).len() ==> {
            let (s, tt) = #[trigger] dep_edges(ms, t, deps)[e];
            &&& tt == t
            &&& 0 <= s < ms.len()
            &&& ms[s].depth < ms[t].depth
        },
    decreases deps.len(),
{
    if deps.len() > 0 {
        lemma_dep_edges(ms, t, deps.drop_last());
        lemma_id_index(ms, deps.last()@);
    }
}

proof fn lemma_edges_upto(ms: Seq<Module>, n: int)
    requires
        0 <= n <= ms.len(),
    ensures
        forall|e: int| 0 <= e < edges_upto(ms, n).len() ==> {
            let (s, t) = #[trigger] edges_upto(ms, n)[e];
            &&& 0 <= t < n
            &&& 0 <= s < ms.len()
            &&& ms[s].depth < ms[t].depth
        },
    decreases n,
{
    if n > 0 {
        lemma_edges_upto(ms, n - 1);
        lemma_dep_edges(ms, n - 1, ms[n - 1].depends_on@);
        let a = edges_upto(ms, n - 1);
        let b = dep_edges(ms, n - 1, ms[n - 1].depends_on@);
        assert forall|e: int| 0 <= e < edges_upto(ms, n).len() implies {
            let (s, t) = #[trigger] edges_upto(ms, n)[e];
            &&& 0 <= t < n
            &&& 0 <= s < ms.len()
            &&& ms[s].depth < ms[t].depth
        } by {
            if e < a.len() {
                assert(edges_upto(ms, n)[e] == a[e]);
            } else {
                assert(edges_upto(ms, n)[e] == b[e - a.len()]);
            }
        }
    }
}

/// The module an id names, the last one carrying it.
fn find_module(modules: &Vec<Module>, id: &str) -> (r: Option<usize>)
    ensures
        r == (match id_index(modules@, id@) {
            Some(k) => Some(k as usize),
            None => None::<usize>,
        }),
        r matches Some(k) ==> k < modules.len(),
{
    proof {
        lemma_id_index(modules@, id@);
    }
    let mut i = modules.len();
    assert(modules@.take(i as int) =~= modules@);
    while i > 0
        invariant
            i <= modules.len(),
            id_index(modules@, id@) == id_index(modules@.take(i as int), id@),
        decreases i,
    {
        let k = i - 1;
        assert(modules@.take(i as int).drop_last() =~= modules@.take(k as int));
        if same_text(modules[k].id.as_str(), id) {
            return Some(k);
        }
        i = k;
    }
    None
}

/// The column count: the deepest module's depth, or one for an empty plan.
fn column_count(modules: &Vec<Module>) -> (cols: usize)
    ensures
        cols == col_count(modules@),
{
    if modules.len() == 0 {
        return 1;
    }
    let mut best: usize = 0;
    let mut i: usize = 0;
    while i < modules.len()
        invariant
            i <= modules.len(),
            best == max_depth(modules@.take(i as int)),
        decreases modules.len() - i,
    {
        assert(modules@.take(i as int + 1).drop_last() =~= modules@.take(i as int));
        if modules[i].depth > best {
            best = modules[i].depth;
        }
        i = i + 1;
    }
    assert(modules@.take(i as int) =~= modules@);
    best
}

// ---------------------------------------------------------------------
// Nodes and links
// ---------------------------------------------------------------------

/// The module nodes come first, in plan order, each in its depth's
/// column; pass-throughs follow; every node sits in a column.
pub open spec fn nodes_ok(ms: Seq<Module>, nodes: Seq<Node>, cols: int) -> bool {
    &&& nodes.len() >= ms.len()
    &&& forall|i: int| 0 <= i < nodes.len() ==> (#[trigger] nodes[i]).col < cols
    &&& forall|i: int| 0 <= i < ms.len() ==> (#[trigger] nodes[i]).module == Some(i as usize)
        && nodes[i].col == ms[i].depth - 1
    &&& forall|i: int| ms.len() <= i < nodes.len() ==> (#[trigger] nodes[i]).module is None
}

/// An edge's tone: muted once its dependent is done, whatever its
/// prerequisite; else green once the prerequisite is done; else amber,
/// the dependent still waiting on it.
pub proof fn law_edge_tones(ms: Seq<Module>, tones: Seq<EdgeLineTone>)
    requires
        tones_ok(ms, tones, edges_of(ms)),
    ensures
        forall|e: int| 0 <= e < tones.len() ==> {
            let (s, t) = #[trigger] edges_of(ms)[e];
            &&& ms[t].status == Status::Done ==> tones[e] == EdgeLineTone::Muted
            &&& ms[t].status != Status::Done && ms[s].status == Status::Done ==> tones[e] == EdgeLineTone::Open
            &&& ms[t].status != Status::Done && ms[s].status != Status::Done ==> tones[e] == EdgeLineTone::Blocking
        },
{
    assert forall|e: int| 0 <= e < tones.len() implies {
        let (s, t) = #[trigger] edges_of(ms)[e];
        &&& ms[t].status == Status::Done ==> tones[e] == EdgeLineTone::Muted
        &&& ms[t].status != Status::Done && ms[s].status == Status::Done ==> tones[e] == EdgeLineTone::Open
        &&& ms[t].status != Status::Done && ms[s].status != Status::Done ==> tones[e] == EdgeLineTone::Blocking
    } by {
        assert(tones[e] == edge_tone(ms[edges_of(ms)[e].1].status, ms[edges_of(ms)[e].0].status));
    }
}

/// Every link joins a node to one in the next column and names an edge.
pub open spec fn links_ok(nodes: Seq<Node>, links: Seq<Link>, edges: int) -> bool {
    forall|j: int| 0 <= j < links.len() ==> {
        let l = #[trigger] links[j];
        &&& l.from < nodes.len()
        &&& l.to < nodes.len()
        &&& nodes[l.from as int].col + 1 == nodes[l.to as int].col
        &&& l.edge < edges
    }
}

/// Each edge is drawn in the tone its two ends call for.
pub open spec fn tones_ok(ms: Seq<Module>, tones: Seq<EdgeLineTone>, ends: Seq<(int, int)>) -> bool {
    &&& tones.len() == ends.len()
    &&& forall|e: int| 0 <= e < tones.len() ==> #[trigger] tones[e] == edge_tone(
        ms[ends[e].1].status,
        ms[ends[e].0].status,
    )
}

/// A link into a module is the last hop of an edge into that module, and
/// every edge has its last hop.
pub open spec fn hops_ok(ms: Seq<Module>, links: Seq<Link>, ends: Seq<(int, int)>) -> bool {
    &&& forall|j: int| 0 <= j < links.len() && (#[trigger] links[j]).to < ms.len() ==>
        ends[links[j].edge as int].1 == links[j].to
    &&& forall|e: int| 0 <= e < ends.len() ==> #[trigger] has_hop(links, e, ends[e].1)
}

/// Some link is a hop of edge `e` into node `to`.
pub open spec fn has_hop(links: Seq<Link>, e: int, to: int) -> bool {
    exists|j: int| 0 <= j < links.len() && (#[trigger] links[j]).edge == e && links[j].to == to
}

/// `hops_ok`, with the place of each edge's last hop named.
spec fn hops_at(ms: Seq<Module>, links: Seq<Link>, ends: Seq<(int, int)>, hop: Seq<int>) -> bool {
    &&& forall|j: int| 0 <= j < links.len() && (#[trigger] links[j]).to < ms.len() ==>
        ends[links[j].edge as int].1 == links[j].to
    &&& hop.len() == ends.len()
    &&& forall|e: int| #![trigger hop[e]] 0 <= e < ends.len() ==> 0 <= hop[e] < links.len()
        && links[hop[e]].edge == e && links[hop[e]].to == ends[e].1
}

proof fn lemma_hops(ms: Seq<Module>, links: Seq<Link>, ends: Seq<(int, int)>, hop: Seq<int>)
    requires
        hops_at(ms, links, ends, hop),
    ensures
        hops_ok(ms, links, ends),
{
    assert forall|e: int| 0 <= e < ends.len() implies #[trigger] has_hop(links, e, ends[e].1) by {
        let w = hop[e];
        assert(links[w].edge == e);
    }
}

/// Whether a hop from `from` to `to` is already drawn.
fn has_link(links: &Vec<Link>, from: usize, to: usize) -> (b: bool)
    ensures
        b == exists|j: int| 0 <= j < links.len() && (#[trigger] links@[j]).from == from && links@[j].to == to,
{
    let mut j: usize = 0;
    while j < links.len()
        invariant
            j <= links.len(),
            forall|q: int| 0 <= q < j ==> !((#[trigger] links@[q]).from == from && links@[q].to == to),
        decreases links.len() - j,
    {
        if links[j].from == from && links[j].to == to {
            return true;
        }
        j = j + 1;
    }
    false
}

/// The bus a source already runs through a column, as its place in the list.
fn bus_at(buses: &Vec<(usize, usize, usize)>, source: usize, col: usize) -> (r: Option<usize>)
    ensures
        r matches Some(j) ==> j < buses.len() && buses@[j as int].0 == source && buses@[j as int].1 == col
            && forall|q: int| 0 <= q < j ==> !((#[trigger] buses@[q]).0 == source && buses@[q].1 == col),
        r is None ==> forall|q: int| 0 <= q < buses.len() ==> !((#[trigger] buses@[q]).0 == source && buses@[q].1 == col),
{
    let mut j: usize = 0;
    while j < buses.len()
        invariant
            j <= buses.len(),
            forall|q: int| 0 <= q < j ==> !((#[trigger] buses@[q]).0 == source && buses@[q].1 == col),
        decreases buses.len() - j,
    {
        if buses[j].0 == source && buses[j].1 == col {
            return Some(j);
        }
        j = j + 1;
    }
    None
}

/// The layered graph before ordering: a node per module in its column,
/// a pass-through per source and column crossed, the hops, and a tone
/// per edge.
#[verifier::rlimit(40)]
fn build(modules: &Vec<Module>, cols: usize) -> (r: (Vec<Node>, Vec<Link>, Vec<EdgeLineTone>))
    requires
        depths_ok(modules@),
        cols == col_count(modules@),
    ensures
        nodes_ok(modules@, r.0@, cols as int),
        links_ok(r.0@, r.1@, r.2@.len() as int),
        tones_ok(modules@, r.2@, edges_of(modules@)),
        hops_ok(modules@, r.1@, edges_of(modules@)),
{
    let ghost ms = modules@;
    let n = modules.len();
    proof {
        lemma_max_depth(ms);
    }
    let mut nodes: Vec<Node> = Vec::new();
    let mut i: usize = 0;
    while i < n
        invariant
            n == ms.len(),
            ms == modules@,
            depths_ok(ms),
            cols == col_count(ms),
            forall|q: int| 0 <= q < ms.len() ==> ms[q].depth <= max_depth(ms),
            i <= n,
            nodes@.len() == i,
            forall|q: int| 0 <= q < i ==> (#[trigger] nodes@[q]).module == Some(q as usize)
                && nodes@[q].col == ms[q].depth - 1 && nodes@[q].col < cols,
        decreases n - i,
    {
        assert(modules@[i as int].depth >= 1);
        nodes.push(Node { col: modules[i].depth - 1, row: 0, y: 0, module: Some(i) });
        i = i + 1;
    }
    let mut links: Vec<Link> = Vec::new();
    let mut tones: Vec<EdgeLineTone> = Vec::new();
    let mut buses: Vec<(usize, usize, usize)> = Vec::new();
    let ghost mut ends: Seq<(int, int)> = Seq::empty();
    let ghost mut hop: Seq<int> = Seq::empty();
    let mut ti: usize = 0;
    while ti < n
        invariant
            n == ms.len(),
            ms == modules@,
            cols == col_count(ms),
            ti <= n,
            ends == edges_upto(ms, ti as int),
            nodes_ok(ms, nodes@, cols as int),
            links_ok(nodes@, links@, tones@.len() as int),
            tones_ok(ms, tones@, ends),
            hops_at(ms, links@, ends, hop),
            forall|b: int| 0 <= b < buses.len() ==> (#[trigger] buses@[b]).2 < nodes.len()
                && buses@[b].2 >= ms.len()
                && nodes@[buses@[b].2 as int].col == buses@[b].1,
        decreases n - ti,
    {
        let deps = &modules[ti].depends_on;
        let ghost dv = deps@;
        proof {
            lemma_edges_upto(ms, ti as int + 1);
            assert(dv.take(0) =~= Seq::<String>::empty());
        }
        let mut k: usize = 0;
        while k < deps.len()
            invariant
                n == ms.len(),
                ms == modules@,
                cols == col_count(ms),
                ti < n,
                dv == ms[ti as int].depends_on@,
                dv == deps@,
                k <= dv.len(),
                ends == edges_upto(ms, ti as int) + dep_edges(ms, ti as int, dv.take(k as int)),
                nodes_ok(ms, nodes@, cols as int),
                links_ok(nodes@, links@, tones@.len() as int),
                tones_ok(ms, tones@, ends),
                hops_at(ms, links@, ends, hop),
                forall|b: int| 0 <= b < buses.len() ==> (#[trigger] buses@[b]).2 < nodes.len()
                && buses@[b].2 >= ms.len()
                    && nodes@[buses@[b].2 as int].col == buses@[b].1,
            decreases dv.len() - k,
        {
            assert(dv.take(k as int + 1).drop_last() =~= dv.take(k as int));
            proof {
                lemma_id_index(ms, dv[k as int]@);
            }
            match find_module(modules, deps[k].as_str()) {
                None => {
                    assert(ends == edges_upto(ms, ti as int) + dep_edges(ms, ti as int, dv.take(k as int + 1)));
                },
                Some(si) => {
                    let sc = nodes[si].col;
                    let tc = nodes[ti].col;
                    if sc < tc {
                        let edge = tones.len();
                        let ghost before = ends;
                        tones.push(tone_of(modules[ti].status, modules[si].status));
                        proof {
                            ends = ends.push((si as int, ti as int));
                            assert(ends == edges_upto(ms, ti as int) + dep_edges(ms, ti as int, dv.take(k as int + 1)));
                        }
                        let mut from = si;
                        let mut col = sc + 1;
                        while col < tc
                            invariant
                                n == ms.len(),
                                ms == modules@,
                                cols == col_count(ms),
                                si < n,
                                ti < n,
                                tc == nodes@[ti as int].col,
                                tc < cols,
                                col <= tc,
                                from < nodes.len(),
                                nodes@[from as int].col + 1 == col,
                                edge + 1 == tones.len(),
                                ends.len() == tones.len(),
                                ends == before.push((si as int, ti as int)),
                                nodes_ok(ms, nodes@, cols as int),
                                links_ok(nodes@, links@, tones@.len() as int),
                                tones_ok(ms, tones@, ends),
                                hops_at(ms, links@, before, hop),
                                forall|j: int| 0 <= j < links.len() && (#[trigger] links@[j]).to < ms.len() ==>
                                    ends[links@[j].edge as int].1 == links@[j].to,
                                forall|b: int| 0 <= b < buses.len() ==> (#[trigger] buses@[b]).2 < nodes.len()
                && buses@[b].2 >= ms.len()
                                    && nodes@[buses@[b].2 as int].col == buses@[b].1,
                            decreases tc - col,
                        {
                            let d = match bus_at(&buses, si, col) {
                                Some(b) => buses[b].2,
                                None => {
                                    nodes.push(Node { col, row: 0, y: 0, module: None });
                                    let d = nodes.len() - 1;
                                    buses.push((si, col, d));
                                    d
                                },
                            };
                            if !has_link(&links, from, d) {
                                links.push(Link { from, to: d, edge });
                            }
                            from = d;
                            col = col + 1;
                        }
                        links.push(Link { from, to: ti, edge });
                        proof {
                            hop = hop.push(links.len() - 1);
                        }
                    } else {
                        assert(ends == edges_upto(ms, ti as int) + dep_edges(ms, ti as int, dv.take(k as int + 1)));
                    }
                },
            }
            k = k + 1;
        }
        assert(dv.take(dv.len() as int) =~= dv);
        proof {
            assert(ends == edges_upto(ms, ti as int + 1));
        }
        ti = ti + 1;
    }
    proof {
        lemma_hops(ms, links@, ends, hop);
    }
    (nodes, links, tones)
}

// ---------------------------------------------------------------------
// Columns and their order
// ---------------------------------------------------------------------

/// The column lists hold every node once, each at its row.
pub open spec fn rows_ok(nodes: Seq<Node>, by_col: Seq<Vec<usize>>, cols: int) -> bool {
    &&& by_col.len() == cols
    &&& forall|i: int| 0 <= i < nodes.len() ==> {
        let n = #[trigger] nodes[i];
        &&& n.col < cols
        &&& n.row < by_col[n.col as int].len()
        &&& by_col[n.col as int]@[n.row as int] == i
    }
    &&& forall|c: int, k: int| 0 <= c < cols && 0 <= k < by_col[c].len() ==> {
        let i = #[trigger] by_col[c]@[k];
        &&& i < nodes.len()
        &&& nodes[i as int].col == c
        &&& nodes[i as int].row == k
    }
}

/// Whether a link reaches node `i` from the side a sweep looks at: from
/// the left going down, from the right going up.
pub open spec fn touches(l: Link, i: int, down: bool) -> bool {
    if down {
        l.to == i
    } else {
        l.from == i
    }
}

/// The link's other end, seen from the node it reaches.
pub open spec fn across(l: Link, down: bool) -> int {
    if down {
        l.from as int
    } else {
        l.to as int
    }
}

/// The rows of node `i`'s neighbours that way, summed.
pub open spec fn lean_sum(links: Seq<Link>, nodes: Seq<Node>, i: int, down: bool) -> int
    decreases links.len(),
{
    if links.len() == 0 {
        0
    } else {
        lean_sum(links.drop_last(), nodes, i, down) + if touches(links.last(), i, down) {
            nodes[across(links.last(), down)].row as int
        } else {
            0
        }
    }
}

/// How many neighbours node `i` has that way.
pub open spec fn lean_count(links: Seq<Link>, i: int, down: bool) -> int
    decreases links.len(),
{
    if links.len() == 0 {
        0
    } else {
        lean_count(links.drop_last(), i, down) + if touches(links.last(), i, down) {
            1int
        } else {
            0
        }
    }
}

/// A node's sort key, as a fraction: the mean row of its neighbours that
/// way, or, with none to lean on, its own row.
pub open spec fn bary(links: Seq<Link>, nodes: Seq<Node>, i: int, down: bool) -> (int, int) {
    if lean_count(links, i, down) == 0 {
        (nodes[i].row as int, 1)
    } else {
        (lean_sum(links, nodes, i, down), lean_count(links, i, down))
    }
}

/// `a ≤ b` between two fractions with positive denominators.
pub open spec fn key_le(a: (int, int), b: (int, int)) -> bool {
    a.0 * b.1 <= b.0 * a.1
}

proof fn lemma_key_le_trans(a: (int, int), b: (int, int), c: (int, int))
    requires
        a.1 > 0,
        b.1 > 0,
        c.1 > 0,
        key_le(a, b),
        key_le(b, c),
    ensures
        key_le(a, c),
{
    assert(a.0 * b.1 * c.1 <= b.0 * a.1 * c.1) by (nonlinear_arith)
        requires
            a.0 * b.1 <= b.0 * a.1,
            c.1 > 0,
    ;
    assert(b.0 * c.1 * a.1 <= c.0 * b.1 * a.1) by (nonlinear_arith)
        requires
            b.0 * c.1 <= c.0 * b.1,
            a.1 > 0,
    ;
    assert(a.0 * c.1 * b.1 <= c.0 * a.1 * b.1) by (nonlinear_arith)
        requires
            a.0 * b.1 * c.1 <= b.0 * a.1 * c.1,
            b.0 * c.1 * a.1 <= c.0 * b.1 * a.1,
    ;
    assert(a.0 * c.1 <= c.0 * a.1) by (nonlinear_arith)
        requires
            a.0 * c.1 * b.1 <= c.0 * a.1 * b.1,
            b.1 > 0,
    ;
}

/// Comparing two fractions by whole part, then remainders.
proof fn lemma_key_le_parts(p: int, q: int, r: int, s: int, qa: int, ra: int, qc: int, rc: int)
    requires
        q > 0,
        s > 0,
        p == qa * q + ra,
        0 <= ra < q,
        r == qc * s + rc,
        0 <= rc < s,
    ensures
        (p * s <= r * q) == (qa < qc || (qa == qc && ra * s <= rc * q)),
{
    assert(p * s == qa * q * s + ra * s) by (nonlinear_arith)
        requires
            p == qa * q + ra,
    ;
    assert(r * q == qc * s * q + rc * q) by (nonlinear_arith)
        requires
            r == qc * s + rc,
    ;
    assert(ra * s < q * s) by (nonlinear_arith)
        requires
            0 <= ra < q,
            s > 0,
    ;
    assert(rc * q < s * q) by (nonlinear_arith)
        requires
            0 <= rc < s,
            q > 0,
    ;
    assert(0 <= ra * s && 0 <= rc * q) by (nonlinear_arith)
        requires
            0 <= ra,
            0 <= rc,
            q > 0,
            s > 0,
    ;
    if qa < qc {
        assert(qa * q * s + q * s <= qc * s * q) by (nonlinear_arith)
            requires
                qa < qc,
                q > 0,
                s > 0,
        ;
    } else if qa > qc {
        assert(qc * s * q + s * q <= qa * q * s) by (nonlinear_arith)
            requires
                qa > qc,
                q > 0,
                s > 0,
        ;
    } else {
        assert(qa * q * s == qc * s * q) by (nonlinear_arith)
            requires
                qa == qc,
        ;
    }
}

/// `a ≤ b` for two keys, exactly.
fn key_at_most(a: (u128, usize), b: (u128, usize)) -> (r: bool)
    requires
        a.1 > 0,
        b.1 > 0,
    ensures
        r == key_le((a.0 as int, a.1 as int), (b.0 as int, b.1 as int)),
{
    let qa = a.0 / (a.1 as u128);
    let ra = a.0 % (a.1 as u128);
    let qc = b.0 / (b.1 as u128);
    let rc = b.0 % (b.1 as u128);
    proof {
        let (x, d, y, e) = (a.0 as int, a.1 as int, b.0 as int, b.1 as int);
        vstd::arithmetic::div_mod::lemma_fundamental_div_mod(x, d);
        vstd::arithmetic::div_mod::lemma_fundamental_div_mod(y, e);
        vstd::arithmetic::div_mod::lemma_mod_pos_bound(x, d);
        vstd::arithmetic::div_mod::lemma_mod_pos_bound(y, e);
        assert(d * (x / d) == (x / d) * d) by (nonlinear_arith);
        assert(e * (y / e) == (y / e) * e) by (nonlinear_arith);
        lemma_key_le_parts(x, d, y, e, qa as int, ra as int, qc as int, rc as int);
        assert(ra * (b.1 as int) < 0x1_0000_0000_0000_0000_0000_0000_0000_0000) by (nonlinear_arith)
            requires
                ra < a.1,
                a.1 <= 0xffff_ffff_ffff_ffff,
                b.1 <= 0xffff_ffff_ffff_ffff,
        ;
        assert(rc * (a.1 as int) < 0x1_0000_0000_0000_0000_0000_0000_0000_0000) by (nonlinear_arith)
            requires
                rc < b.1,
                a.1 <= 0xffff_ffff_ffff_ffff,
                b.1 <= 0xffff_ffff_ffff_ffff,
        ;
    }
    if qa != qc {
        qa < qc
    } else {
        ra * (b.1 as u128) <= rc * (a.1 as u128)
    }
}

/// A node's sort key, summed over the links once.
fn key_of(links: &Vec<Link>, nodes: &Vec<Node>, i: usize, down: bool) -> (r: (u128, usize))
    requires
        i < nodes.len(),
        forall|j: int| 0 <= j < links.len() ==> (#[trigger] links@[j]).from < nodes.len() && links@[j].to < nodes.len(),
    ensures
        r.1 > 0,
        (r.0 as int, r.1 as int) == bary(links@, nodes@, i as int, down),
{
    let mut sum: u128 = 0;
    let mut cnt: usize = 0;
    let mut j: usize = 0;
    while j < links.len()
        invariant
            i < nodes.len(),
            forall|q: int| 0 <= q < links.len() ==> (#[trigger] links@[q]).from < nodes.len() && links@[q].to < nodes.len(),
            j <= links.len(),
            cnt <= j,
            sum as int == lean_sum(links@.take(j as int), nodes@, i as int, down),
            cnt as int == lean_count(links@.take(j as int), i as int, down),
            sum <= cnt as int * 0xffff_ffff_ffff_ffff,
        decreases links.len() - j,
    {
        assert(links@.take(j as int + 1).drop_last() =~= links@.take(j as int));
        let l = links[j];
        let hit = if down { l.to == i } else { l.from == i };
        if hit {
            let other = if down { l.from } else { l.to };
            sum = sum + nodes[other].row as u128;
            cnt = cnt + 1;
        }
        j = j + 1;
    }
    assert(links@.take(j as int) =~= links@);
    if cnt == 0 {
        (nodes[i].row as u128, 1)
    } else {
        (sum, cnt)
    }
}

/// Every link's two ends are nodes.
pub open spec fn ends_in(nodes: Seq<Node>, links: Seq<Link>) -> bool {
    forall|j: int| 0 <= j < links.len() ==> (#[trigger] links[j]).from < nodes.len() && links[j].to < nodes.len()
}

/// Keys listed in order never decrease on `[lo, hi)`.
spec fn keys_sorted(keys: Seq<(u128, usize)>, lo: int, hi: int) -> bool {
    forall|a: int, b: int| lo <= a < b < hi ==> key_le(
        (#[trigger] keys[a].0 as int, keys[a].1 as int),
        (#[trigger] keys[b].0 as int, keys[b].1 as int),
    )
}

/// Two keys that sort level with each other.
spec fn same_key(x: (u128, usize), y: (u128, usize)) -> bool {
    &&& key_le((x.0 as int, x.1 as int), (y.0 as int, y.1 as int))
    &&& key_le((y.0 as int, y.1 as int), (x.0 as int, x.1 as int))
}

/// Keys that sort level stand in the order they came from.
spec fn ties_kept(keys: Seq<(u128, usize)>, src: Seq<int>) -> bool {
    forall|a: int, b: int| 0 <= a < b < keys.len() && #[trigger] same_key(keys[a], keys[b]) ==> src[a] < src[b]
}

/// Orders one column by its nodes' keys, ties keeping their order, and
/// renumbers its rows to match.
#[verifier::rlimit(80)]
fn order_column(
    nodes: &mut Vec<Node>,
    by_col: &mut Vec<Vec<usize>>,
    links: &Vec<Link>,
    cols: usize,
    col: usize,
    down: bool,
)
    requires
        rows_ok(old(nodes)@, old(by_col)@, cols as int),
        ends_in(old(nodes)@, links@),
        col < cols,
    ensures
        rows_ok(final(nodes)@, final(by_col)@, cols as int),
        final(nodes)@.len() == old(nodes)@.len(),
        forall|i: int| 0 <= i < old(nodes)@.len() ==> {
            let (a, b) = (#[trigger] final(nodes)@[i], old(nodes)@[i]);
            &&& a.col == b.col
            &&& a.y == b.y
            &&& a.module == b.module
            &&& b.col != col ==> a == b
        },
        forall|c: int| 0 <= c < cols && c != col ==> #[trigger] final(by_col)@[c] == old(by_col)@[c],
        forall|a: int, b: int| 0 <= a < b < final(by_col)@[col as int].len() ==> key_le(
            bary(links@, old(nodes)@, #[trigger] final(by_col)@[col as int]@[a] as int, down),
            bary(links@, old(nodes)@, #[trigger] final(by_col)@[col as int]@[b] as int, down),
        ),
        forall|a: int, b: int| 0 <= a < b < final(by_col)@[col as int].len() && key_le(
            bary(links@, old(nodes)@, #[trigger] final(by_col)@[col as int]@[a] as int, down),
            bary(links@, old(nodes)@, #[trigger] final(by_col)@[col as int]@[b] as int, down),
        ) && key_le(
            bary(links@, old(nodes)@, final(by_col)@[col as int]@[b] as int, down),
            bary(links@, old(nodes)@, final(by_col)@[col as int]@[a] as int, down),
        ) ==> old(nodes)@[final(by_col)@[col as int]@[a] as int].row < old(nodes)@[final(by_col)@[col as int]@[b] as int].row,
{
    let ghost n0 = nodes@;
    let ghost b0 = by_col@;
    let ghost m0 = by_col@[col as int]@;
    let m = by_col[col].len();
    let mut members: Vec<usize> = Vec::new();
    let mut keys: Vec<(u128, usize)> = Vec::new();
    let mut k: usize = 0;
    while k < m
        invariant
            nodes@ == n0,
            by_col@ == b0,
            m0 == b0[col as int]@,
            m == m0.len(),
            rows_ok(n0, b0, cols as int),
            ends_in(n0, links@),
            col < cols,
            k <= m,
            members@ == m0.take(k as int),
            keys@.len() == k,
            forall|q: int| 0 <= q < k ==> (#[trigger] keys@[q]).1 > 0
                && (keys@[q].0 as int, keys@[q].1 as int) == bary(links@, n0, members@[q] as int, down),
        decreases m - k,
    {
        let i = by_col[col][k];
        members.push(i);
        keys.push(key_of(links, nodes, i, down));
        assert(m0.take(k as int + 1) =~= m0.take(k as int).push(i));
        k = k + 1;
    }
    assert(m0.take(m as int) =~= m0);
    let ghost mut src: Seq<int> = Seq::new(m as nat, |q: int| q);
    let ghost mut dst: Seq<int> = Seq::new(m as nat, |p: int| p);
    proof {
        assert forall|a: int, b: int| 0 <= a < b < m implies #[trigger] members@[a] != #[trigger] members@[b] by {
            assert(b0[col as int]@[a] == members@[a]);
            assert(b0[col as int]@[b] == members@[b]);
            assert(n0[members@[a] as int].row == a);
            assert(n0[members@[b] as int].row == b);
        }
    }
    // Insertion by adjacent swaps, so equal keys keep their order.
    let mut i: usize = 1;
    while i < m
        invariant
            nodes@ == n0,
            by_col@ == b0,
            m0 == b0[col as int]@,
            m == m0.len(),
            members@.len() == m,
            keys@.len() == m,
            1 <= i || m == 0,
            i <= m || m == 0,
            forall|q: int| 0 <= q < m ==> (#[trigger] keys@[q]).1 > 0
                && (keys@[q].0 as int, keys@[q].1 as int) == bary(links@, n0, members@[q] as int, down),
            src.len() == m,
            dst.len() == m,
            forall|q: int| 0 <= q < m ==> 0 <= #[trigger] src[q] < m && members@[q] == m0[src[q]],
            forall|p: int| 0 <= p < m ==> 0 <= #[trigger] dst[p] < m && members@[dst[p]] == m0[p],
            forall|a: int, b: int| 0 <= a < b < m ==> #[trigger] members@[a] != #[trigger] members@[b],
            keys_sorted(keys@, 0, if m == 0 { 0 } else { i as int }),
            ties_kept(keys@, src),
        decreases m - i,
    {
        let mut j: usize = i;
        while j > 0 && !key_at_most(keys[j - 1], keys[j])
            invariant
                nodes@ == n0,
                by_col@ == b0,
                m0 == b0[col as int]@,
                m == m0.len(),
                members@.len() == m,
                keys@.len() == m,
                1 <= i < m,
                j <= i,
                forall|q: int| 0 <= q < m ==> (#[trigger] keys@[q]).1 > 0
                    && (keys@[q].0 as int, keys@[q].1 as int) == bary(links@, n0, members@[q] as int, down),
                src.len() == m,
                dst.len() == m,
                forall|q: int| 0 <= q < m ==> 0 <= #[trigger] src[q] < m && members@[q] == m0[src[q]],
                forall|p: int| 0 <= p < m ==> 0 <= #[trigger] dst[p] < m && members@[dst[p]] == m0[p],
                forall|a: int, b: int| 0 <= a < b < m ==> #[trigger] members@[a] != #[trigger] members@[b],
                keys_sorted(keys@, 0, j as int),
                keys_sorted(keys@, j as int, i as int + 1),
                ties_kept(keys@, src),
                0 < j < i ==> key_le(
                    (keys@[j - 1].0 as int, keys@[j - 1].1 as int),
                    (keys@[j + 1].0 as int, keys@[j + 1].1 as int),
                ),
            decreases j,
        {
            let ghost ms = members@;
            let ghost ks = keys@;
            let t = members[j - 1];
            members.set(j - 1, members[j]);
            members.set(j, t);
            let kt = keys[j - 1];
            keys.set(j - 1, keys[j]);
            keys.set(j, kt);
            proof {
                let jj = j as int;
                assert(!key_le((ks[jj - 1].0 as int, ks[jj - 1].1 as int), (ks[jj].0 as int, ks[jj].1 as int)));
                let src1 = src.update(jj - 1, src[jj]).update(jj, src[jj - 1]);
                let dst1 = Seq::new(m as nat, |p: int| if dst[p] == jj - 1 { jj } else if dst[p] == jj { jj - 1 } else { dst[p] });
                assert forall|q: int| 0 <= q < m implies 0 <= #[trigger] src1[q] < m && members@[q] == m0[src1[q]] by {
                    if q == jj - 1 {
                        assert(members@[q] == ms[jj]);
                    } else if q == jj {
                        assert(members@[q] == ms[jj - 1]);
                    } else {
                        assert(members@[q] == ms[q]);
                    }
                }
                assert forall|p: int| 0 <= p < m implies 0 <= #[trigger] dst1[p] < m && members@[dst1[p]] == m0[p] by {
                    let d0 = dst[p];
                    if d0 == jj - 1 {
                        assert(members@[jj] == ms[jj - 1]);
                    } else if d0 == jj {
                        assert(members@[jj - 1] == ms[jj]);
                    } else {
                        assert(members@[d0] == ms[d0]);
                    }
                }
                assert forall|a: int, b: int| 0 <= a < b < keys@.len() && #[trigger] same_key(keys@[a], keys@[b]) implies src1[a] < src1[b] by {
                    let sa = if a == jj - 1 { jj } else if a == jj { jj - 1 } else { a };
                    let sb = if b == jj - 1 { jj } else if b == jj { jj - 1 } else { b };
                    assert(keys@[a] == ks[sa] && keys@[b] == ks[sb]);
                    assert(src1[a] == src[sa] && src1[b] == src[sb]);
                    if a == jj - 1 && b == jj {
                        assert(same_key(ks[jj], ks[jj - 1]));
                        assert(false);
                    } else {
                        assert(sa < sb);
                        assert(same_key(ks[sa], ks[sb]));
                    }
                }
                src = src1;
                dst = dst1;
                assert forall|a: int, b: int| 0 <= a < b < m implies #[trigger] members@[a] != #[trigger] members@[b] by {
                    let sa = if a == jj - 1 { jj } else if a == jj { jj - 1 } else { a };
                    let sb = if b == jj - 1 { jj } else if b == jj { jj - 1 } else { b };
                    assert(members@[a] == ms[sa]);
                    assert(members@[b] == ms[sb]);
                    if sa < sb {
                        assert(ms[sa] != ms[sb]);
                    } else {
                        assert(ms[sb] != ms[sa]);
                    }
                }
                assert forall|a: int, b: int| 0 <= a < b < jj - 1 implies key_le(
                    (#[trigger] keys@[a].0 as int, keys@[a].1 as int),
                    (#[trigger] keys@[b].0 as int, keys@[b].1 as int),
                ) by {
                    assert(keys@[a] == ks[a] && keys@[b] == ks[b]);
                }
                assert forall|a: int, b: int| jj - 1 <= a < b < i as int + 1 implies key_le(
                    (#[trigger] keys@[a].0 as int, keys@[a].1 as int),
                    (#[trigger] keys@[b].0 as int, keys@[b].1 as int),
                ) by {
                    let ka = (keys@[a].0 as int, keys@[a].1 as int);
                    let kb = (keys@[b].0 as int, keys@[b].1 as int);
                    let lo = (ks[jj - 1].0 as int, ks[jj - 1].1 as int);
                    let me = (ks[jj].0 as int, ks[jj].1 as int);
                    if a == jj - 1 {
                        assert(ka == me);
                        if b == jj {
                            assert(kb == lo);
                        } else {
                            assert(kb == (ks[b].0 as int, ks[b].1 as int));
                        }
                    } else {
                        assert(a >= jj);
                        if a == jj {
                            assert(ka == lo);
                            assert(kb == (ks[b].0 as int, ks[b].1 as int));
                            assert(key_le(lo, (ks[jj + 1].0 as int, ks[jj + 1].1 as int)));
                            if b > jj + 1 {
                                assert(key_le(
                                    (ks[jj + 1].0 as int, ks[jj + 1].1 as int),
                                    (ks[b].0 as int, ks[b].1 as int),
                                ));
                                lemma_key_le_trans(lo, (ks[jj + 1].0 as int, ks[jj + 1].1 as int), kb);
                            }
                        } else {
                            assert(ka == (ks[a].0 as int, ks[a].1 as int));
                            assert(kb == (ks[b].0 as int, ks[b].1 as int));
                        }
                    }
                }
                if 0 < jj - 1 {
                    assert(key_le(
                        (ks[jj - 2].0 as int, ks[jj - 2].1 as int),
                        (ks[jj - 1].0 as int, ks[jj - 1].1 as int),
                    ));
                }
            }
            j = j - 1;
        }
        proof {
            let jj = j as int;
            assert forall|a: int, b: int| 0 <= a < b < i as int + 1 implies key_le(
                (#[trigger] keys@[a].0 as int, keys@[a].1 as int),
                (#[trigger] keys@[b].0 as int, keys@[b].1 as int),
            ) by {
                let ka = (keys@[a].0 as int, keys@[a].1 as int);
                let kb = (keys@[b].0 as int, keys@[b].1 as int);
                if b < jj || a >= jj {
                } else {
                    let kl = (keys@[jj - 1].0 as int, keys@[jj - 1].1 as int);
                    let kj = (keys@[jj].0 as int, keys@[jj].1 as int);
                    assert(key_le(kl, kj));
                    if a < jj - 1 {
                        assert(key_le(ka, kl));
                        lemma_key_le_trans(ka, kl, kj);
                    }
                    if b > jj {
                        assert(key_le(kj, kb));
                        lemma_key_le_trans(ka, kj, kb);
                    }
                }
            }
        }
        i = i + 1;
    }
    // Renumber the column's rows.
    let mut r: usize = 0;
    while r < m
        invariant
            by_col@ == b0,
            m0 == b0[col as int]@,
            m == m0.len(),
            rows_ok(n0, b0, cols as int),
            col < cols,
            members@.len() == m,
            r <= m,
            nodes@.len() == n0.len(),
            src.len() == m,
            dst.len() == m,
            forall|q: int| 0 <= q < m ==> 0 <= #[trigger] src[q] < m && members@[q] == m0[src[q]],
            forall|p: int| 0 <= p < m ==> 0 <= #[trigger] dst[p] < m && members@[dst[p]] == m0[p],
            forall|a: int, b: int| 0 <= a < b < m ==> #[trigger] members@[a] != #[trigger] members@[b],
            forall|q: int| 0 <= q < n0.len() ==> {
                let (a, b) = (#[trigger] nodes@[q], n0[q]);
                &&& a.col == b.col
                &&& a.y == b.y
                &&& a.module == b.module
                &&& b.col != col ==> a == b
            },
            forall|q: int| 0 <= q < r ==> nodes@[#[trigger] members@[q] as int].row == q,
            forall|q: int| r <= q < m ==> nodes@[#[trigger] members@[q] as int] == n0[members@[q] as int],
        decreases m - r,
    {
        let i = members[r];
        proof {
            let p = src[r as int];
            assert(b0[col as int]@[p] == i);
        }
        let ghost pn = nodes@;
        let mut nd = nodes[i];
        nd.row = r;
        nodes.set(i, nd);
        proof {
            assert(nodes@ == pn.update(i as int, nd));
            assert forall|q: int| 0 <= q < r implies nodes@[#[trigger] members@[q] as int].row == q by {
                assert(members@[q] != members@[r as int]);
                assert(b0[col as int]@[src[q]] == members@[q]);
                assert(nodes@[members@[q] as int] == pn[members@[q] as int]);
                assert(pn[members@[q] as int].row == q);
            }
            assert forall|q: int| r < q < m implies nodes@[#[trigger] members@[q] as int] == n0[members@[q] as int] by {
                assert(members@[q] != members@[r as int]);
                assert(b0[col as int]@[src[q]] == members@[q]);
                assert(nodes@[members@[q] as int] == pn[members@[q] as int]);
                assert(pn[members@[q] as int] == n0[members@[q] as int]);
            }
        }
        r = r + 1;
    }
    let ghost nodes_before = nodes@;
    by_col.set(col, members);
    proof {
        let b1 = by_col@;
        let n1 = nodes@;
        assert forall|q: int| 0 <= q < n1.len() implies {
            let n = #[trigger] n1[q];
            &&& n.col < cols
            &&& n.row < b1[n.col as int].len()
            &&& b1[n.col as int]@[n.row as int] == q
        } by {
            let old_n = n0[q];
            if old_n.col == col {
                assert(b0[col as int]@[old_n.row as int] == q);
                let w = dst[old_n.row as int];
                assert(n1[members@[w] as int].row == w);
            } else {
                assert(n1[q] == old_n);
            }
        }
        assert forall|c: int, k: int| 0 <= c < cols && 0 <= k < b1[c].len() implies {
            let i = #[trigger] b1[c]@[k];
            &&& i < n1.len()
            &&& n1[i as int].col == c
            &&& n1[i as int].row == k
        } by {
            if c == col {
                let p = src[k];
                assert(b0[col as int]@[p] == b1[c]@[k]);
            } else {
                assert(b1[c] == b0[c]);
                let i = b0[c]@[k];
                assert(n0[i as int].col == c);
                assert(n1[i as int] == n0[i as int]);
            }
        }
        assert forall|a: int, b: int| 0 <= a < b < b1[col as int].len() implies key_le(
            bary(links@, n0, #[trigger] b1[col as int]@[a] as int, down),
            bary(links@, n0, #[trigger] b1[col as int]@[b] as int, down),
        ) by {
            assert(keys_sorted(keys@, 0, m as int));
            assert(key_le(
                (keys@[a].0 as int, keys@[a].1 as int),
                (keys@[b].0 as int, keys@[b].1 as int),
            ));
        }
        assert forall|a: int, b: int| 0 <= a < b < b1[col as int].len() && key_le(
            bary(links@, n0, #[trigger] b1[col as int]@[a] as int, down),
            bary(links@, n0, #[trigger] b1[col as int]@[b] as int, down),
        ) && key_le(
            bary(links@, n0, b1[col as int]@[b] as int, down),
            bary(links@, n0, b1[col as int]@[a] as int, down),
        ) implies n0[b1[col as int]@[a] as int].row < n0[b1[col as int]@[b] as int].row by {
            assert(same_key(keys@[a], keys@[b]));
            assert(src[a] < src[b]);
            assert(b0[col as int]@[src[a]] == b1[col as int]@[a]);
            assert(b0[col as int]@[src[b]] == b1[col as int]@[b]);
        }
    }
}

/// Every link joins a node to one in the next column.
pub open spec fn adjacent(nodes: Seq<Node>, links: Seq<Link>) -> bool {
    forall|j: int| 0 <= j < links.len() ==> {
        let l = #[trigger] links[j];
        &&& l.from < nodes.len()
        &&& l.to < nodes.len()
        &&& nodes[l.from as int].col + 1 == nodes[l.to as int].col
    }
}

/// Two node lists that differ at most in rows and tops.
pub open spec fn same_places(a: Seq<Node>, b: Seq<Node>) -> bool {
    &&& a.len() == b.len()
    &&& forall|i: int| 0 <= i < a.len() ==> {
        let (x, y) = (#[trigger] a[i], b[i]);
        &&& x.col == y.col
        &&& x.module == y.module
    }
}

/// In column `c`, the nodes with neighbours that way stand in the order
/// of their neighbours' mean row.
pub open spec fn leans_in_order(nodes: Seq<Node>, by_col: Seq<Vec<usize>>, links: Seq<Link>, c: int, down: bool) -> bool {
    forall|a: int, b: int|
        0 <= a < b < by_col[c].len() && lean_count(links, by_col[c]@[a] as int, down) > 0
            && lean_count(links, by_col[c]@[b] as int, down) > 0 ==> key_le(
            bary(links, nodes, #[trigger] by_col[c]@[a] as int, down),
            bary(links, nodes, #[trigger] by_col[c]@[b] as int, down),
        )
}

/// A node's neighbour rows sum the same in two lists that agree on them.
proof fn lemma_lean_frame(links: Seq<Link>, n0: Seq<Node>, n1: Seq<Node>, i: int, down: bool)
    requires
        forall|j: int| 0 <= j < links.len() && touches(#[trigger] links[j], i, down) ==>
            n0[across(links[j], down)].row == n1[across(links[j], down)].row,
    ensures
        lean_sum(links, n0, i, down) == lean_sum(links, n1, i, down),
    decreases links.len(),
{
    if links.len() > 0 {
        let rest = links.drop_last();
        assert forall|j: int| 0 <= j < rest.len() && touches(#[trigger] rest[j], i, down) implies
            n0[across(rest[j], down)].row == n1[across(rest[j], down)].row by {
            assert(rest[j] == links[j]);
        }
        lemma_lean_frame(rest, n0, n1, i, down);
        assert(links.last() == links[links.len() - 1]);
    }
}

/// Column `c`'s keys looking left read only column `c - 1`.
proof fn lemma_left_keys_keep(links: Seq<Link>, n0: Seq<Node>, n1: Seq<Node>, x: int, moved: int)
    requires
        adjacent(n0, links),
        0 <= x < n0.len(),
        n0[x].col != moved + 1,
        forall|i: int| 0 <= i < n0.len() && n0[i].col != moved ==> #[trigger] n1[i] == n0[i],
    ensures
        lean_sum(links, n0, x, true) == lean_sum(links, n1, x, true),
{
    assert forall|j: int| 0 <= j < links.len() && touches(#[trigger] links[j], x, true) implies
        n0[across(links[j], true)].row == n1[across(links[j], true)].row by {
        let f = links[j].from as int;
        assert(n0[f].col + 1 == n0[x].col);
        assert(n1[f] == n0[f]);
    }
    lemma_lean_frame(links, n0, n1, x, true);
}

/// Column `c`'s keys looking right read only column `c + 1`.
proof fn lemma_right_keys_keep(links: Seq<Link>, n0: Seq<Node>, n1: Seq<Node>, x: int, moved: int)
    requires
        adjacent(n0, links),
        0 <= x < n0.len(),
        n0[x].col + 1 != moved,
        forall|i: int| 0 <= i < n0.len() && n0[i].col != moved ==> #[trigger] n1[i] == n0[i],
    ensures
        lean_sum(links, n0, x, false) == lean_sum(links, n1, x, false),
{
    assert forall|j: int| 0 <= j < links.len() && touches(#[trigger] links[j], x, false) implies
        n0[across(links[j], false)].row == n1[across(links[j], false)].row by {
        let t = links[j].to as int;
        assert(n0[x].col + 1 == n0[t].col);
        assert(n1[t] == n0[t]);
    }
    lemma_lean_frame(links, n0, n1, x, false);
}

/// The nodes a node's links reach that way, in link order.
pub open spec fn neighbours(links: Seq<Link>, i: int, down: bool) -> Seq<int>
    decreases links.len(),
{
    if links.len() == 0 {
        Seq::empty()
    } else {
        let rest = neighbours(links.drop_last(), i, down);
        if touches(links.last(), i, down) {
            rest.push(across(links.last(), down))
        } else {
            rest
        }
    }
}

/// Two nodes wired alike: joined to the same nodes, in the same order,
/// on both sides.
pub open spec fn alike(links: Seq<Link>, x: int, y: int) -> bool {
    &&& neighbours(links, x, true) == neighbours(links, y, true)
    &&& neighbours(links, x, false) == neighbours(links, y, false)
}

/// Nodes wired alike in one column keep the order they were made in: an
/// ordering step never has a reason to swap them, and ties keep their
/// order.
pub open spec fn alike_in_order(nodes: Seq<Node>, links: Seq<Link>) -> bool {
    forall|x: int, y: int|
        0 <= x < y < nodes.len() && nodes[x].col == nodes[y].col && #[trigger] alike(links, x, y) ==> nodes[x].row
            < nodes[y].row
}

/// The rows of a list of nodes, summed.
spec fn row_sum(nodes: Seq<Node>, s: Seq<int>) -> int
    decreases s.len(),
{
    if s.len() == 0 {
        0
    } else {
        row_sum(nodes, s.drop_last()) + nodes[s.last()].row as int
    }
}

/// A node's key reads only its neighbours.
proof fn lemma_lean_by_neighbours(links: Seq<Link>, nodes: Seq<Node>, i: int, down: bool)
    ensures
        lean_sum(links, nodes, i, down) == row_sum(nodes, neighbours(links, i, down)),
        lean_count(links, i, down) == neighbours(links, i, down).len(),
    decreases links.len(),
{
    if links.len() > 0 {
        lemma_lean_by_neighbours(links.drop_last(), nodes, i, down);
        let rest = neighbours(links.drop_last(), i, down);
        if touches(links.last(), i, down) {
            assert(rest.push(across(links.last(), down)).drop_last() =~= rest);
        }
    }
}

/// Two nodes wired alike have the same key, whatever the rows.
proof fn lemma_alike_keys(links: Seq<Link>, nodes: Seq<Node>, x: int, y: int, down: bool)
    requires
        alike(links, x, y),
    ensures
        lean_count(links, x, down) == lean_count(links, y, down),
        lean_sum(links, nodes, x, down) == lean_sum(links, nodes, y, down),
{
    lemma_lean_by_neighbours(links, nodes, x, down);
    lemma_lean_by_neighbours(links, nodes, y, down);
}

/// Ordering one column, stably, keeps nodes wired alike in their order.
proof fn lemma_alike_kept(
    nb: Seq<Node>,
    n1: Seq<Node>,
    bb: Seq<Vec<usize>>,
    b1: Seq<Vec<usize>>,
    links: Seq<Link>,
    cols: int,
    col: int,
    down: bool,
)
    requires
        rows_ok(nb, bb, cols),
        rows_ok(n1, b1, cols),
        n1.len() == nb.len(),
        0 <= col < cols,
        forall|i: int| 0 <= i < nb.len() ==> {
            let (a, b) = (#[trigger] n1[i], nb[i]);
            &&& a.col == b.col
            &&& b.col != col ==> a == b
        },
        forall|a: int, b: int| 0 <= a < b < b1[col].len() ==> key_le(
            bary(links, nb, #[trigger] b1[col]@[a] as int, down),
            bary(links, nb, #[trigger] b1[col]@[b] as int, down),
        ),
        forall|a: int, b: int| 0 <= a < b < b1[col].len() && key_le(
            bary(links, nb, #[trigger] b1[col]@[a] as int, down),
            bary(links, nb, #[trigger] b1[col]@[b] as int, down),
        ) && key_le(
            bary(links, nb, b1[col]@[b] as int, down),
            bary(links, nb, b1[col]@[a] as int, down),
        ) ==> nb[b1[col]@[a] as int].row < nb[b1[col]@[b] as int].row,
        alike_in_order(nb, links),
    ensures
        alike_in_order(n1, links),
{
    assert forall|x: int, y: int|
        0 <= x < y < n1.len() && n1[x].col == n1[y].col && #[trigger] alike(links, x, y) implies n1[x].row
            < n1[y].row by {
        assert(nb[x].col == n1[x].col && nb[y].col == n1[y].col);
        assert(nb[x].row < nb[y].row);
        if nb[x].col == col {
            let c = col;
            let px = n1[x].row as int;
            let py = n1[y].row as int;
            assert(b1[c]@[px] == x && b1[c]@[py] == y);
            if py <= px {
                if py == px {
                    assert(x == y);
                } else {
                    lemma_alike_keys(links, nb, x, y, down);
                    let kx = bary(links, nb, x, down);
                    let ky = bary(links, nb, y, down);
                    assert(key_le(bary(links, nb, b1[c]@[py] as int, down), bary(links, nb, b1[c]@[px] as int, down)));
                    assert(key_le(ky, kx));
                    if lean_count(links, x, down) == 0 {
                        assert(kx == (nb[x].row as int, 1int));
                        assert(ky == (nb[y].row as int, 1int));
                        assert(ky.0 * kx.1 <= kx.0 * ky.1);
                        assert(ky.0 * 1 == ky.0);
                        assert(kx.0 * 1 == kx.0);
                        assert(ky.0 * kx.1 == nb[y].row as int);
                        assert(kx.0 * ky.1 == nb[x].row as int);
                    } else {
                        assert(kx == ky);
                        assert(key_le(bary(links, nb, b1[c]@[px] as int, down), bary(links, nb, b1[c]@[py] as int, down)));
                        assert(nb[b1[c]@[py] as int].row < nb[b1[c]@[px] as int].row);
                    }
                }
            }
        } else {
            assert(n1[x] == nb[x] && n1[y] == nb[y]);
        }
    }
}

/// One sweep left to right: each column after the first is ordered by
/// the mean row of what it depends on.
#[verifier::rlimit(60)]
fn sweep_down(nodes: &mut Vec<Node>, by_col: &mut Vec<Vec<usize>>, links: &Vec<Link>, cols: usize)
    requires
        rows_ok(old(nodes)@, old(by_col)@, cols as int),
        adjacent(old(nodes)@, links@),
    ensures
        rows_ok(final(nodes)@, final(by_col)@, cols as int),
        same_places(final(nodes)@, old(nodes)@),
        adjacent(final(nodes)@, links@),
        forall|c: int| 1 <= c < cols ==> leans_in_order(final(nodes)@, final(by_col)@, links@, c, true),
        alike_in_order(old(nodes)@, links@) ==> alike_in_order(final(nodes)@, links@),
{
    let ghost n0 = nodes@;
    let mut col: usize = 1;
    while col < cols
        invariant
            1 <= col,
            col <= cols || cols == 0,
            rows_ok(nodes@, by_col@, cols as int),
            same_places(nodes@, n0),
            adjacent(nodes@, links@),
            forall|c: int| 1 <= c < col ==> leans_in_order(nodes@, by_col@, links@, c, true),
            alike_in_order(n0, links@) ==> alike_in_order(nodes@, links@),
        decreases cols - col,
    {
        let ghost nb = nodes@;
        let ghost bb = by_col@;
        order_column(nodes, by_col, links, cols, col, true);
        proof {
            let n1 = nodes@;
            let b1 = by_col@;
            if alike_in_order(n0, links@) {
                lemma_alike_kept(nb, n1, bb, b1, links@, cols as int, col as int, true);
            }
            assert(same_places(n1, n0));
            assert forall|j: int| 0 <= j < links@.len() implies {
                let l = #[trigger] links@[j];
                &&& l.from < n1.len()
                &&& l.to < n1.len()
                &&& n1[l.from as int].col + 1 == n1[l.to as int].col
            } by {
                let l = links@[j];
                assert(n1[l.from as int].col == nb[l.from as int].col);
                assert(n1[l.to as int].col == nb[l.to as int].col);
            }
            assert forall|c: int| 1 <= c < col + 1 implies leans_in_order(n1, b1, links@, c, true) by {
                assert forall|a: int, b: int|
                    0 <= a < b < b1[c].len() && lean_count(links@, b1[c]@[a] as int, true) > 0
                        && lean_count(links@, b1[c]@[b] as int, true) > 0 implies key_le(
                        bary(links@, n1, #[trigger] b1[c]@[a] as int, true),
                        bary(links@, n1, #[trigger] b1[c]@[b] as int, true),
                    ) by {
                    let x = b1[c]@[a] as int;
                    let y = b1[c]@[b] as int;
                    assert(n1[x].col == c && n1[y].col == c);
                    assert(nb[x].col == c && nb[y].col == c);
                    lemma_left_keys_keep(links@, nb, n1, x, col as int);
                    lemma_left_keys_keep(links@, nb, n1, y, col as int);
                    if c < col {
                        assert(b1[c] == bb[c]);
                        assert(leans_in_order(nb, bb, links@, c, true));
                    }
                }
            }
        }
        col = col + 1;
    }
}

/// One sweep right to left: each column before the last is ordered by
/// the mean row of what depends on it.
#[verifier::rlimit(40)]
fn sweep_up(nodes: &mut Vec<Node>, by_col: &mut Vec<Vec<usize>>, links: &Vec<Link>, cols: usize)
    requires
        rows_ok(old(nodes)@, old(by_col)@, cols as int),
        adjacent(old(nodes)@, links@),
    ensures
        rows_ok(final(nodes)@, final(by_col)@, cols as int),
        same_places(final(nodes)@, old(nodes)@),
        adjacent(final(nodes)@, links@),
        forall|c: int| 0 <= c < cols - 1 ==> leans_in_order(final(nodes)@, final(by_col)@, links@, c, false),
        cols >= 1 ==> final(by_col)@[cols - 1] == old(by_col)@[cols - 1],
        alike_in_order(old(nodes)@, links@) ==> alike_in_order(final(nodes)@, links@),
{
    let ghost n0 = nodes@;
    let ghost b0 = by_col@;
    if cols < 2 {
        return;
    }
    let mut col: usize = cols - 1;
    while col > 0
        invariant
            col < cols,
            rows_ok(nodes@, by_col@, cols as int),
            same_places(nodes@, n0),
            adjacent(nodes@, links@),
            forall|c: int| col <= c < cols - 1 ==> leans_in_order(nodes@, by_col@, links@, c, false),
            by_col@[cols - 1] == b0[cols - 1],
            alike_in_order(n0, links@) ==> alike_in_order(nodes@, links@),
        decreases col,
    {
        col = col - 1;
        let ghost nb = nodes@;
        let ghost bb = by_col@;
        order_column(nodes, by_col, links, cols, col, false);
        proof {
            let n1 = nodes@;
            let b1 = by_col@;
            if alike_in_order(n0, links@) {
                lemma_alike_kept(nb, n1, bb, b1, links@, cols as int, col as int, false);
            }
            assert forall|c: int| col <= c < cols - 1 implies leans_in_order(n1, b1, links@, c, false) by {
                assert forall|a: int, b: int|
                    0 <= a < b < b1[c].len() && lean_count(links@, b1[c]@[a] as int, false) > 0
                        && lean_count(links@, b1[c]@[b] as int, false) > 0 implies key_le(
                        bary(links@, n1, #[trigger] b1[c]@[a] as int, false),
                        bary(links@, n1, #[trigger] b1[c]@[b] as int, false),
                    ) by {
                    let x = b1[c]@[a] as int;
                    let y = b1[c]@[b] as int;
                    assert(n1[x].col == c && n1[y].col == c);
                    assert(nb[x].col == c && nb[y].col == c);
                    lemma_right_keys_keep(links@, nb, n1, x, col as int);
                    lemma_right_keys_keep(links@, nb, n1, y, col as int);
                    if c > col {
                        assert(b1[c] == bb[c]);
                        assert(leans_in_order(nb, bb, links@, c, false));
                    }
                }
            }
            assert forall|j: int| 0 <= j < links@.len() implies {
                let l = #[trigger] links@[j];
                &&& l.from < n1.len()
                &&& l.to < n1.len()
                &&& n1[l.from as int].col + 1 == n1[l.to as int].col
            } by {
                let l = links@[j];
                assert(n1[l.from as int].col == nb[l.from as int].col);
                assert(n1[l.to as int].col == nb[l.to as int].col);
            }
        }
    }
}

/// The column lists in plan order, each node's row its place there.
fn place_rows(nodes: &mut Vec<Node>, cols: usize) -> (by_col: Vec<Vec<usize>>)
    requires
        forall|i: int| 0 <= i < old(nodes)@.len() ==> (#[trigger] old(nodes)@[i]).col < cols,
    ensures
        rows_ok(final(nodes)@, by_col@, cols as int),
        same_places(final(nodes)@, old(nodes)@),
        forall|c: int, a: int, b: int| 0 <= c < cols && 0 <= a < b < by_col@[c].len() ==>
            #[trigger] by_col@[c]@[a] < #[trigger] by_col@[c]@[b],
{
    let ghost n0 = nodes@;
    let mut by_col: Vec<Vec<usize>> = Vec::new();
    let mut c: usize = 0;
    while c < cols
        invariant
            c <= cols,
            by_col@.len() == c,
            forall|q: int| 0 <= q < c ==> (#[trigger] by_col@[q])@.len() == 0,
        decreases cols - c,
    {
        by_col.push(Vec::new());
        c = c + 1;
    }
    let mut i: usize = 0;
    while i < nodes.len()
        invariant
            i <= nodes@.len(),
            by_col@.len() == cols,
            same_places(nodes@, n0),
            forall|q: int| 0 <= q < n0.len() ==> (#[trigger] n0[q]).col < cols,
            forall|q: int| 0 <= q < i ==> {
                let n = #[trigger] nodes@[q];
                &&& n.row < by_col@[n.col as int].len()
                &&& by_col@[n.col as int]@[n.row as int] == q
            },
            forall|c: int, k: int| 0 <= c < cols && 0 <= k < by_col@[c].len() ==> {
                let x = #[trigger] by_col@[c]@[k];
                &&& x < i
                &&& nodes@[x as int].col == c
                &&& nodes@[x as int].row == k
            },
            forall|c: int, a: int, b: int| 0 <= c < cols && 0 <= a < b < by_col@[c].len() ==>
                #[trigger] by_col@[c]@[a] < #[trigger] by_col@[c]@[b],
        decreases nodes@.len() - i,
    {
        let c = nodes[i].col;
        let r = by_col[c].len();
        let ghost bp = by_col@;
        let ghost np = nodes@;
        by_col[c].push(i);
        let mut nd = nodes[i];
        nd.row = r;
        nodes.set(i, nd);
        proof {
            assert(by_col@ == bp.update(c as int, by_col@[c as int]));
            assert(by_col@[c as int]@ == bp[c as int]@.push(i));
            assert forall|q: int| 0 <= q < i + 1 implies {
                let n = #[trigger] nodes@[q];
                &&& n.row < by_col@[n.col as int].len()
                &&& by_col@[n.col as int]@[n.row as int] == q
            } by {
                if q < i {
                    assert(nodes@[q] == np[q]);
                    let cq = np[q].col as int;
                    if cq == c {
                        assert(by_col@[cq]@[np[q].row as int] == bp[cq]@[np[q].row as int]);
                    } else {
                        assert(by_col@[cq] == bp[cq]);
                    }
                }
            }
            assert forall|cc: int, k: int| 0 <= cc < cols && 0 <= k < by_col@[cc].len() implies {
                let x = #[trigger] by_col@[cc]@[k];
                &&& x < i + 1
                &&& nodes@[x as int].col == cc
                &&& nodes@[x as int].row == k
            } by {
                if cc == c && k == r {
                } else {
                    if cc == c {
                        assert(by_col@[cc]@[k] == bp[cc]@[k]);
                    } else {
                        assert(by_col@[cc] == bp[cc]);
                    }
                    let x = bp[cc]@[k];
                    assert(x < i);
                    assert(nodes@[x as int] == np[x as int]);
                }
            }
            assert forall|cc: int, a: int, b: int| 0 <= cc < cols && 0 <= a < b < by_col@[cc].len() implies
                #[trigger] by_col@[cc]@[a] < #[trigger] by_col@[cc]@[b] by {
                if cc == c {
                    if b == r {
                        assert(by_col@[cc]@[a] == bp[cc]@[a]);
                    } else {
                        assert(by_col@[cc]@[a] == bp[cc]@[a]);
                        assert(by_col@[cc]@[b] == bp[cc]@[b]);
                    }
                } else {
                    assert(by_col@[cc] == bp[cc]);
                }
            }
        }
        i = i + 1;
    }
    by_col
}

// ---------------------------------------------------------------------
// Positions
// ---------------------------------------------------------------------

/// In each column the rows run 0, 1, 2, … with none taken twice.
pub open spec fn rows_packed(nodes: Seq<Node>) -> bool {
    &&& forall|i: int, j: int|
        #![trigger nodes[i], nodes[j]]
        0 <= i < nodes.len() && 0 <= j < nodes.len() && i != j && nodes[i].col == nodes[j].col ==> nodes[i].row
            != nodes[j].row
    &&& forall|i: int| 0 <= i < nodes.len() && (#[trigger] nodes[i]).row > 0 ==> exists|j: int|
        0 <= j < nodes.len() && nodes[j].col == nodes[i].col && (#[trigger] nodes[j]).row + 1 == nodes[i].row
}

/// Each column stacks its rows from the top padding down, a card or a
/// sliver each, a row gap between.
pub open spec fn stacked(nodes: Seq<Node>) -> bool {
    &&& forall|i: int| 0 <= i < nodes.len() && (#[trigger] nodes[i]).row == 0 ==> nodes[i].y == PAD
    &&& forall|i: int, j: int|
        #![trigger nodes[i], nodes[j]]
        0 <= i < nodes.len() && 0 <= j < nodes.len() && nodes[i].col == nodes[j].col && nodes[j].row + 1
            == nodes[i].row ==> nodes[i].y == nodes[j].y + node_h(nodes[j]) + ROW_GAP
}

/// The canvas is as tall as its tallest column, padding included; with
/// no nodes at all, an empty column's padding.
pub open spec fn tall_enough(nodes: Seq<Node>, height: int) -> bool {
    &&& forall|i: int| 0 <= i < nodes.len() ==> (#[trigger] nodes[i]).y + node_h(nodes[i]) + PAD <= height
    &&& nodes.len() == 0 ==> height == 2 * PAD - ROW_GAP
    &&& nodes.len() > 0 ==> exists|i: int| 0 <= i < nodes.len() && (#[trigger] nodes[i]).y + node_h(nodes[i]) + PAD == height
}

/// After the last sweep, in every column but the first, the nodes that
/// depend on something stand in the order of the mean row of what they
/// depend on.
pub open spec fn leaning_order(nodes: Seq<Node>, links: Seq<Link>) -> bool {
    forall|i: int, j: int|
        #![trigger nodes[i], nodes[j]]
        0 <= i < nodes.len() && 0 <= j < nodes.len() && nodes[i].col == nodes[j].col && nodes[i].col >= 1
            && nodes[i].row < nodes[j].row && lean_count(links, i, true) > 0 && lean_count(links, j, true) > 0
            ==> key_le(bary(links, nodes, i, true), bary(links, nodes, j, true))
}

/// Sets every node's top by stacking each column, and returns the canvas
/// height.
#[verifier::rlimit(100)]
fn place_tops(nodes: &mut Vec<Node>, by_col: &Vec<Vec<usize>>, cols: usize) -> (height: u128)
    requires
        rows_ok(old(nodes)@, by_col@, cols as int),
        cols >= 1,
    ensures
        rows_ok(final(nodes)@, by_col@, cols as int),
        final(nodes)@.len() == old(nodes)@.len(),
        forall|i: int| 0 <= i < old(nodes)@.len() ==> {
            let (a, b) = (#[trigger] final(nodes)@[i], old(nodes)@[i]);
            &&& a.col == b.col
            &&& a.row == b.row
            &&& a.module == b.module
        },
        stacked(final(nodes)@),
        tall_enough(final(nodes)@, height as int),
{
    let ghost n0 = nodes@;
    let mut height: u128 = 0;
    let mut c: usize = 0;
    while c < cols
        invariant
            c <= cols,
            cols >= 1,
            rows_ok(n0, by_col@, cols as int),
            nodes@.len() == n0.len(),
            forall|i: int| 0 <= i < n0.len() ==> {
                let (a, b) = (#[trigger] nodes@[i], n0[i]);
                &&& a.col == b.col
                &&& a.row == b.row
                &&& a.module == b.module
            },
            forall|i: int|
                0 <= i < nodes@.len() && (#[trigger] nodes@[i]).row == 0 && nodes@[i].col < c ==> nodes@[i].y == PAD,
            forall|i: int, j: int|
                #![trigger nodes@[i], nodes@[j]]
                0 <= i < nodes@.len() && 0 <= j < nodes@.len() && nodes@[i].col == nodes@[j].col && nodes@[i].col
                    < c && nodes@[j].row + 1 == nodes@[i].row ==> nodes@[i].y == nodes@[j].y + node_h(nodes@[j])
                    + ROW_GAP,
            forall|i: int| 0 <= i < nodes@.len() && (#[trigger] nodes@[i]).col < c ==> nodes@[i].y + node_h(nodes@[i]) + PAD <= height,
            c == 0 ==> height == 0,
            c > 0 ==> height >= 2 * PAD - ROW_GAP,
            height == 0 || height == 2 * PAD - ROW_GAP || exists|i: int|
                0 <= i < nodes@.len() && (#[trigger] nodes@[i]).col < c && nodes@[i].y + node_h(nodes@[i]) + PAD == height,
        decreases cols - c,
    {
        let members = &by_col[c];
        let m = members.len();
        let ghost ns = nodes@;
        let mut y: u128 = PAD;
        let mut k: usize = 0;
        while k < m
            invariant
                c < cols,
                cols >= 1,
                m == by_col@[c as int]@.len(),
                members@ == by_col@[c as int]@,
                rows_ok(n0, by_col@, cols as int),
                nodes@.len() == n0.len(),
                k <= m,
                forall|i: int| 0 <= i < n0.len() ==> {
                    let (a, b) = (#[trigger] nodes@[i], n0[i]);
                    &&& a.col == b.col
                    &&& a.row == b.row
                    &&& a.module == b.module
                },
                forall|i: int| 0 <= i < nodes@.len() && (#[trigger] nodes@[i]).col != c ==> nodes@[i] == ns[i],
                forall|q: int| 0 <= q < k ==> nodes@[#[trigger] members@[q] as int].y == if q == 0 {
                    PAD as int
                } else {
                    nodes@[members@[q - 1] as int].y + node_h(nodes@[members@[q - 1] as int]) + ROW_GAP
                },
                k == 0 ==> y == PAD,
                k > 0 ==> y == nodes@[members@[k - 1] as int].y + node_h(nodes@[members@[k - 1] as int]) + ROW_GAP,
                y <= PAD + k * 140,
            decreases m - k,
        {
            let i = members[k];
            proof {
                assert(n0[i as int].row == k);
                if k > 0 {
                    assert(by_col@[c as int]@[k - 1] == members@[k - 1]);
                    assert(members@[k - 1] != i);
                }
            }
            let ghost pn = nodes@;
            let mut nd = nodes[i];
            nd.y = y;
            let h = height_of(&nd);
            nodes.set(i, nd);
            proof {
                assert forall|q: int| 0 <= q < k + 1 implies nodes@[#[trigger] members@[q] as int].y == if q == 0 {
                    PAD as int
                } else {
                    nodes@[members@[q - 1] as int].y + node_h(nodes@[members@[q - 1] as int]) + ROW_GAP
                } by {
                    assert(by_col@[c as int]@[q] == members@[q]);
                    if q < k {
                        assert(n0[members@[q] as int].row == q);
                        assert(members@[q] != i);
                        assert(nodes@[members@[q] as int] == pn[members@[q] as int]);
                        if q > 0 {
                            assert(by_col@[c as int]@[q - 1] == members@[q - 1]);
                            assert(n0[members@[q - 1] as int].row == q - 1);
                            assert(members@[q - 1] != i);
                            assert(nodes@[members@[q - 1] as int] == pn[members@[q - 1] as int]);
                        }
                    } else if q > 0 {
                        assert(by_col@[c as int]@[q - 1] == members@[q - 1]);
                        assert(n0[members@[q - 1] as int].row == q - 1);
                        assert(members@[q - 1] != i);
                        assert(nodes@[members@[q - 1] as int] == pn[members@[q - 1] as int]);
                    }
                }
            }
            y = y + h + ROW_GAP;
            k = k + 1;
        }
        let bottom = if m == 0 { PAD - ROW_GAP + PAD } else { y - ROW_GAP + PAD };
        proof {
            let nn = nodes@;
            // The column's rows stack.
            assert forall|i: int| 0 <= i < nn.len() && (#[trigger] nn[i]).row == 0 && nn[i].col < c + 1 implies nn[i].y == PAD by {
                if nn[i].col == c {
                    assert(by_col@[c as int]@[0] == i);
                }
            }
            assert forall|i: int, j: int|
                #![trigger nn[i], nn[j]]
                0 <= i < nn.len() && 0 <= j < nn.len() && nn[i].col == nn[j].col && nn[i].col < c + 1
                    && nn[j].row + 1 == nn[i].row implies nn[i].y == nn[j].y + node_h(nn[j]) + ROW_GAP by {
                if nn[i].col == c {
                    let r = nn[i].row as int;
                    assert(by_col@[c as int]@[r] == i);
                    assert(by_col@[c as int]@[r - 1] == j);
                } else {
                    assert(nn[i] == ns[i]);
                    assert(nn[j] == ns[j]);
                }
            }
            if m > 0 {
                let last = members@[m - 1] as int;
                assert(by_col@[c as int]@[m - 1] == last);
                assert(nn[last].col == c);
                assert(bottom == nn[last].y + node_h(nn[last]) + PAD);
                // Every card of the column sits above its last.
                assert forall|i: int| 0 <= i < nn.len() && (#[trigger] nn[i]).col == c implies
                    nn[i].y + node_h(nn[i]) <= nn[last].y + node_h(nn[last]) by {
                    let r = nn[i].row as int;
                    assert(by_col@[c as int]@[r] == i);
                    lemma_stack_below(nn, by_col@[c as int]@, r, m - 1);
                }
            }
        }
        if bottom > height {
            height = bottom;
        }
        proof {
            let nn = nodes@;
            assert forall|i: int| 0 <= i < nn.len() && (#[trigger] nn[i]).col < c + 1 implies nn[i].y + node_h(nn[i]) + PAD <= height by {
                if nn[i].col != c {
                    assert(nn[i] == ns[i]);
                }
            }
            if m > 0 {
                let last = members@[m - 1] as int;
                assert(nn[last].col == c);
                if height == bottom {
                    assert(nn[last].y + node_h(nn[last]) + PAD == height);
                }
            }
            if height != bottom && height != 0 && height != 2 * PAD - ROW_GAP {
                let w = choose|i: int| 0 <= i < ns.len() && (#[trigger] ns[i]).col < c && ns[i].y + node_h(ns[i]) + PAD == height;
                assert(nn[w] == ns[w]);
            }
        }
        c = c + 1;
    }
    proof {
        let nn = nodes@;
        if nn.len() > 0 && height == 2 * PAD - ROW_GAP {
            assert(nn[0].y + node_h(nn[0]) + PAD <= height);
            assert(nn[0].col < cols);
        }
        assert forall|i: int| 0 <= i < nn.len() && (#[trigger] nn[i]).row == 0 implies nn[i].y == PAD by {
            assert(nn[i].col < cols);
        }
        assert forall|i: int, j: int|
            #![trigger nn[i], nn[j]]
            0 <= i < nn.len() && 0 <= j < nn.len() && nn[i].col == nn[j].col && nn[j].row + 1 == nn[i].row implies
            nn[i].y == nn[j].y + node_h(nn[j]) + ROW_GAP by {
            assert(nn[i].col < cols);
        }
        assert forall|i: int| 0 <= i < nn.len() implies (#[trigger] nn[i]).y + node_h(nn[i]) + PAD <= height by {
            assert(nn[i].col < cols);
        }
        assert forall|i: int| 0 <= i < nn.len() implies {
            let n = #[trigger] nn[i];
            &&& n.col < cols
            &&& n.row < by_col@[n.col as int].len()
            &&& by_col@[n.col as int]@[n.row as int] == i
        } by {
            assert(n0[i].col == nn[i].col && n0[i].row == nn[i].row);
        }
        assert forall|cc: int, k: int| 0 <= cc < cols && 0 <= k < by_col@[cc].len() implies {
            let i = #[trigger] by_col@[cc]@[k];
            &&& i < nn.len()
            &&& nn[i as int].col == cc
            &&& nn[i as int].row == k
        } by {
            let i = by_col@[cc]@[k];
            assert(n0[i as int].col == nn[i as int].col);
        }
    }
    height
}

/// Down one column, each row's bottom is no lower than the next one's.
proof fn lemma_stack_below(nn: Seq<Node>, members: Seq<usize>, r: int, last: int)
    requires
        0 <= r <= last < members.len(),
        forall|q: int| 0 <= q < members.len() ==> (#[trigger] members[q]) < nn.len(),
        forall|q: int| 0 < q < members.len() ==> nn[#[trigger] members[q] as int].y == nn[members[q - 1] as int].y
            + node_h(nn[members[q - 1] as int]) + ROW_GAP,
    ensures
        nn[members[r] as int].y + node_h(nn[members[r] as int]) <= nn[members[last] as int].y + node_h(
            nn[members[last] as int],
        ),
    decreases last - r,
{
    if r < last {
        lemma_stack_below(nn, members, r + 1, last);
        assert(nn[members[r + 1] as int].y == nn[members[r] as int].y + node_h(nn[members[r] as int]) + ROW_GAP);
    }
}

proof fn lemma_rows_packed(nodes: Seq<Node>, by_col: Seq<Vec<usize>>, cols: int)
    requires
        rows_ok(nodes, by_col, cols),
    ensures
        rows_packed(nodes),
{
    assert forall|i: int, j: int|
        #![trigger nodes[i], nodes[j]]
        0 <= i < nodes.len() && 0 <= j < nodes.len() && i != j && nodes[i].col == nodes[j].col implies nodes[i].row
            != nodes[j].row by {
        assert(by_col[nodes[i].col as int]@[nodes[i].row as int] == i);
        assert(by_col[nodes[j].col as int]@[nodes[j].row as int] == j);
    }
    assert forall|i: int| 0 <= i < nodes.len() && (#[trigger] nodes[i]).row > 0 implies exists|j: int|
        0 <= j < nodes.len() && nodes[j].col == nodes[i].col && (#[trigger] nodes[j]).row + 1 == nodes[i].row by {
        let c = nodes[i].col as int;
        let j = by_col[c]@[nodes[i].row - 1];
        assert(nodes[j as int].row + 1 == nodes[i].row);
    }
}

proof fn lemma_leaning(nb: Seq<Node>, na: Seq<Node>, by_col: Seq<Vec<usize>>, links: Seq<Link>, cols: int)
    requires
        rows_ok(nb, by_col, cols),
        adjacent(nb, links),
        forall|c: int| 1 <= c < cols ==> leans_in_order(nb, by_col, links, c, true),
        na.len() == nb.len(),
        forall|i: int| 0 <= i < nb.len() ==> (#[trigger] na[i]).row == nb[i].row && na[i].col == nb[i].col,
    ensures
        leaning_order(na, links),
{
    assert forall|i: int, j: int|
        #![trigger na[i], na[j]]
        0 <= i < na.len() && 0 <= j < na.len() && na[i].col == na[j].col && na[i].col >= 1 && na[i].row < na[j].row
            && lean_count(links, i, true) > 0 && lean_count(links, j, true) > 0 implies key_le(
            bary(links, na, i, true),
            bary(links, na, j, true),
        ) by {
        let c = nb[i].col as int;
        assert(by_col[c]@[nb[i].row as int] == i);
        assert(by_col[c]@[nb[j].row as int] == j);
        assert(leans_in_order(nb, by_col, links, c, true));
        assert forall|q: int| 0 <= q < links.len() && touches(#[trigger] links[q], i, true) implies
            nb[across(links[q], true)].row == na[across(links[q], true)].row by {
            assert(links[q].from < nb.len());
        }
        assert forall|q: int| 0 <= q < links.len() && touches(#[trigger] links[q], j, true) implies
            nb[across(links[q], true)].row == na[across(links[q], true)].row by {
            assert(links[q].from < nb.len());
        }
        lemma_lean_frame(links, nb, na, i, true);
        lemma_lean_frame(links, nb, na, j, true);
    }
}

// ---------------------------------------------------------------------
// The layout
// ---------------------------------------------------------------------

/// How many barycentre sweeps order the columns: down, up, down.
const SWEEPS: usize = 3;

/// The computed placement of every module, indexed like the plan's
/// modules, with the nodes, hops and edge tones the edges are drawn from.
#[derive(Debug)]
pub struct GraphLayout {
    pub slots: Vec<Slot>,
    pub cols: usize,
    pub nodes: Vec<Node>,
    pub links: Vec<Link>,
    /// Tone per edge, indexed by [`Link::edge`].
    pub tones: Vec<EdgeLineTone>,
    pub height: u128,
}

impl GraphLayout {
    /// Columns by depth, long edges split through pass-through rows, and
    /// each column ordered by barycentre sweeps (a node sits near the
    /// mean row of its neighbours, looking left, then right, then left
    /// again), rows stacked into canvas pixels.
    #[verifier::rlimit(60)]
    pub fn compute(modules: &Vec<Module>) -> (l: GraphLayout)
        requires
            depths_ok(modules@),
        ensures
            l.cols == col_count(modules@),
            l.cols >= 1,
            l.slots@.len() == modules@.len(),
            forall|i: int| 0 <= i < modules@.len() ==> #[trigger] l.slots@[i] == (Slot {
                col: l.nodes@[i].col,
                row: l.nodes@[i].row,
            }),
            nodes_ok(modules@, l.nodes@, l.cols as int),
            links_ok(l.nodes@, l.links@, l.tones@.len() as int),
            tones_ok(modules@, l.tones@, edges_of(modules@)),
            hops_ok(modules@, l.links@, edges_of(modules@)),
            rows_packed(l.nodes@),
            leaning_order(l.nodes@, l.links@),
            stacked(l.nodes@),
            tall_enough(l.nodes@, l.height as int),
            alike_in_order(l.nodes@, l.links@),
            forall|e: int| 0 <= e < edges_of(modules@).len() ==> {
                let (s, t) = #[trigger] edges_of(modules@)[e];
                &&& modules@[t].status == Status::Done ==> l.tones@[e] == EdgeLineTone::Muted
                &&& modules@[t].status != Status::Done && modules@[s].status == Status::Done ==> l.tones@[e]
                    == EdgeLineTone::Open
                &&& modules@[t].status != Status::Done && modules@[s].status != Status::Done ==> l.tones@[e]
                    == EdgeLineTone::Blocking
            },
            forall|e: int| 0 <= e < edges_of(modules@).len() ==> {
                let (s, t) = #[trigger] edges_of(modules@)[e];
                l.slots@[s].col < l.slots@[t].col
            },
    {
        proof {
            lemma_max_depth(modules@);
            lemma_edges_upto(modules@, modules@.len() as int);
            if modules@.len() > 0 {
                assert(modules@[0].depth >= 1);
            }
        }
        let cols = column_count(modules);
        let (mut nodes, links, tones) = build(modules, cols);
        let ghost built = nodes@;
        let mut by_col = place_rows(&mut nodes, cols);
        proof {
            assert forall|x: int, y: int|
                0 <= x < y < nodes@.len() && nodes@[x].col == nodes@[y].col && #[trigger] alike(links@, x, y)
                    implies nodes@[x].row < nodes@[y].row by {
                let c = nodes@[x].col as int;
                let px = nodes@[x].row as int;
                let py = nodes@[y].row as int;
                assert(by_col@[c]@[px] == x && by_col@[c]@[py] == y);
                if py < px {
                    assert(by_col@[c]@[py] < by_col@[c]@[px]);
                }
            }
            assert forall|j: int| 0 <= j < links@.len() implies {
                let l = #[trigger] links@[j];
                &&& l.from < nodes@.len()
                &&& l.to < nodes@.len()
                &&& nodes@[l.from as int].col + 1 == nodes@[l.to as int].col
            } by {
                let l = links@[j];
                assert(nodes@[l.from as int].col == built[l.from as int].col);
                assert(nodes@[l.to as int].col == built[l.to as int].col);
            }
        }
        let mut sweep: usize = 0;
        while sweep < SWEEPS
            invariant
                sweep <= SWEEPS,
                rows_ok(nodes@, by_col@, cols as int),
                adjacent(nodes@, links@),
                same_places(nodes@, built),
                sweep > 0 && (sweep - 1) % 2 == 0 ==> forall|c: int|
                    1 <= c < cols ==> leans_in_order(nodes@, by_col@, links@, c, true),
                alike_in_order(nodes@, links@),
            decreases SWEEPS - sweep,
        {
            if sweep % 2 == 0 {
                sweep_down(&mut nodes, &mut by_col, &links, cols);
            } else {
                sweep_up(&mut nodes, &mut by_col, &links, cols);
            }
            sweep = sweep + 1;
        }
        let ghost swept = nodes@;
        let height = place_tops(&mut nodes, &by_col, cols);
        proof {
            lemma_rows_packed(nodes@, by_col@, cols as int);
            lemma_leaning(swept, nodes@, by_col@, links@, cols as int);
            assert forall|j: int| 0 <= j < links@.len() implies {
                let l = #[trigger] links@[j];
                &&& l.from < nodes@.len()
                &&& l.to < nodes@.len()
                &&& nodes@[l.from as int].col + 1 == nodes@[l.to as int].col
                &&& l.edge < tones@.len()
            } by {
                let l = links@[j];
                assert(nodes@[l.from as int].col == built[l.from as int].col);
                assert(nodes@[l.to as int].col == built[l.to as int].col);
            }
            assert forall|i: int| 0 <= i < nodes@.len() implies (#[trigger] nodes@[i]).col < cols by {
                assert(nodes@[i].col == built[i].col);
            }
            assert forall|i: int| 0 <= i < modules@.len() implies (#[trigger] nodes@[i]).module == Some(i as usize)
                && nodes@[i].col == modules@[i].depth - 1 by {
                assert(nodes@[i].col == built[i].col);
            }
            assert forall|i: int| modules@.len() <= i < nodes@.len() implies (#[trigger] nodes@[i]).module is None by {
                assert(nodes@[i].module == built[i].module);
            }
        }
        let mut slots: Vec<Slot> = Vec::new();
        let mut i: usize = 0;
        while i < modules.len()
            invariant
                i <= modules@.len(),
                modules@.len() <= nodes@.len(),
                slots@.len() == i,
                forall|q: int| 0 <= q < i ==> #[trigger] slots@[q] == (Slot { col: nodes@[q].col, row: nodes@[q].row }),
            decreases modules@.len() - i,
        {
            slots.push(Slot { col: nodes[i].col, row: nodes[i].row });
            i = i + 1;
        }
        proof {
            assert forall|e: int| 0 <= e < edges_of(modules@).len() implies {
                let (s, t) = #[trigger] edges_of(modules@)[e];
                slots@[s].col < slots@[t].col
            } by {
                let (s, t) = edges_of(modules@)[e];
                assert(nodes@[s].col == modules@[s].depth - 1);
                assert(nodes@[t].col == modules@[t].depth - 1);
                assert(modules@[s].depth >= 1);
            }
        }
        proof {
            law_edge_tones(modules@, tones@);
        }
        GraphLayout { slots, cols, nodes, links, tones, height }
    }

    /// Left edge of a column's cards.
    pub fn x(&self, col: usize) -> (r: u128)
        ensures
            r == PAD + col * (CARD_W + COL_GAP),
    {
        PAD + col as u128 * (CARD_W + COL_GAP)
    }

    /// Top edge of a module's card.
    pub fn y_of(&self, module: usize) -> (r: u128)
        requires
            module < self.nodes@.len(),
        ensures
            r == self.nodes@[module as int].y,
    {
        self.nodes[module].y
    }

    /// Every module's card at its place.
    pub fn cards(&self) -> (r: Vec<CardSlot>)
        requires
            self.slots@.len() <= self.nodes@.len(),
        ensures
            r@.len() == self.slots@.len(),
            forall|m: int| 0 <= m < r@.len() ==> #[trigger] r@[m] == (CardSlot {
                module: m as usize,
                x: (PAD + self.slots@[m].col * (CARD_W + COL_GAP)) as u128,
                y: self.nodes@[m].y,
            }),
    {
        let mut out: Vec<CardSlot> = Vec::new();
        let mut m: usize = 0;
        while m < self.slots.len()
            invariant
                m <= self.slots@.len(),
                self.slots@.len() <= self.nodes@.len(),
                out@.len() == m,
                forall|q: int| 0 <= q < m ==> #[trigger] out@[q] == (CardSlot {
                    module: q as usize,
                    x: (PAD + self.slots@[q].col * (CARD_W + COL_GAP)) as u128,
                    y: self.nodes@[q].y,
                }),
            decreases self.slots@.len() - m,
        {
            let x = self.x(self.slots[m].col);
            let y = self.y_of(m);
            out.push(CardSlot { module: m, x, y });
            m = m + 1;
        }
        out
    }

    /// Canvas width, padding included.
    pub fn width(&self) -> (r: u128)
        requires
            self.cols >= 1,
        ensures
            r == PAD * 2 + self.cols * CARD_W + (self.cols - 1) * COL_GAP,
    {
        PAD * 2 + self.cols as u128 * CARD_W + (self.cols - 1) as u128 * COL_GAP
    }

    /// Canvas height, padding included.
    pub fn height(&self) -> (r: u128)
        ensures
            r == self.height,
    {
        self.height
    }
}

} // verus!
