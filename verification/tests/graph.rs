use control_center::graph::{EdgeLineTone, GraphLayout, Slot, CARD_H, CARD_W, PAD, PASS_H, ROW_GAP};
use control_center::model::{Module, Status};

fn module(id: &str, depth: usize, deps: &[&str], status: Status) -> Module {
    Module {
        id: id.into(),
        name: id.into(),
        status,
        depends_on: deps.iter().map(|d| d.to_string()).collect(),
        depth,
        ..Default::default()
    }
}

fn node_h(layout: &GraphLayout, i: usize) -> u128 {
    if layout.nodes[i].module.is_some() { CARD_H } else { PASS_H }
}

// No node's box overlaps another's in the same column, and every card
// lies inside the canvas.
fn assert_clear(layout: &GraphLayout) {
    for (i, a) in layout.nodes.iter().enumerate() {
        assert!(a.y + node_h(layout, i) + PAD <= layout.height());
        for (j, b) in layout.nodes.iter().enumerate() {
            if i != j && a.col == b.col {
                let (top_a, bot_a) = (a.y, a.y + node_h(layout, i));
                let (top_b, bot_b) = (b.y, b.y + node_h(layout, j));
                assert!(bot_a <= top_b || bot_b <= top_a, "nodes {i} and {j} overlap");
            }
        }
    }
    for card in layout.cards() {
        assert!(card.x + CARD_W <= layout.width() && card.y + CARD_H <= layout.height());
    }
}

// The worked scenario: a chain that fans out at the end. The two leaves
// share a column, sit under their common prerequisite, and every edge
// runs left to right.
#[test]
fn columns_follow_depth_and_edges_run_rightwards() {
    let modules = vec![
        module("schema", 1, &[], Status::Done),
        module("api", 2, &["schema"], Status::Running),
        module("app", 3, &["api"], Status::Queued),
        module("mcp", 3, &["api"], Status::Queued),
    ];
    let layout = GraphLayout::compute(&modules);
    assert_eq!(layout.cols, 3);
    assert_eq!(layout.slots[0], Slot { col: 0, row: 0 });
    assert_eq!(layout.slots[1], Slot { col: 1, row: 0 });
    assert_eq!(layout.slots[2], Slot { col: 2, row: 0 });
    assert_eq!(layout.slots[3], Slot { col: 2, row: 1 });
    // One hop per edge, each into the next column.
    assert_eq!(layout.links.len(), 3);
    for l in &layout.links {
        assert_eq!(layout.nodes[l.from].col + 1, layout.nodes[l.to].col);
    }
    // The satisfied edge is green; the open ones are amber.
    assert_eq!(layout.tones, vec![EdgeLineTone::Open, EdgeLineTone::Blocking, EdgeLineTone::Blocking]);
    assert_clear(&layout);
}

// A dependency that skips a column is routed through it on a row of its
// own, between the cards of that column.
#[test]
fn a_long_edge_passes_between_cards_not_under_them() {
    let modules = vec![
        module("a", 1, &[], Status::Done),
        module("b", 2, &["a"], Status::Done),
        module("c", 3, &["a", "b"], Status::Queued),
    ];
    let layout = GraphLayout::compute(&modules);
    // Column 1 holds b and the pass-through of a→c, so the canvas is
    // taller than one card.
    assert!(layout.height() > PAD * 2 + CARD_H + ROW_GAP);
    assert_eq!(layout.nodes.len(), 4);
    assert_eq!(layout.nodes[3].col, 1);
    assert!(layout.nodes[3].module.is_none());
    // a→b: 1 hop; a→c: 2 hops through the pass-through; b→c: 1 hop.
    assert_eq!(layout.links.len(), 4);
    assert_clear(&layout);
}

// The real shape that motivated the router: twelve modules over six
// columns with several two- and three-column dependencies.
#[test]
fn the_divisions_feature_routes_clean() {
    let modules = vec![
        module("division-schema", 1, &[], Status::Done),
        module("catalogs-by-division", 2, &["division-schema"], Status::Done),
        module("projects-and-members", 2, &["division-schema"], Status::Done),
        module("division-filter-dim", 3, &["projects-and-members"], Status::Done),
        module("mcp-tools", 3, &["catalogs-by-division", "projects-and-members"], Status::Running),
        module("permission-scope", 3, &["catalogs-by-division", "projects-and-members"], Status::Running),
        module("crew-screens", 4, &["catalogs-by-division", "projects-and-members", "division-filter-dim"], Status::Queued),
        module("projects-division", 4, &["projects-and-members", "division-filter-dim"], Status::Running),
        module("settings-screens", 4, &["catalogs-by-division", "division-filter-dim"], Status::Running),
        module("noun-by-division", 5, &["projects-division", "settings-screens"], Status::Queued),
        module("permission-group-ui", 5, &["crew-screens", "permission-scope"], Status::Queued),
        module(
            "gate-and-suite",
            6,
            &["crew-screens", "projects-division", "permission-group-ui", "mcp-tools", "settings-screens", "noun-by-division"],
            Status::Queued,
        ),
    ];
    let layout = GraphLayout::compute(&modules);
    assert_eq!(layout.cols, 6);
    for (i, m) in modules.iter().enumerate() {
        assert_eq!(layout.slots[i].col, m.depth - 1);
    }
    for l in &layout.links {
        assert_eq!(layout.nodes[l.from].col + 1, layout.nodes[l.to].col);
    }
    assert_clear(&layout);
}

// Two far dependents of one source share its pass-through row and split
// only in the gap before their column.
#[test]
fn long_edges_from_one_source_share_a_bus() {
    let modules = vec![
        module("a", 1, &[], Status::Done),
        module("b", 2, &["a"], Status::Done),
        module("c", 3, &["a", "b"], Status::Queued),
        module("d", 3, &["a", "b"], Status::Queued),
    ];
    let layout = GraphLayout::compute(&modules);
    // Column 1: b and ONE bus for a's two far edges.
    assert_eq!(layout.nodes.iter().filter(|n| n.col == 1).count(), 2);
    // a→b; a→bus once; bus→c; bus→d; b→c; b→d.
    assert_eq!(layout.links.len(), 6);
    assert_clear(&layout);
}

// The last sweep puts a column in the order of what its nodes lean on:
// the dependent of the lower prerequisite goes lower, whatever the plan
// order.
#[test]
fn a_column_follows_the_rows_of_its_prerequisites() {
    let modules = vec![
        module("a", 1, &[], Status::Done),
        module("b", 1, &[], Status::Done),
        module("c", 2, &["b"], Status::Queued),
        module("d", 2, &["a"], Status::Queued),
    ];
    let layout = GraphLayout::compute(&modules);
    let (c, d) = (layout.slots[2], layout.slots[3]);
    let (a, b) = (layout.slots[0], layout.slots[1]);
    assert_eq!((a.row < b.row), (d.row < c.row));
    assert_ne!(c.row, d.row);
}

// Rows stack from the top padding down: a card, a gap, the next card.
#[test]
fn rows_stack_from_the_top() {
    let modules = vec![
        module("a", 1, &[], Status::Done),
        module("b", 1, &[], Status::Done),
        module("c", 1, &[], Status::Done),
    ];
    let layout = GraphLayout::compute(&modules);
    let mut ys: Vec<u128> = (0..3).map(|i| layout.y_of(i)).collect();
    ys.sort();
    assert_eq!(ys, vec![24, 24 + 124 + 16, 24 + 2 * (124 + 16)]);
    assert_eq!(layout.height(), 24 + 3 * 124 + 2 * 16 + 24);
    assert_eq!(layout.width(), 24 * 2 + 232);
    assert_eq!(layout.x(2), 24 + 2 * (232 + 96));
}

// With nothing planned the canvas is one empty column: its padding only.
#[test]
fn an_empty_plan_is_one_blank_column() {
    let layout = GraphLayout::compute(&Vec::new());
    assert_eq!(layout.cols, 1);
    assert!(layout.slots.is_empty());
    assert_eq!(layout.height(), PAD * 2 - ROW_GAP);
}

// An edge into a module that is done is muted, whatever its source.
#[test]
fn a_done_dependent_mutes_its_edges() {
    let modules = vec![
        module("a", 1, &[], Status::Running),
        module("b", 2, &["a", "nowhere"], Status::Done),
    ];
    let layout = GraphLayout::compute(&modules);
    // The unknown prerequisite draws nothing.
    assert_eq!(layout.tones, vec![EdgeLineTone::Muted]);
}
