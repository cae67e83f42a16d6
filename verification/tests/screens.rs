use control_center::cache::{apply_roadmap, Current};
use control_center::model::{RoadFeature, RoadItem, RoadState, Roadmap, Status};
use control_center::screens::{
    empty_pane, feature_filters_set, graph_blank, pool_filters_set, nav_entries, overview_meta, pane_view, pending_line, road_card,
    road_feature_row, road_panel, roadmap_meta, PaneView,
};
use control_center::wire::{RoadmapDto, RoadmapEdgeDto, RoadmapFeatureDto, RoadmapItemDto};

#[test]
fn the_pane_shows_the_view_its_tab_names() {
    assert_eq!(pane_view("graph"), PaneView::Graph);
    assert_eq!(pane_view("whitepaper"), PaneView::Whitepaper);
    assert_eq!(pane_view("discussion"), PaneView::Discussion);
    assert_eq!(pane_view("nope"), PaneView::Blank);
    assert_eq!(
        pending_line(1),
        "1 open question \u{2014} nothing in this feature is dispatchable until answered."
    );
    assert_eq!(
        pending_line(3),
        "3 open questions \u{2014} nothing in this feature is dispatchable until answered."
    );
    assert_eq!(graph_blank(false), "Loading the graph\u{2026}");
    assert_eq!(graph_blank(true), "No modules planned.");
    assert!(!feature_filters_set("", "all"));
    assert!(feature_filters_set("x", "all"));
    assert!(feature_filters_set("", "done"));
}

#[test]
fn the_nav_lights_the_pane_and_carries_its_counts() {
    let es = nav_entries("feature", 12, 4, 2);
    let ids: Vec<&str> = es.iter().map(|e| e.id).collect();
    assert_eq!(ids, vec!["overview", "features", "roadmap", "wants", "capture", "knowledge"]);
    assert!(es[1].selected && !es[0].selected);
    assert_eq!((es[1].count, es[2].count, es[3].count), (12, 2, 4));
    assert!(es[2].urgent && es[3].urgent && !es[1].urgent);
    assert!(nav_entries("features", 0, 0, 0)[1].selected);
    assert!(nav_entries("knowledge", 0, 0, 0)[5].selected);
}

#[test]
fn a_roadmap_card_reads_its_item() {
    let mut cur = Current::new();
    apply_roadmap(
        &mut cur,
        RoadmapDto {
            items: vec![RoadmapItemDto {
                id: "r".into(),
                name: "Invoices".into(),
                intent: "  ".into(),
                state: "ready".into(),
                depends_on: vec![
                    RoadmapEdgeDto { item_id: "a".into(), name: "Ledger".into(), hard: true, shipped: false },
                    RoadmapEdgeDto { item_id: "b".into(), name: "Auth".into(), hard: false, shipped: true },
                    RoadmapEdgeDto { item_id: "c".into(), name: "Tax".into(), hard: false, shipped: false },
                ],
                unlocks: vec![RoadmapEdgeDto { item_id: "d".into(), name: "Refunds".into(), ..Default::default() }],
                features: vec![
                    RoadmapFeatureDto { id: "f".into(), released: true, ..Default::default() },
                    RoadmapFeatureDto { id: "g".into(), released: false, ..Default::default() },
                ],
                ..Default::default()
            }],
            ..Default::default()
        },
    );
    let card = road_card(&cur, "r");
    assert_eq!(card.name, "Invoices");
    assert_eq!(card.intent, "No intent written. An item without one teaches nobody anything.");
    assert_eq!(card.state_label, "Ready to ship");
    assert_eq!(card.status, Status::Planning);
    assert_eq!(card.feature_line, "1/2 features released");
    assert_eq!(card.waits, vec!["waits on Ledger \u{b7} hard", "waits on Tax"]);
    assert_eq!(card.unlocks, vec!["unlocks Refunds"]);
    let blank = road_card(&cur, "zz");
    assert_eq!((blank.name.as_str(), blank.state_label.as_str()), ("", "Future"));
}

#[test]
fn the_summary_lines() {
    assert_eq!(overview_meta(3, 2, 7), "3 features in play \u{b7} 2 agents working \u{b7} 7 loose ideas");
    let road = Roadmap {
        items: vec![
            RoadItem {
                id: "a".into(),
                state: RoadState::Shipped,
                features: vec![RoadFeature { id: "f".into(), name: "F".into(), released: true, modules_done: 2, modules_total: 2, ..Default::default() }],
                ..Default::default()
            },
            RoadItem { id: "b".into(), state: RoadState::Ready, ..Default::default() },
            RoadItem { id: "c".into(), shelved: true, ..Default::default() },
        ],
        loose_features: vec![RoadFeature { id: "g".into(), name: "G".into(), status: "done".into(), modules_done: 1, modules_total: 3, ..Default::default() }],
    };
    assert_eq!(roadmap_meta(&road), "2 items \u{b7} 1 shipped \u{b7} 1 ready to ship \u{b7} 1 loose feature");
    let r = road_feature_row(&road, "f");
    assert_eq!((r.name.as_str(), r.ship_state, r.counts.as_str()), ("F", "out", "2/2"));
    let r = road_feature_row(&road, "g");
    assert_eq!((r.name.as_str(), r.ship_state, r.counts.as_str()), ("G", "unreleased", "1/3"));
    let r = road_feature_row(&road, "nope");
    assert_eq!((r.name.as_str(), r.ship_state, r.counts.as_str()), ("", "", ""));
    let item = RoadItem {
        shipped_at: "May 2".into(),
        shipped_by: "ana".into(),
        vision: " ".into(),
        depends_on: vec![control_center::model::RoadEdge { item_id: "x".into(), name: "Ledger".into(), hard: true, shipped: true }],
        ..Default::default()
    };
    let p = road_panel(&item);
    assert_eq!(p.shipped, "Shipped May 2 by ana");
    assert_eq!(p.waits, vec!["Ledger \u{b7} hard \u{b7} shipped"]);
    assert!(!p.has_vision);
}

#[test]
fn the_pool_offers_clear_filters_once_any_filter_is_set() {
    assert!(!pool_filters_set("", "all", &vec![]));
    assert!(pool_filters_set("ux", "all", &vec![]));
    assert!(pool_filters_set("", "open", &vec![]));
    assert!(pool_filters_set("", "all", &vec!["billing".to_string()]));
}

#[test]
fn the_empty_pane_says_whether_the_host_answered() {
    let (title, _, button) = empty_pane(true);
    assert_eq!(title, "No features yet");
    assert!(button);
    let (title, body, button) = empty_pane(false);
    assert_eq!(title, "Connecting to mcpm\u{2026}");
    assert!(body.starts_with("Start the API host"));
    assert!(!button);
}
