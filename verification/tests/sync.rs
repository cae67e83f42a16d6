use control_center::cache::{apply_board, Current};
use control_center::sync::{
    denied_after,
    claim, drawer_target, landing_feature, pool_page_after, release, step, Fetch, Frame, PoolKey,
    Screen, SyncState, Tick, POLL_MICROS,
};
use control_center::wire::{Board, FeatureRollupDto};

fn screen(pane: &str) -> Screen {
    Screen {
        pane: pane.into(),
        feature: 0,
        selected: None,
        view: "graph".into(),
        pool: PoolKey::default(),
        want: None,
    }
}

fn frame(now: u64, pane: &str) -> Frame {
    Frame { now, tick: None, nudge: 0, screen: screen(pane), older: None }
}

fn kinds(fs: &[Fetch]) -> Vec<&'static str> {
    fs.iter()
        .map(|f| match f {
            Fetch::Board => "board",
            Fetch::Feature(_) => "feature",
            Fetch::Module(_) => "module",
            Fetch::Feed { .. } => "feed",
            Fetch::Pool(_) => "pool",
            Fetch::Want(_) => "want",
        })
        .collect()
}

#[test]
fn the_first_frame_reads_the_board_and_a_held_slot_waits() {
    let cur = Current::new();
    let mut st = SyncState::new();
    let fs = step(&mut st, &cur, &frame(5, "overview"));
    assert_eq!(kinds(&fs), vec!["board"]);
    assert_eq!(st.last_poll, Some(5));
    // Nothing new: nothing issued.
    assert!(step(&mut st, &cur, &frame(6, "overview")).is_empty());
    // A tick marks the board stale, but its read is still on the way.
    let mut f = frame(7, "overview");
    f.tick = Some(Tick { seq: 3, kind: "module_claimed".into(), feature_id: None });
    assert!(step(&mut st, &cur, &f).is_empty());
    assert_eq!(st.seen_seq, 3);
    assert!(st.stale_board);
    // Once it answers, the stale board goes out.
    release(&mut st.in_flight, "board");
    assert_eq!(kinds(&step(&mut st, &cur, &frame(8, "overview"))), vec!["board"]);
}

#[test]
fn the_wants_screen_reads_its_page_and_the_poll_refreshes_it() {
    let cur = Current::new();
    let mut st = SyncState::new();
    let fs = step(&mut st, &cur, &frame(0, "wants"));
    assert_eq!(kinds(&fs), vec!["board", "pool"]);
    release(&mut st.in_flight, "board");
    release(&mut st.in_flight, "pool");
    assert!(step(&mut st, &cur, &frame(10, "wants")).is_empty());
    // The fallback poll refreshes everything.
    assert_eq!(kinds(&step(&mut st, &cur, &frame(10 + POLL_MICROS, "wants"))), vec!["board", "pool"]);
}

#[test]
fn the_feature_pane_reads_its_graph() {
    let mut cur = Current::new();
    let mut board = Board::default();
    board.features.push(FeatureRollupDto { id: "f".into(), name: "F".into(), ..Default::default() });
    apply_board(&mut cur, board, 0);
    let mut st = SyncState::new();
    let fs = step(&mut st, &cur, &frame(0, "feature"));
    assert_eq!(kinds(&fs), vec!["board", "feature"]);
    match &fs[1] {
        Fetch::Feature(id) => assert_eq!(id, "f"),
        _ => unreachable!(),
    }
}

#[test]
fn a_slot_is_held_until_released_or_stale() {
    let mut v: Vec<(String, u64)> = Vec::new();
    assert!(claim(&mut v, 100, "board"));
    assert!(!claim(&mut v, 101, "board"), "a fresh read holds the slot");
    assert!(claim(&mut v, 101, "feature"));
    assert!(claim(&mut v, 100 + POLL_MICROS, "board"), "a stale entry gives way");
    assert_eq!(v.len(), 2);
    release(&mut v, "board");
    assert_eq!(v, vec![("feature".to_string(), 101)]);
    release(&mut v, "nothing");
    assert_eq!(v.len(), 1);
}

#[test]
fn the_pool_pager_steps_back_when_the_pool_shrinks() {
    assert_eq!(pool_page_after(5, 30), Some(1));
    assert_eq!(pool_page_after(1, 30), None);
    assert_eq!(pool_page_after(3, 0), Some(0));
    assert_eq!(pool_page_after(0, -2), None);
    assert_eq!(pool_page_after(2, 41), None);
}

#[test]
fn only_the_first_board_moves_the_selection() {
    let mut cur = Current::new();
    let mut board = Board::default();
    board.features.push(FeatureRollupDto { id: "a".into(), status: "done".into(), ..Default::default() });
    board.features.push(FeatureRollupDto { id: "b".into(), status: "in_progress".into(), ..Default::default() });
    apply_board(&mut cur, board, 0);
    assert_eq!(landing_feature(true, true, &cur), Some(1));
    assert_eq!(landing_feature(false, true, &cur), None);
    assert_eq!(landing_feature(true, false, &cur), None);
    assert_eq!(drawer_target(&cur, 9, "m"), None);
    assert_eq!(drawer_target(&cur, 0, "m"), None);
}

#[test]
fn a_released_slot_is_free_at_once() {
    let mut v: Vec<(String, u64)> = Vec::new();
    assert!(claim(&mut v, 100, "feed:f1:0"));
    assert!(!claim(&mut v, 100 + POLL_MICROS - 1, "feed:f1:0"));
    release(&mut v, "feed:f1:0");
    assert!(claim(&mut v, 101, "feed:f1:0"));
    assert_eq!(v, vec![("feed:f1:0".to_string(), 101)]);
}

#[test]
fn a_board_clears_the_refusal_and_a_401_sets_it() {
    assert!(!denied_after(true, true, None));
    assert!(denied_after(false, false, Some(401)));
    assert!(denied_after(true, false, Some(500)));
    assert!(!denied_after(false, false, None));
}
