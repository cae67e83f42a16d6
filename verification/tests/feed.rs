use control_center::cache::{apply_events, feed, Current};
use control_center::wire::{EventDto, EventPage};

fn page(feature: &str, seqs: &[i64], more: bool) -> EventPage {
    EventPage {
        feature_id: feature.to_string(),
        events: seqs
            .iter()
            .map(|&seq| EventDto { seq, kind: "task_done".into(), ..Default::default() })
            .collect(),
        more,
    }
}

fn seqs(cur: &Current, feature: &str) -> Vec<i64> {
    feed(cur, feature).map(|f| f.events.iter().map(|e| e.seq).collect()).unwrap_or_default()
}

// The feed is assembled from pages that arrive in either direction:
// the newest page again on every tick, an older page when the reader
// pages back. Both merge on seq; neither duplicates a row.
#[test]
fn pages_merge_on_seq_in_both_directions() {
    let mut cur = Current::new();
    let f = "feat_merge";
    assert!(apply_events(&mut cur, page(f, &[30, 29, 28], true)));
    assert_eq!(seqs(&cur, f), vec![30, 29, 28]);
    assert!(!feed(&cur, f).unwrap().exhausted);

    // A refresh that overlaps adds only what is new.
    assert!(apply_events(&mut cur, page(f, &[32, 31, 30], true)));
    assert_eq!(seqs(&cur, f), vec![32, 31, 30, 29, 28]);
    // And the same refresh again changes nothing.
    assert!(!apply_events(&mut cur, page(f, &[32, 31, 30], true)));

    // Paging back appends, and reaching the end says so.
    assert!(apply_events(&mut cur, page(f, &[27, 26], false)));
    assert_eq!(seqs(&cur, f), vec![32, 31, 30, 29, 28, 27, 26]);
    assert!(feed(&cur, f).unwrap().exhausted);

    // A later refresh does not un-exhaust a fully read feed.
    assert!(apply_events(&mut cur, page(f, &[33, 32, 31], true)));
    assert!(feed(&cur, f).unwrap().exhausted);
}

// More landed since the last read than fit in a page: the newest page
// shares nothing with what is held. Stitching them together would hide
// a gap, so the page replaces the feed.
#[test]
fn a_newest_page_that_does_not_overlap_replaces_the_feed() {
    let mut cur = Current::new();
    let f = "feat_gap";
    assert!(apply_events(&mut cur, page(f, &[10, 9, 8], false)));
    assert!(feed(&cur, f).unwrap().exhausted);
    assert!(apply_events(&mut cur, page(f, &[90, 89, 88], true)));
    assert_eq!(seqs(&cur, f), vec![90, 89, 88]);
    assert!(!feed(&cur, f).unwrap().exhausted, "the gap means there is older history to page to");
}

#[test]
fn a_page_out_of_order_is_sorted_newest_first() {
    let mut cur = Current::new();
    assert!(apply_events(&mut cur, page("feat_sort", &[3, 9, 5, 9], true)));
    assert_eq!(seqs(&cur, "feat_sort"), vec![9, 9, 5, 3]);
}

#[test]
fn feeds_of_different_features_are_kept_apart() {
    let mut cur = Current::new();
    assert!(apply_events(&mut cur, page("a", &[2, 1], true)));
    assert!(apply_events(&mut cur, page("b", &[7], false)));
    assert_eq!(seqs(&cur, "a"), vec![2, 1]);
    assert_eq!(seqs(&cur, "b"), vec![7]);
    assert!(feed(&cur, "c").is_none());
}

#[test]
fn an_empty_page_twice_changes_nothing() {
    let mut cur = Current::new();
    assert!(apply_events(&mut cur, page("e", &[], false)));
    assert!(!apply_events(&mut cur, page("e", &[], false)));
    assert!(feed(&cur, "e").unwrap().exhausted);
}

#[test]
fn paging_back_drops_nothing_held() {
    let mut cur = Current::new();
    assert!(apply_events(&mut cur, page("p", &[20, 19], true)));
    // An older page repeating one row: the held rows stay, the repeat is
    // not duplicated.
    assert!(apply_events(&mut cur, page("p", &[19, 18], true)));
    assert_eq!(seqs(&cur, "p"), vec![20, 19, 18]);
    assert!(!feed(&cur, "p").unwrap().exhausted);
}

#[test]
fn mapped_rows_carry_the_ledger_kind_as_a_pill() {
    let mut cur = Current::new();
    let p = EventPage {
        feature_id: "k".into(),
        events: vec![
            EventDto { seq: 2, kind: "premature_claim".into(), agent: Some("bot".into()), ..Default::default() },
            EventDto { seq: 1, kind: "mystery".into(), ..Default::default() },
        ],
        more: false,
    };
    assert!(apply_events(&mut cur, p));
    let fd = feed(&cur, "k").unwrap();
    assert_eq!(fd.events[0].kind, "gate");
    assert_eq!(fd.events[0].tool, "premature_claim");
    assert_eq!(fd.events[0].agent, "bot");
    assert_eq!(fd.events[1].kind, "event");
    assert_eq!(fd.events[1].agent, "");
    assert_eq!(fd.oldest(), Some(1));
}

#[test]
fn a_feed_never_holds_a_seq_twice() {
    let mut cur = Current::new();
    let f = "feat_strict";
    assert!(apply_events(&mut cur, page(f, &[5, 9, 7], true)));
    assert!(apply_events(&mut cur, page(f, &[10, 9, 8], true)));
    assert!(apply_events(&mut cur, page(f, &[7, 6, 1], false)));
    let held = seqs(&cur, f);
    assert_eq!(held, vec![10, 9, 8, 7, 6, 5, 1]);
    assert!(held.windows(2).all(|w| w[0] > w[1]));
}
