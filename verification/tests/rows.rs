use std::rc::Rc;

use control_center::edits::Edit;
use control_center::model::{
    AgentHealthRow, AgentRow, Attachment, Comment, EventItem, Feature, Feed, Module, Status, Task,
    WantState, Word,
};
use control_center::rows::{
    can_post, post_verb,
    agents_live, all_features_label, answering_line, card_of, comment_row, feature_head, feed_facts,
    file_row, gate_title, key_changes, key_given, key_pill, page_rows, pager_facts, range_line,
    roster_facts, table_page, want_state_word,
};

#[test]
fn a_file_says_where_it_came_in() {
    let a = Attachment {
        id: "att".into(),
        via_want_id: "w1".into(),
        via_want: "x".repeat(60),
        via_module: "Billing".into(),
        comment_author: "ana".into(),
        ..Default::default()
    };
    let row = file_row(&a, "f", false);
    assert_eq!(row.origins.len(), 3);
    assert_eq!(row.origins[0], format!("via: {}\u{2026}", "x".repeat(48)));
    assert_eq!(row.origins[1], "in: Billing");
    assert_eq!(row.origins[2], "with a comment by ana");
    assert!(!row.own && row.entries.is_empty(), "the want's file is the want's to edit");
    let own = Attachment { id: "att".into(), comment_author: "ana".into(), ..Default::default() };
    let row = file_row(&own, "f", true);
    assert!(row.origins.is_empty(), "inside its comment the comment goes unsaid");
    assert_eq!(row.entries.len(), 2);
    assert_eq!(row.entries[1].label, "Remove");
    assert!(row.entries[1].danger);
    assert_eq!(row.entries[0].edit, Edit::DescribeAttachment { subject: "f".into(), attachment: "att".into() });
}

#[test]
fn a_comment_reads_its_state_and_offers_its_edits() {
    let mut c = Comment {
        id: "c1".into(),
        kind: "question".into(),
        body: "  why? ".into(),
        author: "me".into(),
        posted: "May 1 10:00".into(),
        edited: true,
        ..Default::default()
    };
    let r = comment_row(&c, "s", "me");
    assert_eq!(r.posted, "May 1 10:00 \u{b7} edited");
    assert!(r.has_body && r.open);
    assert_eq!(r.status_line, "Open \u{2014} owed by anyone");
    let labels: Vec<&str> = r.entries.iter().map(|e| e.label.as_str()).collect();
    assert_eq!(labels, vec!["Edit", "Withdraw question"]);
    c.resolved = true;
    c.resolved_by = "bo".into();
    let r = comment_row(&c, "s", "me");
    assert_eq!(r.status_line, "Answered by bo");
    assert_eq!(r.entries.len(), 1, "an answered question is history");
    let r = comment_row(&c, "s", "someone else");
    assert!(r.entries.is_empty());
    c.kind = "answer".into();
    assert!(comment_row(&c, "s", "me").entries.is_empty());
    c.kind = "note".into();
    let r = comment_row(&c, "s", "me");
    assert_eq!(r.status_line, "");
    assert_eq!(r.entries[1].label, "Delete");
    assert_eq!(answering_line("ana", "why?"), "Answering ana: why?");
}

#[test]
fn counts_read_as_words() {
    assert_eq!(agents_live(3), "3 agents live");
    let fs = vec![
        Feature { status: Status::Done, ..Default::default() },
        Feature { status: Status::Running, ..Default::default() },
    ];
    assert_eq!(all_features_label(&fs), "All 2 features, 1 complete \u{2192}");
    assert_eq!(all_features_label(&fs[1..]), "All 1 features \u{2192}");
    assert_eq!(want_state_word(WantState::Promoted), "Composed");
}

#[test]
fn a_table_pages_and_clamps() {
    let p = table_page(45, 9, 20);
    assert_eq!((p.pages, p.page, p.start), (3, 2, 40));
    let p = table_page(0, 3, 20);
    assert_eq!((p.pages, p.page, p.start), (1, 0, 0));
    assert_eq!(range_line(45, 40, 5, "No features match"), "41\u{2013}45 of 45");
    assert_eq!(range_line(0, 0, 0, "No features match"), "No features match");
    let rows: Vec<usize> = (0..45).collect();
    assert_eq!(page_rows(&rows, 40, 20), vec![40, 41, 42, 43, 44]);
    assert!(page_rows(&rows, 60, 20).is_empty());
    let f = pager_facts(0, 3);
    assert_eq!(f.of_label, "Page 1 of 3");
    assert!(!f.back_on && f.next_on);
    let f = pager_facts(2, 3);
    assert!(f.back_on && !f.next_on);
}

#[test]
fn the_key_screen_words() {
    assert_eq!(gate_title(true, true), "This host needs a key");
    assert_eq!(gate_title(true, false), "This key was refused");
    assert_eq!(gate_title(false, true), "API key");
    assert_eq!(key_pill(true), ("no key", Status::Queued));
    assert_eq!(key_pill(false), ("key set", Status::Done));
    assert!(!key_changes(" k ", "k"));
    assert!(key_changes("k2", "k"));
    assert!(!key_given("   "));
    assert!(key_given(" k"));
}

fn module(id: &str, name: &str) -> Module {
    Module { id: id.into(), name: name.into(), ..Default::default() }
}

#[test]
fn a_card_says_what_it_waits_on_or_what_its_worker_said() {
    let mut waiting = module("c", "Client");
    waiting.waiting_on = vec!["a".into(), "b".into()];
    waiting.tasks = vec![
        Task { id: "t1".into(), label: "x".into(), done: true, added: false },
        Task { id: "t2".into(), label: "y".into(), done: false, added: false },
    ];
    let mut talking = module("d", "Docs");
    talking.status = Status::Running;
    talking.last_word = Some(Word { text: "writing the index".into(), ..Default::default() });
    let f = Feature {
        modules: Rc::new(vec![module("a", "Schema"), module("b", "Api"), waiting, talking]),
        ..Default::default()
    };
    let card = card_of(&f, 2);
    assert_eq!(card.ticks, vec![true, false]);
    assert_eq!(card.waits.as_deref(), Some("waits on Schema, Api"));
    assert!(card.word.is_none());
    let card = card_of(&f, 3);
    assert!(card.waits.is_none());
    assert_eq!(card.word.as_deref(), Some("\u{201c}writing the index\u{201d}"));
}

#[test]
fn a_feature_head_counts_its_questions_and_files() {
    let mut m = module("a", "A");
    m.open_questions = vec![Default::default(), Default::default()];
    let f = Feature {
        modules_done: 1,
        modules_total: 3,
        modules_ready: 1,
        tasks_done: 1,
        tasks_total: 4,
        tasks_added: 2,
        elapsed: "3d".into(),
        modules: Rc::new(vec![m]),
        open_questions: Rc::new(vec![Default::default()]),
        attachments: Rc::new(vec![Default::default()]),
        ..Default::default()
    };
    let h = feature_head(&f);
    assert_eq!(h.pending, 3);
    assert_eq!(h.files, 1);
    assert!(h.meta.ends_with(" \u{b7} 2 ad hoc \u{b7} 3d"), "{}", h.meta);
    assert!(h.meta.starts_with("1/3 modules"), "{}", h.meta);
}

#[test]
fn the_activity_tab_and_the_roster() {
    let f = feed_facts(None);
    assert_eq!(f.blank, Some("Loading the ledger\u{2026}"));
    let empty = Feed { events: vec![], exhausted: false };
    assert_eq!(feed_facts(Some(&empty)).blank, Some("No events yet for this feature."));
    let feed = Feed { events: vec![EventItem { seq: 9, ..Default::default() }, EventItem { seq: 4, ..Default::default() }], exhausted: false };
    let f = feed_facts(Some(&feed));
    assert_eq!((f.blank, f.last_seq, f.has_older), (None, Some(4), true));
    let a = AgentRow {
        id: "box".into(),
        state: Status::Running,
        health: Some(AgentHealthRow { tone: Status::Done, label: "up".into(), line: "200 in 12ms".into(), up: true }),
        last_seen: "May 1".into(),
        last_heard: Some(100),
        last_word: Some(Word { text: "hi".into(), at: "10:00".into(), subject: "api".into(), ..Default::default() }),
        ..Default::default()
    };
    let r = roster_facts(&a, 130);
    assert_eq!(r.dot, Status::Done);
    assert_eq!(r.tag, Some(("up".to_string(), Status::Done)));
    assert_eq!(r.seen, "seen May 1");
    assert_eq!(r.word, Some(("\u{201c}hi\u{201d}".to_string(), "10:00 on api".to_string())));
    assert!(r.live);
    assert!(r.quiet.is_none());
}

#[test]
fn the_discussion_button_names_what_it_posts() {
    assert_eq!(post_verb(true, "question"), "Answer");
    assert_eq!(post_verb(true, "note"), "Answer");
    assert_eq!(post_verb(false, "question"), "Ask");
    assert_eq!(post_verb(false, "note"), "Post");
}

#[test]
fn the_discussion_button_waits_for_words_or_a_file() {
    assert!(!can_post("", 0));
    assert!(!can_post("  \n ", 0));
    assert!(can_post(" hi ", 0));
    assert!(can_post("", 1));
}
