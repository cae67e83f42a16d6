use control_center::cache::{
    apply_board, apply_comments, apply_feature, apply_module, apply_roadmap, attachment_by_id,
    comment_by_id, feature_id_at, features, first_open_feature, has_detail, has_thread, loaded,
    module_detail, now_secs, roadmap, set_open_want, set_want_page, tag_names, want_by_id, you,
    AttentionTarget, Current,
};
use control_center::model::Status;
use control_center::wire::{
    AttachmentDto, AttentionDto, Board, CommentDto, CommentPage, DocumentDto, EventDto,
    FeatureDetail, FeatureRollupDto, ModuleDetail, ModuleDto, QuestionDto, RoadmapDto,
    RoadmapItemDto, TagDto, WantCountsDto, WantDto, WantPage,
};

// A feature's row is complete before its graph has been read: the
// counts come from the board, and only the module list waits.
#[test]
fn a_feature_row_stands_before_its_detail() {
    let mut cur = Current::new();
    let mut board = Board::default();
    board.features.push(FeatureRollupDto {
        id: "feat_row".into(),
        name: "Row".into(),
        status: "in_progress".into(),
        modules_done: 1,
        modules_total: 3,
        modules_ready: 1,
        tasks_done: 2,
        tasks_total: 8,
        ..Default::default()
    });
    assert!(apply_board(&mut cur, board, 0));
    let f = features(&cur);
    let row = f.iter().find(|f| f.id == "feat_row").expect("the board's row");
    assert!(!row.detail_loaded);
    assert_eq!(row.module_count(), (1, 3));
    assert_eq!(row.pct_label(), "25%");

    assert!(apply_feature(
        &mut cur,
        FeatureDetail {
            id: "feat_row".into(),
            modules: vec![ModuleDto { id: "mod_a".into(), ..Default::default() }],
            ..Default::default()
        }
    ));
    let f = features(&cur);
    let row = f.iter().find(|f| f.id == "feat_row").unwrap();
    assert!(row.detail_loaded);
    assert_eq!(row.modules.len(), 1);
    // The counts still come from the board, not the module list.
    assert_eq!(row.module_count(), (1, 3));
}

fn board_with(now: i64) -> Board {
    let mut board = Board::default();
    board.now = now;
    board.you = "nicho".into();
    board.project.name = "mcpm".into();
    board.tags = vec![
        TagDto { name: "ux".into(), label: "UX".into(), uses: 4 },
        TagDto { name: "ops".into(), label: "Ops".into(), uses: 1 },
    ];
    board.features = vec![
        FeatureRollupDto { id: "f1".into(), name: "Old".into(), status: "done".into(), ..Default::default() },
        FeatureRollupDto {
            id: "f2".into(),
            name: "New".into(),
            status: "in_progress".into(),
            started: "Sep 1".into(),
            last_activity: "Sep 3".into(),
            ..Default::default()
        },
    ];
    board.attention = vec![
        AttentionDto {
            kind: "rejected".into(),
            feature_id: "f2".into(),
            feature_name: "New".into(),
            module_id: "m1".into(),
            module_name: "Schema".into(),
            waiting_on: vec!["a".into(), "b".into()],
        },
        AttentionDto {
            kind: "blocked".into(),
            feature_id: "gone".into(),
            module_name: "Lost".into(),
            ..Default::default()
        },
    ];
    board.questions = vec![QuestionDto {
        id: "q1".into(),
        level: "feature".into(),
        subject_id: "f2".into(),
        subject_name: "New".into(),
        feature_id: "f2".into(),
        body: "Which?".into(),
        author: "bot".into(),
        ..Default::default()
    }];
    board.wants = WantCountsDto { open: 3, promoted: -1, declined: 2 };
    board
}

#[test]
fn a_board_lands_rows_attention_and_counts() {
    let mut cur = Current::new();
    assert!(!loaded(&cur));
    assert!(apply_board(&mut cur, board_with(1000), 900));
    assert!(loaded(&cur));
    assert_eq!(you(&cur), "nicho");
    assert_eq!(cur.project_name, "mcpm");
    assert_eq!(tag_names(&cur), vec!["ux".to_string(), "ops".to_string()]);
    assert_eq!(cur.want_counts, (3, 0, 2));
    assert_eq!(now_secs(&cur, 5), 105);
    assert_eq!(feature_id_at(&cur, 1), Some("f2".to_string()));
    assert_eq!(feature_id_at(&cur, 2), None);
    assert_eq!(first_open_feature(&cur), Some(1));
    let f = features(&cur);
    assert_eq!(f[0].status, Status::Done);
    assert_eq!(f[1].status, Status::Running);
    assert_eq!(f[1].elapsed, "Sep 1 \u{2192} Sep 3");
    assert_eq!(f[0].elapsed, "\u{2014}");
    assert_eq!(f[0].agent, "\u{2014}");
    // A flag whose feature is not on the board is dropped; the question
    // and the loose-idea nudge follow.
    let att = &cur.attention;
    assert_eq!(att.len(), 3);
    assert_eq!(att[0].kind, "gate");
    assert_eq!(att[0].title, "Claim on Schema denied \u{2014} waiting on a, b");
    assert_eq!(att[0].target, AttentionTarget::Module(1, "m1".into()));
    assert_eq!(att[1].kind, "question");
    assert_eq!(att[1].title, "bot asked on New: Which?");
    assert_eq!(att[1].place, "owed by anyone");
    assert_eq!(att[2].kind, "triage");
    assert_eq!(att[2].title, "3 loose ideas have never been composed or declined");
    assert_eq!(att[2].target, AttentionTarget::Pool);
}

// An idle poll returns the same board with a newer clock: nothing on
// screen changes, and only the clock offset moves.
#[test]
fn an_idle_poll_changes_nothing() {
    let mut cur = Current::new();
    assert!(apply_board(&mut cur, board_with(1000), 900));
    assert!(!apply_board(&mut cur, board_with(1030), 900));
    assert_eq!(now_secs(&cur, 900), 1030);
    let mut other = board_with(1060);
    other.you = "someone".into();
    assert!(apply_board(&mut cur, other, 900));
    assert_eq!(you(&cur), "someone");
}

#[test]
fn reads_again_are_no_news() {
    let mut cur = Current::new();
    let detail = || FeatureDetail { id: "f".into(), description: "d".into(), ..Default::default() };
    assert!(apply_feature(&mut cur, detail()));
    assert!(has_detail(&cur, "f"));
    assert!(!has_detail(&cur, "g"));
    assert!(!apply_feature(&mut cur, detail()));

    let module = || ModuleDetail {
        id: "m".into(),
        handoff: Some(DocumentDto { revision: 2, title: "t".into(), ..Default::default() }),
        history: vec![EventDto { kind: "premature_claim".into(), agent: Some("bot".into()), ..Default::default() }],
    };
    assert!(apply_module(&mut cur, module()));
    assert!(!apply_module(&mut cur, module()));
    let drawer = module_detail(&cur, "m").unwrap();
    assert_eq!(drawer.history[0].from, "server.gate");
    assert_eq!(drawer.handoff.as_ref().unwrap().revision, 2);

    let road = || RoadmapDto {
        items: vec![RoadmapItemDto { id: "r".into(), name: "R".into(), state: "ready".into(), ..Default::default() }],
        ..Default::default()
    };
    assert!(apply_roadmap(&mut cur, road()));
    assert!(!apply_roadmap(&mut cur, road()));
    assert_eq!(roadmap(&cur).ready_count(), 1);

    let thread = || CommentPage {
        subject_id: "f".into(),
        comments: vec![CommentDto { id: "c1".into(), body: "hi".into(), author: "a".into(), ..Default::default() }],
    };
    assert!(apply_comments(&mut cur, thread()));
    assert!(!apply_comments(&mut cur, thread()));
    assert!(has_thread(&cur, "f"));
    assert_eq!(comment_by_id(&cur, "c1").unwrap().body, "hi");
    assert!(comment_by_id(&cur, "c2").is_none());

    let pool = || WantPage { wants: vec![WantDto { id: "w1".into(), body: "idea".into(), ..Default::default() }], total: 41 };
    assert!(set_want_page(&mut cur, pool()));
    assert!(!set_want_page(&mut cur, pool()));
    assert_eq!(cur.want_total, 41);

    let open = || WantDto {
        id: "w2".into(),
        body: "open one".into(),
        status: "declined".into(),
        attachments: vec![AttachmentDto { id: "att".into(), name: "a.pdf".into(), ..Default::default() }],
        ..Default::default()
    };
    assert!(set_open_want(&mut cur, open()));
    assert!(!set_open_want(&mut cur, open()));
    assert_eq!(want_by_id(&cur, "w2").unwrap().body, "open one");
    assert_eq!(want_by_id(&cur, "w1").unwrap().body, "idea");
    assert!(want_by_id(&cur, "w3").is_none());
    assert_eq!(attachment_by_id(&cur, "att").unwrap().name, "a.pdf");
}

#[test]
fn a_changed_detail_replaces_the_held_one() {
    let mut cur = Current::new();
    assert!(apply_feature(&mut cur, FeatureDetail { id: "f".into(), description: "one".into(), ..Default::default() }));
    assert!(apply_feature(&mut cur, FeatureDetail { id: "f".into(), description: "two".into(), ..Default::default() }));
    assert_eq!(cur.details.len(), 1);
    assert_eq!(cur.details[0].description, "two");
}

#[test]
fn a_comment_id_held_twice_reads_from_the_first_discussion_held() {
    let mut cur = Current::new();
    let page = |subject: &str, body: &str| CommentPage {
        subject_id: subject.into(),
        comments: vec![
            CommentDto { id: "c0".into(), body: "other".into(), ..Default::default() },
            CommentDto { id: "c1".into(), body: body.into(), ..Default::default() },
        ],
    };
    assert!(apply_comments(&mut cur, page("f1", "first")));
    assert!(apply_comments(&mut cur, page("f2", "second")));
    assert_eq!(comment_by_id(&cur, "c1").unwrap().body, "first");
    assert_eq!(comment_by_id(&cur, "c0").unwrap().body, "other");
}

#[test]
fn a_replayed_board_moves_only_the_clock() {
    let mut cur = Current::new();
    assert!(apply_board(&mut cur, board_with(1000), 900));
    let rows = features(&cur).len();
    assert!(!apply_board(&mut cur, board_with(1500), 1000));
    assert_eq!(features(&cur).len(), rows);
    assert_eq!(tag_names(&cur), vec!["ux".to_string(), "ops".to_string()]);
    assert_eq!(you(&cur), "nicho");
    assert!(loaded(&cur));
    assert_eq!(now_secs(&cur, 1000), 1500);
}

#[test]
fn a_cache_with_no_board_builds_no_rows() {
    let mut cur = Current::new();
    assert!(apply_feature(
        &mut cur,
        FeatureDetail { id: "f".into(), description: "d".into(), ..Default::default() }
    ));
    assert!(features(&cur).is_empty());
    assert!(has_detail(&cur, "f"));
}
