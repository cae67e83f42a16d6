use control_center::knowledge::{
    empty_line, entry_facts, filters_set, has_rationale, history_label, isolated, knowledge_pager,
    knowledge_stats, level_filter, level_option, link_verb, EntryArm, KindCountDto, KnowledgePage,
    LinkDto, MemoryDetail, MemoryDto,
};

#[test]
fn the_header_counts_only_kinds_that_exist() {
    let page = KnowledgePage {
        entries: vec![],
        total: 7,
        by_kind: vec![
            KindCountDto { kind: "decision".into(), count: 4 },
            KindCountDto { kind: "gotcha".into(), count: 0 },
            KindCountDto { kind: "note".into(), count: 3 },
        ],
    };
    let stats: Vec<(String, String)> =
        knowledge_stats(&page).into_iter().map(|s| (s.value, s.label)).collect();
    assert_eq!(
        stats,
        vec![
            ("7".to_string(), "entries".to_string()),
            ("4".to_string(), "Decisions".to_string()),
            ("3".to_string(), "Notes".to_string()),
        ]
    );
}

#[test]
fn the_pager_counts_pages_and_clamps_the_one_asked_for() {
    let p = knowledge_pager(45, 5, 9);
    assert_eq!((p.pages, p.at), (3, 2));
    assert_eq!(p.summary, "41\u{2013}45 of 45");
    let p = knowledge_pager(40, 20, 1);
    assert_eq!((p.pages, p.at), (2, 1));
    assert_eq!(p.summary, "21\u{2013}40 of 40");
    // Nothing matched: one page, no line.
    let p = knowledge_pager(0, 0, 3);
    assert_eq!((p.pages, p.at, p.summary.as_str()), (1, 0, ""));
    let p = knowledge_pager(-4, 0, 0);
    assert_eq!((p.pages, p.summary.as_str()), (1, ""));
}

#[test]
fn the_toolbar_words() {
    assert_eq!(empty_line(false), "Searching\u{2026}");
    assert_eq!(empty_line(true), "No entries match");
    assert_eq!(level_filter("all"), "");
    assert_eq!(level_filter("module"), "module");
    assert_eq!(level_option(""), "all");
    assert_eq!(level_option("feature"), "feature");
    assert!(!filters_set("", &vec![], &vec![], ""));
    assert!(filters_set("", &vec!["note".into()], &vec![], ""));
    assert!(filters_set("", &vec![], &vec![], "project"));
    assert_eq!(history_label(true), "Hide superseded");
    assert_eq!(history_label(false), "Show superseded");
}

#[test]
fn an_entry_reads_where_it_is_true_and_how_it_stands() {
    let mut e = MemoryDto {
        kind: "gotcha".into(),
        level: "project".into(),
        subject_name: "mcpm".into(),
        state: "current".into(),
        confirms: 2,
        touches: 5,
        ..Default::default()
    };
    let f = entry_facts(&e);
    assert_eq!(f.kind_label, "Gotchas");
    assert_eq!(f.where_line, "mcpm");
    assert_eq!(f.arm, EntryArm::Current);
    assert!(!f.withdrawn);
    assert_eq!(f.standing, "2 confirmed \u{b7} 5 used");
    e.level = "module".into();
    e.subject_name = "billing".into();
    e.state = "disputed".into();
    e.confirms = 0;
    e.disputes = 1;
    e.touches = 0;
    let f = entry_facts(&e);
    assert_eq!(f.where_line, "module \u{b7} billing");
    assert_eq!(f.arm, EntryArm::Disputed);
    assert!(f.withdrawn);
    assert_eq!(f.standing, "1 disputed");
    e.state = "retired".into();
    let f = entry_facts(&e);
    assert_eq!(f.arm, EntryArm::Current);
    assert!(f.withdrawn);
}

#[test]
fn links_read_their_direction() {
    assert_eq!(link_verb("depends_on", true), "depends on");
    assert_eq!(link_verb("refines", false), "refines \u{2190}");
    assert!(!has_rationale("  \n"));
    assert!(has_rationale(" because "));
    let mut d = MemoryDetail::default();
    assert!(isolated(&d));
    d.relations.push(LinkDto::default());
    assert!(!isolated(&d));
}
