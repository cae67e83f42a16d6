use control_center::cache::{apply_board, apply_feature, apply_roadmap, Current};
use control_center::edits::{Edit, FormBuffers};
use control_center::forms::{form_of, quote_then, Fields, Form, Ready};
use control_center::wire::{
    Board, FeatureDetail, FeatureRollupDto, ModuleDto, RoadmapDto, RoadmapEdgeDto, RoadmapFeatureDto,
    RoadmapItemDto, TaskDto,
};

fn cache() -> Current {
    let mut cur = Current::new();
    let mut board = Board::default();
    board.features.push(FeatureRollupDto { id: "f".into(), name: "Billing".into(), ..Default::default() });
    apply_board(&mut cur, board, 0);
    apply_feature(
        &mut cur,
        FeatureDetail {
            id: "f".into(),
            modules: vec![
                ModuleDto { id: "a".into(), name: "Schema".into(), ..Default::default() },
                ModuleDto {
                    id: "b".into(),
                    name: "Api".into(),
                    depends_on: vec!["a".into()],
                    tasks: vec![TaskDto { id: "t1".into(), name: "Write the routes".into(), ..Default::default() }],
                    ..Default::default()
                },
                ModuleDto { id: "c".into(), name: "App".into(), ..Default::default() },
            ],
            ..Default::default()
        },
    );
    apply_roadmap(
        &mut cur,
        RoadmapDto {
            items: vec![
                RoadmapItemDto {
                    id: "r1".into(),
                    name: "Invoices".into(),
                    state: "active".into(),
                    depends_on: vec![RoadmapEdgeDto { item_id: "r2".into(), ..Default::default() }],
                    features: vec![RoadmapFeatureDto { id: "f".into(), ..Default::default() }],
                    ..Default::default()
                },
                RoadmapItemDto { id: "r2".into(), name: "Ledger".into(), state: "active".into(), ..Default::default() },
                RoadmapItemDto { id: "r3".into(), name: "Old".into(), state: "shipped".into(), ..Default::default() },
                RoadmapItemDto { id: "r4".into(), name: "Parked".into(), shelved: true, ..Default::default() },
            ],
            ..Default::default()
        },
    );
    cur
}

fn frame(f: &Form) -> (&str, &str, bool, Ready) {
    (f.title.as_str(), f.verb.as_str(), f.danger, f.ready)
}

fn ids(fields: &Fields) -> Vec<String> {
    match fields {
        Fields::NewModule { candidates }
        | Fields::Prerequisite { candidates }
        | Fields::RoadPrerequisite { candidates }
        | Fields::Bind { candidates } => candidates.iter().map(|c| c.id.clone()).collect(),
        _ => panic!("not a pick form"),
    }
}

fn sentence(f: &Form) -> String {
    match &f.fields {
        Fields::Sentence { text } => text.clone(),
        _ => panic!("not a confirm"),
    }
}

#[test]
fn confirms_name_what_they_act_on() {
    let cur = cache();
    let f = form_of(&cur, &Edit::ShelveFeature { feature: "f".into(), shelve: true }).unwrap();
    assert_eq!(frame(&f), ("Shelve feature", "Shelve", false, Ready::Always));
    assert_eq!(sentence(&f), "'Billing' will be parked. Nothing in it can be claimed until it is unshelved.");
    let f = form_of(&cur, &Edit::DeleteFeature { feature: "f".into() }).unwrap();
    assert_eq!(frame(&f), ("Delete plan", "Delete plan", true, Ready::Always));
    let f = form_of(&cur, &Edit::RemoveDependency { feature: "f".into(), module: "b".into(), depends_on: "a".into() })
        .unwrap();
    assert_eq!(sentence(&f), "'Api' will no longer wait on 'Schema'.");
    let f = form_of(&cur, &Edit::RemoveTask { feature: "f".into(), task: "t1".into() }).unwrap();
    assert_eq!(sentence(&f), "'Write the routes' will be removed from the checklist.");
    let f = form_of(&cur, &Edit::RemoveRoadmapDependency { item: "r1".into(), depends_on: "r2".into() }).unwrap();
    assert_eq!(sentence(&f), "'Invoices' will no longer wait on 'Ledger'.");
    assert!(!f.danger);
    // What the cache does not hold reads as nothing.
    let f = form_of(&cur, &Edit::RemoveModule { feature: "f".into(), module: "zz".into() }).unwrap();
    assert_eq!(
        sentence(&f),
        "'' and its checklist will be removed from the plan. Modules that waited on it stop waiting."
    );
    let f = form_of(&cur, &Edit::DeleteComment { subject: "s".into(), comment: "c".into(), question: true }).unwrap();
    assert_eq!(frame(&f), ("Withdraw question", "Withdraw", true, Ready::Always));
}

#[test]
fn pick_forms_offer_what_can_still_be_picked() {
    let cur = cache();
    let f = form_of(&cur, &Edit::AddModule { feature: "f".into() }).unwrap();
    assert_eq!(ids(&f.fields), vec!["a", "b", "c"]);
    assert_eq!(f.ready, Ready::NameGiven);
    // Not itself, not what it already waits on.
    let f = form_of(&cur, &Edit::AddDependency { feature: "f".into(), module: "b".into() }).unwrap();
    assert_eq!(ids(&f.fields), vec!["c"]);
    assert_eq!(frame(&f), ("Add prerequisite", "Add", false, Ready::Picked));
    // Not itself, not shelved, not already a prerequisite.
    let f = form_of(&cur, &Edit::AddRoadmapDependency { item: "r1".into() }).unwrap();
    assert_eq!(ids(&f.fields), vec!["r3"]);
    // Neither shelved nor shipped.
    let f = form_of(&cur, &Edit::BindFeature { feature: "f".into() }).unwrap();
    assert_eq!(ids(&f.fields), vec!["r1", "r2"]);
    assert_eq!(f.ready, Ready::Always);
}

#[test]
fn each_form_has_its_frame() {
    let cur = cache();
    assert!(form_of(&cur, &Edit::Idle).is_none());
    assert!(form_of(&cur, &Edit::PostComment { subject: "s".into() }).is_none());
    let f = form_of(&cur, &Edit::EditRoadmapItem { item: "  ".into() }).unwrap();
    assert_eq!(frame(&f), ("New roadmap item", "Create", false, Ready::NameGiven));
    let f = form_of(&cur, &Edit::EditRoadmapItem { item: "r1".into() }).unwrap();
    assert_eq!(frame(&f), ("Edit roadmap item", "Save", false, Ready::NameGiven));
    let f = form_of(&cur, &Edit::ShipRoadmapItem { item: "r2".into() }).unwrap();
    match &f.fields {
        Fields::Ship { sentence, external } => {
            assert_eq!(sentence, "'Ledger' is live \u{2014} the capability exists for users.");
            assert!(*external, "nothing bound proves it");
        }
        _ => panic!("a ship form"),
    }
    let f = form_of(&cur, &Edit::ShipRoadmapItem { item: "r1".into() }).unwrap();
    assert!(matches!(f.fields, Fields::Ship { external: false, .. }));
    let f = form_of(&cur, &Edit::DescribeFeature { feature: "f".into() }).unwrap();
    assert_eq!(frame(&f), ("Describe feature", "Save", false, Ready::TextGiven));
    let f = form_of(&cur, &Edit::AttachFile { subject: "s".into() }).unwrap();
    assert_eq!(frame(&f), ("Attach file", "Attach", false, Ready::FilePicked));
    let f = form_of(&cur, &Edit::EditWant { want: "w".into() }).unwrap();
    assert_eq!(f.fields, Fields::Want { frozen: false });
    assert_eq!(f.ready, Ready::TextGiven);
}

#[test]
fn a_verb_waits_for_what_its_form_needs() {
    let mut form = FormBuffers {
        name: "  ".into(),
        text: "x".into(),
        lines: String::new(),
        owns: String::new(),
        tags: String::new(),
        pick: vec![],
        hard: false,
        file: None,
    };
    assert!(!Ready::NameGiven.holds(&form, false));
    assert!(Ready::TextGiven.holds(&form, false));
    assert!(!Ready::Picked.holds(&form, false));
    assert!(Ready::Always.holds(&form, true));
    form.name = " n ".into();
    form.pick = vec!["a".into()];
    assert!(Ready::NameGiven.holds(&form, false));
    assert!(Ready::Picked.holds(&form, false));
    assert!(!Ready::FilePicked.holds(&form, false));
    assert_eq!(quote_then("x", " y"), "'x y");
}
