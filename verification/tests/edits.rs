use std::rc::Rc;

use control_center::cache::{apply_board, apply_feature, apply_roadmap, Current};
use control_center::edits::{
    choose_edit, feature_entries, feature_name, item_entries, lines, lines_of, module_entries,
    plan_draft, request, road_name, tags_of, want_entries, Edit, FormBuffers, MenuEntry, PlanForm,
    PlanOp, PlanSlot, Request, RoadmapOp,
};
use control_center::model::{Feature, Status, Want, WantState};
use control_center::multipart::{CommentDraft, PickedBlob};
use control_center::wire::{Board, FeatureDetail, FeatureRollupDto, ModuleDto, RoadmapDto, RoadmapItemDto};

fn form() -> FormBuffers {
    FormBuffers {
        name: "  Billing  ".into(),
        text: " why \n".into(),
        lines: "a\n\n b \r\n".into(),
        owns: "src/a/, src/b/\nsrc/c/".into(),
        tags: "#ux ##ops, ux".into(),
        pick: vec![],
        hard: false,
        file: None,
    }
}

fn plan() -> PlanForm {
    PlanForm { roadmap_item: None, name: String::new(), description: String::new(), whitepaper: String::new(), slots: vec![] }
}

fn comment() -> CommentDraft {
    CommentDraft { kind: "note".into(), body: String::new(), assignee: String::new(), answering: None, files: vec![] }
}

#[test]
fn buffers_are_read_the_way_people_write_them() {
    assert_eq!(lines("a\n\n b \r\n"), vec!["a", "b"]);
    assert_eq!(lines_of("src/a/, src/b/\nsrc/c/"), vec!["src/a/", "src/b/", "src/c/"]);
    assert_eq!(tags_of("#ux ##ops, ux"), vec!["ux", "ops"]);
    assert_eq!(tags_of(" , # "), Vec::<String>::new());
}

#[test]
fn the_console_refuses_what_it_can_alone() {
    let f = form();
    let why = |e: &Edit| match request(e, &f, &plan(), &comment(), 0) {
        Err(w) => w,
        Ok(_) => String::new(),
    };
    assert_eq!(why(&Edit::Idle), "Nothing to send.");
    assert_eq!(why(&Edit::AddDependency { feature: "f".into(), module: "m".into() }), "Pick the module to wait on.");
    assert_eq!(why(&Edit::AddRoadmapDependency { item: "r".into() }), "Pick the item to wait on.");
    assert_eq!(why(&Edit::AttachFile { subject: "s".into() }), "Choose a file first.");
    assert_eq!(why(&Edit::CreatePlan), "The plan needs a name.");
}

#[test]
fn an_edit_sends_its_trimmed_buffers() {
    let mut f = form();
    f.pick = vec!["dep".into(), "other".into()];
    match request(&Edit::AddModule { feature: "f".into() }, &f, &plan(), &comment(), 0) {
        Ok(Request::RevisePlan { feature, op: PlanOp::AddModule { name, description, tasks, depends_on, owns } }) => {
            assert_eq!(feature, "f");
            assert_eq!(name, "Billing");
            assert_eq!(description, "why");
            assert_eq!(tasks, vec!["a", "b"]);
            assert_eq!(depends_on, vec!["dep", "other"]);
            assert_eq!(owns, vec!["src/a/", "src/b/", "src/c/"]);
        }
        _ => panic!("an add-module revision"),
    }
    match request(&Edit::BindFeature { feature: "f".into() }, &form(), &plan(), &comment(), 0) {
        Ok(Request::ReviseRoadmap(RoadmapOp::BindFeature { feature_id, item_id })) => {
            assert_eq!(feature_id, "f");
            assert_eq!(item_id, "", "an empty pick loosens the feature");
        }
        _ => panic!("a bind"),
    }
    match request(&Edit::EditWant { want: "w".into() }, &form(), &plan(), &comment(), 0) {
        Ok(Request::EditWant { want, body, tags }) => {
            assert_eq!((want.as_str(), body.as_str()), ("w", "why"));
            assert_eq!(tags, vec!["ux", "ops"]);
        }
        _ => panic!("a want edit"),
    }
    let mut f = form();
    f.file = Some(PickedBlob { name: "a.txt".into(), content_type: String::new(), bytes: Rc::new(b"hi".to_vec()) });
    match request(&Edit::AttachFile { subject: "s".into() }, &f, &plan(), &comment(), 9) {
        Ok(Request::Upload { subject, content_type, body }) => {
            assert_eq!(subject, "s");
            assert_eq!(content_type, "multipart/form-data; boundary=----mcpm-2-9");
            assert!(String::from_utf8(body).unwrap().contains("name=\"description\"\r\n\r\nwhy\r\n"));
        }
        _ => panic!("an upload"),
    }
}

#[test]
fn a_plan_needs_named_modules() {
    let mut p = plan();
    p.name = " Plan ".into();
    p.slots = vec![
        PlanSlot { name: "a".into(), description: " d ".into(), tasks: "t1\nt2".into(), owns: "".into(), deps: vec![] },
        PlanSlot { name: " b ".into(), description: "".into(), tasks: "".into(), owns: "x/".into(), deps: vec![0, 7] },
    ];
    let draft = plan_draft(&p).ok().expect("a draft");
    assert_eq!(draft.name, "Plan");
    assert_eq!(draft.modules[0].tasks, vec!["t1", "t2"]);
    assert_eq!(draft.modules[1].name, "b");
    assert_eq!(draft.modules[1].depends_on, vec!["a"]);
    p.slots[1].name = "  ".into();
    assert_eq!(plan_draft(&p).err(), Some("Module 2 needs a name.".to_string()));
}

fn feature(id: &str, status: Status, shelved: bool, released: &str) -> Feature {
    Feature { id: id.into(), name: id.into(), status, shelved, released: released.into(), ..Default::default() }
}

fn labels(es: &[MenuEntry]) -> Vec<String> {
    es.iter().map(|e| e.label.clone()).collect()
}

#[test]
fn a_feature_menu_offers_what_means_something() {
    let fs = vec![
        feature("open", Status::Running, false, ""),
        feature("parked", Status::Queued, true, ""),
        feature("landed", Status::Done, false, ""),
        feature("out", Status::Done, false, "Sep 1 10:00"),
    ];
    assert_eq!(labels(&feature_entries(&fs, "open")), vec!["Rename", "Edit description", "Add module", "Bind to the roadmap", "Shelve", "Delete plan"]);
    assert_eq!(feature_entries(&fs, "parked")[4].edit, Edit::ShelveFeature { feature: "parked".into(), shelve: false });
    assert_eq!(labels(&feature_entries(&fs, "landed"))[4], "Release\u{2026}");
    assert_eq!(feature_entries(&fs, "landed").len(), 6);
    assert_eq!(feature_entries(&fs, "out").len(), 5);
    let last = feature_entries(&fs, "out").pop().unwrap();
    assert!(last.danger);
    assert_eq!(feature_name(&fs, "out"), "out");
    assert_eq!(feature_name(&fs, "none"), "");
}

#[test]
fn module_and_want_menus() {
    let es = module_entries("f", "m");
    assert_eq!(es.len(), 5);
    assert!(es[4].danger);
    assert_eq!(es[1].edit, Edit::EditModule { feature: "f".into(), module: "m".into() });
    let mut w = Want { id: "w".into(), state: WantState::Promoted, ..Default::default() };
    assert_eq!(labels(&want_entries(&w)), vec!["Edit tags", "Attach file"]);
    w.state = WantState::Declined;
    assert_eq!(labels(&want_entries(&w)), vec!["Edit", "Attach file", "Reopen", "Delete"]);
    w.state = WantState::Open;
    assert_eq!(labels(&want_entries(&w)), vec!["Edit", "Attach file", "Decline\u{2026}", "Delete"]);
}

#[test]
fn an_edit_opens_on_what_the_cache_holds() {
    let mut cur = Current::new();
    let mut board = Board::default();
    board.features.push(FeatureRollupDto { id: "f".into(), name: "Feat".into(), ..Default::default() });
    apply_board(&mut cur, board, 0);
    apply_feature(&mut cur, FeatureDetail {
        id: "f".into(),
        description: "about".into(),
        modules: vec![ModuleDto { id: "m".into(), name: "Mod".into(), description: "mdesc".into(), owns: vec!["a/".into(), "b/".into()], ..Default::default() }],
        ..Default::default()
    });
    apply_roadmap(&mut cur, RoadmapDto {
        items: vec![RoadmapItemDto { id: "r".into(), name: "Road".into(), intent: "i".into(), horizon: "now".into(), state: "active".into(), ..Default::default() }],
        ..Default::default()
    });
    let c = choose_edit(&cur, &Edit::RenameFeature { feature: "f".into() });
    assert_eq!(c.seed.name, "Feat");
    assert!(c.open);
    let c = choose_edit(&cur, &Edit::EditModule { feature: "f".into(), module: "m".into() });
    assert_eq!((c.seed.text.as_str(), c.seed.owns.as_str()), ("mdesc", "a/\nb/"));
    let c = choose_edit(&cur, &Edit::EditRoadmapItem { item: "r".into() });
    assert_eq!((c.seed.name.as_str(), c.seed.tags.as_str()), ("Road", "now"));
    assert_eq!(c.seed.hard, Some(false));
    let c = choose_edit(&cur, &Edit::ReopenWant { want: "w".into() });
    assert!(!c.open, "a reopen is sent at once");
    assert_eq!(road_name(&cur, "r"), "Road");
    let es = item_entries(&cur, "r");
    assert_eq!(labels(&es), vec!["Edit", "Add prerequisite", "Ship it", "Shelve", "Remove"]);
    assert!(item_entries(&cur, "nope").is_empty());
}

#[test]
fn the_feature_list_filters_by_state_then_by_name_in_any_case() {
    let mut fs = vec![
        feature("f1", Status::Running, false, ""),
        feature("f2", Status::Done, false, ""),
        feature("f3", Status::Queued, false, ""),
    ];
    fs[0].name = "Billing Export".into();
    fs[1].name = "BILLING ledger".into();
    fs[2].name = "Onboarding".into();
    assert_eq!(control_center::model::filter_features_of(&fs, "", "all"), vec![0, 1, 2]);
    // The query is trimmed and case-folded, and so is every name.
    assert_eq!(control_center::model::filter_features_of(&fs, "  bIlLiNg ", "all"), vec![0, 1]);
    assert_eq!(control_center::model::filter_features_of(&fs, "billing", "open"), vec![0]);
    assert_eq!(control_center::model::filter_features_of(&fs, "billing", "done"), vec![1]);
    assert_eq!(control_center::model::filter_features_of(&fs, "boarding", "all"), vec![2]);
    assert!(control_center::model::filter_features_of(&fs, "zzz", "all").is_empty());
}
