//! The modal each edit opens: its title, what it asks, the verb on its
//! button, whether the verb is destructive, and when the verb may be
//! pressed. Confirm sentences name what they act on, read from the cache.
use vstd::prelude::*;

use crate::cache::Current;
use crate::edits::{Edit, FormBuffers, feature_by_id, feature_name, item_by_id, module_by_ids, road_name, with_feature};
use crate::model::{Feature, Module, RoadItem, RoadState, Task, WantState, name_in};
use crate::seqs::first_where;
use crate::text::{trim, trimmed};

verus! {

/// When a form's verb may be pressed.
#[derive(Clone, Copy, Debug, PartialEq, Eq, Structural)]
pub enum Ready {
    /// At once: a confirm, or a form whose fields may all stay empty.
    Always,
    /// Once the name field holds more than blanks.
    NameGiven,
    /// Once the text field holds more than blanks.
    TextGiven,
    /// Once something is picked.
    Picked,
    /// Once a file is chosen and the picker is closed.
    FilePicked,
}

/// One thing a pick row offers: an id and the name it shows.
#[derive(Debug, PartialEq, Eq)]
pub struct Candidate {
    pub id: String,
    pub name: String,
}

/// What a form asks.
#[derive(Debug, PartialEq, Eq)]
pub enum Fields {
    /// One name field.
    Name { label: String },
    /// One longer text.
    Text { label: String, placeholder: String },
    /// One sentence to confirm.
    Sentence { text: String },
    /// A new module: name, description, tasks, owned paths, and its
    /// prerequisites picked among the feature's modules.
    NewModule { candidates: Vec<Candidate> },
    /// A module's description and owned paths.
    ModuleText,
    /// One prerequisite picked among the feature's other modules.
    Prerequisite { candidates: Vec<Candidate> },
    /// A want's wording and tags; a composed want's wording is frozen.
    Want { frozen: bool },
    /// A roadmap item's name, intent, horizon and detail.
    RoadItem { creating: bool },
    /// One roadmap prerequisite picked, and whether it is hard.
    RoadPrerequisite { candidates: Vec<Candidate> },
    /// The roadmap item a feature binds to; none picked loosens it.
    Bind { candidates: Vec<Candidate> },
    /// Where a released feature went.
    Release { sentence: String },
    /// What made a roadmap item true, and whether nothing bound proves it.
    Ship { sentence: String, external: bool },
    /// A file to attach.
    Attach,
}

/// An edit's modal.
#[derive(Debug, PartialEq, Eq)]
pub struct Form {
    pub title: String,
    pub fields: Fields,
    pub verb: String,
    /// The verb destroys something.
    pub danger: bool,
    pub ready: Ready,
}

// ---------------------------------------------------------------------
// What the forms read
// ---------------------------------------------------------------------

/// A candidate as the id and name it carries.
pub open spec fn cand_view(c: Candidate) -> (Seq<char>, Seq<char>) {
    (c.id@, c.name@)
}

/// A pick row's candidates, as ids and names.
pub open spec fn cands(v: Seq<Candidate>) -> Seq<(Seq<char>, Seq<char>)> {
    v.map_values(|c: Candidate| cand_view(c))
}

/// Every module, as a candidate.
pub open spec fn module_cands(ms: Seq<Module>) -> Seq<(Seq<char>, Seq<char>)>
    decreases ms.len(),
{
    if ms.len() == 0 {
        Seq::empty()
    } else {
        module_cands(ms.drop_last()).push((ms.last().id@, ms.last().name@))
    }
}

/// The modules a module could still wait on: every other one it does
/// not already name.
pub open spec fn dep_cands(ms: Seq<Module>, module: Seq<char>, already: Seq<Seq<char>>) -> Seq<(Seq<char>, Seq<char>)>
    decreases ms.len(),
{
    if ms.len() == 0 {
        Seq::empty()
    } else {
        let rest = dep_cands(ms.drop_last(), module, already);
        let m = ms.last();
        if m.id@ != module && !already.contains(m.id@) {
            rest.push((m.id@, m.name@))
        } else {
            rest
        }
    }
}

/// What a module already waits on: the first module with the id's list.
pub open spec fn already_named(ms: Seq<Module>, module: Seq<char>) -> Seq<Seq<char>> {
    match first_where(ms, crate::model::module_with(module)) {
        Some(k) => ms[k].depends_on.deep_view(),
        None => Seq::empty(),
    }
}

/// The items a roadmap item could still wait on: every other one on the
/// roadmap, not shelved, not already named.
pub open spec fn road_cands(items: Seq<RoadItem>, item: Seq<char>, already: Seq<Seq<char>>) -> Seq<(Seq<char>, Seq<char>)>
    decreases items.len(),
{
    if items.len() == 0 {
        Seq::empty()
    } else {
        let rest = road_cands(items.drop_last(), item, already);
        let i = items.last();
        if i.id@ != item && !i.shelved && !already.contains(i.id@) {
            rest.push((i.id@, i.name@))
        } else {
            rest
        }
    }
}

/// The ids a roadmap item already waits on.
pub open spec fn edge_ids(item: Option<RoadItem>) -> Seq<Seq<char>> {
    match item {
        Some(i) => i.depends_on@.map_values(|e: crate::model::RoadEdge| e.item_id@),
        None => Seq::empty(),
    }
}

/// The items a feature can bind to: on the roadmap, not shelved, not
/// shipped.
pub open spec fn bind_cands(items: Seq<RoadItem>) -> Seq<(Seq<char>, Seq<char>)>
    decreases items.len(),
{
    if items.len() == 0 {
        Seq::empty()
    } else {
        let rest = bind_cands(items.drop_last());
        let i = items.last();
        if !i.shelved && i.state != RoadState::Shipped {
            rest.push((i.id@, i.name@))
        } else {
            rest
        }
    }
}

/// The label of the first task with the id, across the modules in order.
pub open spec fn task_label_in(ms: Seq<Module>, task: Seq<char>) -> Seq<char>
    decreases ms.len(),
{
    if ms.len() == 0 {
        Seq::empty()
    } else {
        match first_where(ms[0].tasks@, task_with(task)) {
            Some(k) => ms[0].tasks@[k].label@,
            None => task_label_in(ms.drop_first(), task),
        }
    }
}

/// A task with the id.
pub open spec fn task_with(id: Seq<char>) -> spec_fn(Task) -> bool {
    |t: Task| t.id@ == id
}

/// A feature's modules, or none when it is not on screen.
pub open spec fn modules_of(fs: Seq<Feature>, feature: Seq<char>) -> Seq<Module> {
    match feature_by_id(fs, feature) {
        Some(f) => f.modules@,
        None => Seq::empty(),
    }
}

/// A feature's name on screen, or nothing.
pub open spec fn feature_name_of(fs: Seq<Feature>, feature: Seq<char>) -> Seq<char> {
    match feature_by_id(fs, feature) {
        Some(f) => f.name@,
        None => Seq::empty(),
    }
}

/// A roadmap item's name, or nothing.
pub open spec fn item_name_of(c: Current, item: Seq<char>) -> Seq<char> {
    match item_by_id(c.roadmap.items@, item) {
        Some(i) => i.name@,
        None => Seq::empty(),
    }
}

/// A roadmap item that nothing bound proves: it has no features.
pub open spec fn unproved(item: Option<RoadItem>) -> bool {
    match item {
        Some(i) => i.features@.len() == 0,
        None => false,
    }
}

/// A want whose wording a plan quotes: composed into a feature.
pub open spec fn frozen_want(w: Option<crate::model::Want>) -> bool {
    match w {
        Some(w) => w.state == WantState::Promoted,
        None => false,
    }
}

/// `'name'` followed by the rest of a sentence.
pub open spec fn quoted_then(name: Seq<char>, rest: Seq<char>) -> Seq<char> {
    "'"@ + name + rest
}

// ---------------------------------------------------------------------
// The forms
// ---------------------------------------------------------------------

/// A form's frame: its title, its verb, whether the verb destroys, and
/// when it may be pressed.
pub open spec fn framed(f: Form, title: Seq<char>, verb: Seq<char>, danger: bool, ready: Ready) -> bool {
    &&& f.title@ == title
    &&& f.verb@ == verb
    &&& f.danger == danger
    &&& f.ready == ready
}

/// A form framed so, whose fields pass `fields_ok`.
pub open spec fn form_with(
    r: Option<Form>,
    title: Seq<char>,
    verb: Seq<char>,
    danger: bool,
    ready: Ready,
    fields_ok: spec_fn(Fields) -> bool,
) -> bool {
    match r {
        Some(f) => framed(f, title, verb, danger, ready) && fields_ok(f.fields),
        None => false,
    }
}

/// A name form.
pub open spec fn name_form(r: Option<Form>, title: Seq<char>, label: Seq<char>, verb: Seq<char>) -> bool {
    form_with(
        r,
        title,
        verb,
        false,
        Ready::NameGiven,
        |x: Fields|
            match x {
                Fields::Name { label: l } => l@ == label,
                _ => false,
            },
    )
}

/// A text form.
pub open spec fn text_form(r: Option<Form>, title: Seq<char>, label: Seq<char>, placeholder: Seq<char>, verb: Seq<char>) -> bool {
    form_with(
        r,
        title,
        verb,
        false,
        Ready::TextGiven,
        |x: Fields|
            match x {
                Fields::Text { label: l, placeholder: p } => l@ == label && p@ == placeholder,
                _ => false,
            },
    )
}

/// A confirm: one sentence and the verb.
pub open spec fn confirm_form(r: Option<Form>, title: Seq<char>, sentence: Seq<char>, verb: Seq<char>, danger: bool) -> bool {
    form_with(
        r,
        title,
        verb,
        danger,
        Ready::Always,
        |x: Fields|
            match x {
                Fields::Sentence { text } => text@ == sentence,
                _ => false,
            },
    )
}

/// A pick form whose candidates read as `expect`.
pub open spec fn picks(x: Fields, expect: Seq<(Seq<char>, Seq<char>)>) -> bool {
    match x {
        Fields::NewModule { candidates } => cands(candidates@) == expect,
        Fields::Prerequisite { candidates } => cands(candidates@) == expect,
        Fields::RoadPrerequisite { candidates } => cands(candidates@) == expect,
        Fields::Bind { candidates } => cands(candidates@) == expect,
        _ => false,
    }
}

/// The modal an edit opens, reading names and candidates from the cache.
/// The empty edit, the plan editor's own surface, a reopen and the
/// composer's post open none.
pub open spec fn form_for(c: Current, e: Edit, r: Option<Form>) -> bool {
    let fs = c.features@;
    let items = c.roadmap.items@;
    match e {
        Edit::Idle | Edit::CreatePlan | Edit::ReopenWant { .. } | Edit::PostComment { .. } => r is None,
        Edit::RenameFeature { .. } => name_form(r, "Rename feature"@, "Name"@, "Save"@),
        Edit::DescribeFeature { .. } => text_form(
            r,
            "Describe feature"@,
            "Description"@,
            "What this feature is for, in a sentence or two."@,
            "Save"@,
        ),
        Edit::ShelveFeature { feature, shelve } => {
            let name = feature_name_of(fs, feature@);
            if shelve {
                confirm_form(
                    r,
                    "Shelve feature"@,
                    quoted_then(name, "' will be parked. Nothing in it can be claimed until it is unshelved."@),
                    "Shelve"@,
                    false,
                )
            } else {
                confirm_form(
                    r,
                    "Unshelve feature"@,
                    quoted_then(name, "' goes back to planning. Its ready modules can be claimed again."@),
                    "Unshelve"@,
                    false,
                )
            }
        },
        Edit::DeleteFeature { feature } => confirm_form(
            r,
            "Delete plan"@,
            quoted_then(
                feature_name_of(fs, feature@),
                "' and every module in it will be removed. The wants it was composed from go back to the pool."@,
            ),
            "Delete plan"@,
            true,
        ),
        Edit::AddModule { feature } => form_with(
            r,
            "Add module"@,
            "Add module"@,
            false,
            Ready::NameGiven,
            |x: Fields| x is NewModule && picks(x, module_cands(modules_of(fs, feature@))),
        ),
        Edit::EditRoadmapItem { item } => {
            let creating = trimmed(item@).len() == 0;
            form_with(
                r,
                if creating {
                    "New roadmap item"@
                } else {
                    "Edit roadmap item"@
                },
                if creating {
                    "Create"@
                } else {
                    "Save"@
                },
                false,
                Ready::NameGiven,
                |x: Fields| x == (Fields::RoadItem { creating }),
            )
        },
        Edit::RemoveRoadmapItem { item } => confirm_form(
            r,
            "Remove roadmap item"@,
            quoted_then(
                item_name_of(c, item@),
                "' comes off the roadmap, with its edges. Anything waiting on it stops waiting."@,
            ),
            "Remove"@,
            true,
        ),
        Edit::ShelveRoadmapItem { item, shelve } => {
            let name = item_name_of(c, item@);
            if shelve {
                confirm_form(
                    r,
                    "Shelve roadmap item"@,
                    quoted_then(
                        name,
                        "' leaves the roadmap and stops holding anything: features waiting on it can be released."@,
                    ),
                    "Shelve"@,
                    false,
                )
            } else {
                confirm_form(
                    r,
                    "Unshelve roadmap item"@,
                    quoted_then(name, "' goes back on the roadmap and holds again."@),
                    "Unshelve"@,
                    false,
                )
            }
        },
        Edit::AddRoadmapDependency { item } => form_with(
            r,
            "Add prerequisite"@,
            "Add"@,
            false,
            Ready::Picked,
            |x: Fields| x is RoadPrerequisite && picks(x, road_cands(items, item@, edge_ids(item_by_id(items, item@)))),
        ),
        Edit::RemoveRoadmapDependency { item, depends_on } => confirm_form(
            r,
            "Remove prerequisite"@,
            quoted_then(item_name_of(c, item@), "' will no longer wait on '"@) + item_name_of(c, depends_on@)
                + "'."@,
            "Remove"@,
            false,
        ),
        Edit::BindFeature { .. } => form_with(
            r,
            "Bind to the roadmap"@,
            "Save"@,
            false,
            Ready::Always,
            |x: Fields| x is Bind && picks(x, bind_cands(items)),
        ),
        Edit::ReleaseFeature { feature } => form_with(
            r,
            "Release feature"@,
            "Release"@,
            false,
            Ready::Always,
            |x: Fields|
                match x {
                    Fields::Release { sentence } => sentence@ == quoted_then(
                        feature_name_of(fs, feature@),
                        "' has gone out."@,
                    ),
                    _ => false,
                },
        ),
        Edit::ShipRoadmapItem { item } => form_with(
            r,
            "Ship roadmap item"@,
            "Ship"@,
            false,
            Ready::Always,
            |x: Fields|
                match x {
                    Fields::Ship { sentence, external } => sentence@ == quoted_then(
                        item_name_of(c, item@),
                        "' is live \u{2014} the capability exists for users."@,
                    ) && external == unproved(item_by_id(items, item@)),
                    _ => false,
                },
        ),
        Edit::RenameModule { .. } => name_form(r, "Rename module"@, "Name"@, "Save"@),
        Edit::EditModule { .. } => form_with(
            r,
            "Edit module"@,
            "Save"@,
            false,
            Ready::Always,
            |x: Fields| x == Fields::ModuleText,
        ),
        Edit::RemoveModule { feature, module } => confirm_form(
            r,
            "Remove module"@,
            quoted_then(
                match module_by_ids(fs, feature@, module@) {
                    Some(m) => m.name@,
                    None => Seq::empty(),
                },
                "' and its checklist will be removed from the plan. Modules that waited on it stop waiting."@,
            ),
            "Remove module"@,
            true,
        ),
        Edit::AddTask { .. } => name_form(r, "Add task"@, "Task"@, "Add task"@),
        Edit::RemoveTask { feature, task } => confirm_form(
            r,
            "Remove task"@,
            quoted_then(task_label_in(modules_of(fs, feature@), task@), "' will be removed from the checklist."@),
            "Remove task"@,
            true,
        ),
        Edit::AddDependency { feature, module } => {
            let ms = modules_of(fs, feature@);
            form_with(
                r,
                "Add prerequisite"@,
                "Add"@,
                false,
                Ready::Picked,
                |x: Fields| x is Prerequisite && picks(x, dep_cands(ms, module@, already_named(ms, module@))),
            )
        },
        Edit::RemoveDependency { feature, module, depends_on } => {
            let (a, b) = match feature_by_id(fs, feature@) {
                Some(f) => (name_in(f.modules@, module@), name_in(f.modules@, depends_on@)),
                None => (Seq::empty(), Seq::empty()),
            };
            confirm_form(
                r,
                "Remove prerequisite"@,
                quoted_then(a, "' will no longer wait on '"@) + b + "'."@,
                "Remove"@,
                true,
            )
        },
        Edit::EditWant { want } => {
            let frozen = frozen_want(crate::cache::want_shown(c, want@));
            form_with(
                r,
                "Edit want"@,
                "Save"@,
                false,
                if frozen {
                    Ready::Always
                } else {
                    Ready::TextGiven
                },
                |x: Fields| x == (Fields::Want { frozen }),
            )
        },
        Edit::DeclineWant { .. } => text_form(
            r,
            "Decline want"@,
            "Reason"@,
            "Why this idea is not going ahead."@,
            "Decline"@,
        ),
        Edit::DeleteWant { want } => confirm_form(
            r,
            "Delete want"@,
            quoted_then(
                match crate::cache::want_shown(c, want@) {
                    Some(w) => w.body@,
                    None => Seq::empty(),
                },
                "' will be removed from the pool."@,
            ),
            "Delete want"@,
            true,
        ),
        Edit::AttachFile { .. } => form_with(
            r,
            "Attach file"@,
            "Attach"@,
            false,
            Ready::FilePicked,
            |x: Fields| x == Fields::Attach,
        ),
        Edit::DescribeAttachment { .. } => text_form(
            r,
            "Describe file"@,
            "Description"@,
            "What this file is and what a reader should take from it."@,
            "Save"@,
        ),
        Edit::RemoveAttachment { attachment, .. } => confirm_form(
            r,
            "Remove file"@,
            quoted_then(
                match crate::cache::attachment_shown(c, attachment@) {
                    Some(a) => a.name@,
                    None => Seq::empty(),
                },
                "' will be removed, and its bytes with it."@,
            ),
            "Remove file"@,
            true,
        ),
        Edit::EditComment { .. } => text_form(r, "Edit comment"@, "Comment"@, "Markdown."@, "Save"@),
        Edit::DeleteComment { question, .. } => if question {
            confirm_form(
                r,
                "Withdraw question"@,
                "The question comes off the record and whatever it held is released."@,
                "Withdraw"@,
                true,
            )
        } else {
            confirm_form(
                r,
                "Delete comment"@,
                "The comment and any files it carried will be removed."@,
                "Delete"@,
                true,
            )
        },
    }
}

// ---------------------------------------------------------------------
// Building them
// ---------------------------------------------------------------------

fn frame_of(title: &str, fields: Fields, verb: &str, danger: bool, ready: Ready) -> (r: Option<Form>)
    ensures
        r matches Some(f) && framed(f, title@, verb@, danger, ready) && f.fields == fields,
{
    Some(Form { title: String::from_str(title), fields, verb: String::from_str(verb), danger, ready })
}

fn named(title: &str, label: &str, verb: &str) -> (r: Option<Form>)
    ensures
        name_form(r, title@, label@, verb@),
{
    frame_of(title, Fields::Name { label: String::from_str(label) }, verb, false, Ready::NameGiven)
}

fn texted(title: &str, label: &str, placeholder: &str, verb: &str) -> (r: Option<Form>)
    ensures
        text_form(r, title@, label@, placeholder@, verb@),
{
    frame_of(
        title,
        Fields::Text { label: String::from_str(label), placeholder: String::from_str(placeholder) },
        verb,
        false,
        Ready::TextGiven,
    )
}

fn confirmed(title: &str, sentence: String, verb: &str, danger: bool) -> (r: Option<Form>)
    ensures
        confirm_form(r, title@, sentence@, verb@, danger),
{
    frame_of(title, Fields::Sentence { text: sentence }, verb, danger, Ready::Always)
}

/// `'name'` and the rest of the sentence.
pub fn quote_then(name: &str, rest: &str) -> (r: String)
    ensures
        r@ == quoted_then(name@, rest@),
{
    let mut out = String::from_str("'");
    out.append(name);
    out.append(rest);
    out
}

/// Whether a list of ids holds this one.
fn names_hold(ids: &Vec<String>, id: &str) -> (b: bool)
    ensures
        b == ids.deep_view().contains(id@),
{
    let mut k: usize = 0;
    while k < ids.len()
        invariant
            k <= ids@.len(),
            forall|q: int| 0 <= q < k ==> ids.deep_view()[q] != id@,
        decreases ids.len() - k,
    {
        if crate::text::same_text(ids[k].as_str(), id) {
            assert(ids.deep_view()[k as int] == id@);
            return true;
        }
        k = k + 1;
    }
    false
}

proof fn lemma_cands_push(v: Seq<Candidate>, c: Candidate)
    ensures
        cands(v.push(c)) == cands(v).push(cand_view(c)),
{
    assert(cands(v.push(c)) =~= cands(v).push(cand_view(c)));
}

/// Every module, as a candidate.
pub fn module_candidates(ms: &Vec<Module>) -> (r: Vec<Candidate>)
    ensures
        cands(r@) == module_cands(ms@),
{
    let mut out: Vec<Candidate> = Vec::new();
    let mut k: usize = 0;
    while k < ms.len()
        invariant
            k <= ms@.len(),
            cands(out@) == module_cands(ms@.take(k as int)),
        decreases ms.len() - k,
    {
        assert(ms@.take(k as int + 1).drop_last() =~= ms@.take(k as int));
        let c = Candidate { id: ms[k].id.clone(), name: ms[k].name.clone() };
        proof {
            lemma_cands_push(out@, c);
        }
        out.push(c);
        k = k + 1;
    }
    assert(ms@.take(k as int) =~= ms@);
    out
}

/// The modules a module could still wait on.
pub fn dep_candidates(ms: &Vec<Module>, module: &str, already: &Vec<String>) -> (r: Vec<Candidate>)
    ensures
        cands(r@) == dep_cands(ms@, module@, already.deep_view()),
{
    let mut out: Vec<Candidate> = Vec::new();
    let mut k: usize = 0;
    while k < ms.len()
        invariant
            k <= ms@.len(),
            cands(out@) == dep_cands(ms@.take(k as int), module@, already.deep_view()),
        decreases ms.len() - k,
    {
        assert(ms@.take(k as int + 1).drop_last() =~= ms@.take(k as int));
        let m = &ms[k];
        if !crate::text::same_text(m.id.as_str(), module) && !names_hold(already, m.id.as_str()) {
            let c = Candidate { id: m.id.clone(), name: m.name.clone() };
            proof {
                lemma_cands_push(out@, c);
            }
            out.push(c);
        }
        k = k + 1;
    }
    assert(ms@.take(k as int) =~= ms@);
    out
}

/// The items a roadmap item could still wait on.
pub fn road_candidates(items: &Vec<RoadItem>, item: &str, already: &Vec<String>) -> (r: Vec<Candidate>)
    ensures
        cands(r@) == road_cands(items@, item@, already.deep_view()),
{
    let mut out: Vec<Candidate> = Vec::new();
    let mut k: usize = 0;
    while k < items.len()
        invariant
            k <= items@.len(),
            cands(out@) == road_cands(items@.take(k as int), item@, already.deep_view()),
        decreases items.len() - k,
    {
        assert(items@.take(k as int + 1).drop_last() =~= items@.take(k as int));
        let i = &items[k];
        if !crate::text::same_text(i.id.as_str(), item) && !i.shelved && !names_hold(already, i.id.as_str()) {
            let c = Candidate { id: i.id.clone(), name: i.name.clone() };
            proof {
                lemma_cands_push(out@, c);
            }
            out.push(c);
        }
        k = k + 1;
    }
    assert(items@.take(k as int) =~= items@);
    out
}

/// The items a feature can bind to.
pub fn bind_candidates(items: &Vec<RoadItem>) -> (r: Vec<Candidate>)
    ensures
        cands(r@) == bind_cands(items@),
{
    let mut out: Vec<Candidate> = Vec::new();
    let mut k: usize = 0;
    while k < items.len()
        invariant
            k <= items@.len(),
            cands(out@) == bind_cands(items@.take(k as int)),
        decreases items.len() - k,
    {
        assert(items@.take(k as int + 1).drop_last() =~= items@.take(k as int));
        let i = &items[k];
        if !i.shelved && i.state != RoadState::Shipped {
            let c = Candidate { id: i.id.clone(), name: i.name.clone() };
            proof {
                lemma_cands_push(out@, c);
            }
            out.push(c);
        }
        k = k + 1;
    }
    assert(items@.take(k as int) =~= items@);
    out
}

/// The ids a roadmap item waits on.
fn edge_ids_of(item: Option<&RoadItem>) -> (r: Vec<String>)
    ensures
        r.deep_view() == edge_ids(match item {
            Some(i) => Some(*i),
            None => None,
        }),
{
    let mut out: Vec<String> = Vec::new();
    match item {
        None => {
            assert(out.deep_view() =~= Seq::<Seq<char>>::empty());
            out
        },
        Some(i) => {
            let es = &i.depends_on;
            let mut k: usize = 0;
            while k < es.len()
                invariant
                    k <= es@.len(),
                    out.deep_view() =~= es@.take(k as int).map_values(|e: crate::model::RoadEdge| e.item_id@),
                decreases es.len() - k,
            {
                let id = es[k].item_id.clone();
                let ghost before = out.deep_view();
                out.push(id);
                assert(out.deep_view() =~= before.push(es@[k as int].item_id@));
                assert(es@.take(k as int + 1).map_values(|e: crate::model::RoadEdge| e.item_id@) =~= es@.take(
                    k as int,
                ).map_values(|e: crate::model::RoadEdge| e.item_id@).push(es@[k as int].item_id@));
                k = k + 1;
            }
            assert(es@.take(k as int) =~= es@);
            out
        },
    }
}

/// The label of the first task with the id, across the modules in order.
pub fn task_label(ms: &Vec<Module>, task: &str) -> (r: String)
    ensures
        r@ == task_label_in(ms@, task@),
{
    let mut k: usize = 0;
    assert(ms@.subrange(0, ms@.len() as int) =~= ms@);
    while k < ms.len()
        invariant
            k <= ms@.len(),
            task_label_in(ms@, task@) == task_label_in(ms@.subrange(k as int, ms@.len() as int), task@),
        decreases ms.len() - k,
    {
        let ghost rest = ms@.subrange(k as int, ms@.len() as int);
        assert(rest[0] == ms@[k as int]);
        assert(rest.drop_first() =~= ms@.subrange(k as int + 1, ms@.len() as int));
        let ts = &ms[k].tasks;
        let mut j: usize = 0;
        while j < ts.len()
            invariant
                j <= ts@.len(),
                k < ms@.len(),
                rest == ms@.subrange(k as int, ms@.len() as int),
                rest.len() > 0,
                task_label_in(ms@, task@) == task_label_in(rest, task@),
                ts@ == ms@[k as int].tasks@,
                forall|q: int| 0 <= q < j ==> !(#[trigger] task_with(task@)(ts@[q])),
            decreases ts.len() - j,
        {
            if crate::text::same_text(ts[j].id.as_str(), task) {
                proof {
                    crate::seqs::lemma_first_found(ts@, task_with(task@), j as int);
                    assert(ts@ == rest[0].tasks@);
                    assert(task_label_in(rest, task@) == ts@[j as int].label@);
                }
                return ts[j].label.clone();
            }
            j = j + 1;
        }
        proof {
            crate::seqs::lemma_none_found(ts@, task_with(task@));
        }
        k = k + 1;
    }
    assert(ms@.subrange(k as int, ms@.len() as int) =~= Seq::<Module>::empty());
    String::new()
}

/// The first module with the id.
fn module_at(ms: &Vec<Module>, id: &str) -> (r: Option<usize>)
    ensures
        match first_where(ms@, crate::model::module_with(id@)) {
            Some(k) => r is Some && r->0 == k,
            None => r is None,
        },
{
    let mut k: usize = 0;
    while k < ms.len()
        invariant
            k <= ms@.len(),
            forall|q: int| 0 <= q < k ==> !(#[trigger] crate::model::module_with(id@)(ms@[q])),
        decreases ms.len() - k,
    {
        if crate::text::same_text(ms[k].id.as_str(), id) {
            proof {
                crate::seqs::lemma_first_found(ms@, crate::model::module_with(id@), k as int);
            }
            return Some(k);
        }
        k = k + 1;
    }
    proof {
        crate::seqs::lemma_none_found(ms@, crate::model::module_with(id@));
    }
    None
}

/// A feature's modules, or none.
fn modules_in<'a>(fs: &'a [Feature], feature: &str, none: &'a Vec<Module>) -> (r: &'a Vec<Module>)
    requires
        none@.len() == 0,
    ensures
        r@ == modules_of(fs@, feature@),
{
    match with_feature(fs, feature) {
        Some(f) => &*f.modules,
        None => none,
    }
}

/// The modal an edit opens: title, fields, verb, whether the verb
/// destroys, and when it may be pressed; confirm sentences name what they
/// act on as the cache holds it. The empty edit, the plan editor's own
/// surface, a reopen and the composer's post open none.
#[verifier::rlimit(100)]
pub fn form_of(cur: &Current, edit: &Edit) -> (r: Option<Form>)
    ensures
        form_for(*cur, *edit, r),
{
    let fs: &[Feature] = cur.features.as_slice();
    match edit {
        Edit::Idle | Edit::CreatePlan | Edit::ReopenWant { .. } | Edit::PostComment { .. } => None,
        Edit::RenameFeature { .. } => named("Rename feature", "Name", "Save"),
        Edit::DescribeFeature { .. } => texted(
            "Describe feature",
            "Description",
            "What this feature is for, in a sentence or two.",
            "Save",
        ),
        Edit::ShelveFeature { feature, shelve } => {
            let name = feature_name(fs, feature.as_str());
            if *shelve {
                confirmed(
                    "Shelve feature",
                    quote_then(name.as_str(), "' will be parked. Nothing in it can be claimed until it is unshelved."),
                    "Shelve",
                    false,
                )
            } else {
                confirmed(
                    "Unshelve feature",
                    quote_then(name.as_str(), "' goes back to planning. Its ready modules can be claimed again."),
                    "Unshelve",
                    false,
                )
            }
        },
        Edit::DeleteFeature { feature } => {
            let name = feature_name(fs, feature.as_str());
            confirmed(
                "Delete plan",
                quote_then(
                    name.as_str(),
                    "' and every module in it will be removed. The wants it was composed from go back to the pool.",
                ),
                "Delete plan",
                true,
            )
        },
        Edit::AddModule { feature } => {
            let none: Vec<Module> = Vec::new();
            let ms = modules_in(fs, feature.as_str(), &none);
            let candidates = module_candidates(ms);
            frame_of("Add module", Fields::NewModule { candidates }, "Add module", false, Ready::NameGiven)
        },
        Edit::EditRoadmapItem { item } => {
            let creating = trim(item.as_str()).unicode_len() == 0;
            if creating {
                frame_of("New roadmap item", Fields::RoadItem { creating }, "Create", false, Ready::NameGiven)
            } else {
                frame_of("Edit roadmap item", Fields::RoadItem { creating }, "Save", false, Ready::NameGiven)
            }
        },
        Edit::RemoveRoadmapItem { item } => {
            let name = road_name(cur, item.as_str());
            confirmed(
                "Remove roadmap item",
                quote_then(name.as_str(), "' comes off the roadmap, with its edges. Anything waiting on it stops waiting."),
                "Remove",
                true,
            )
        },
        Edit::ShelveRoadmapItem { item, shelve } => {
            let name = road_name(cur, item.as_str());
            if *shelve {
                confirmed(
                    "Shelve roadmap item",
                    quote_then(
                        name.as_str(),
                        "' leaves the roadmap and stops holding anything: features waiting on it can be released.",
                    ),
                    "Shelve",
                    false,
                )
            } else {
                confirmed(
                    "Unshelve roadmap item",
                    quote_then(name.as_str(), "' goes back on the roadmap and holds again."),
                    "Unshelve",
                    false,
                )
            }
        },
        Edit::AddRoadmapDependency { item } => {
            let found = cur.roadmap.item(item.as_str());
            let already = edge_ids_of(found);
            let candidates = road_candidates(&cur.roadmap.items, item.as_str(), &already);
            frame_of("Add prerequisite", Fields::RoadPrerequisite { candidates }, "Add", false, Ready::Picked)
        },
        Edit::RemoveRoadmapDependency { item, depends_on } => {
            let a = road_name(cur, item.as_str());
            let b = road_name(cur, depends_on.as_str());
            let mut sentence = quote_then(a.as_str(), "' will no longer wait on '");
            sentence.append(b.as_str());
            sentence.append("'.");
            confirmed("Remove prerequisite", sentence, "Remove", false)
        },
        Edit::BindFeature { .. } => {
            let candidates = bind_candidates(&cur.roadmap.items);
            frame_of("Bind to the roadmap", Fields::Bind { candidates }, "Save", false, Ready::Always)
        },
        Edit::ReleaseFeature { feature } => {
            let name = feature_name(fs, feature.as_str());
            let sentence = quote_then(name.as_str(), "' has gone out.");
            frame_of("Release feature", Fields::Release { sentence }, "Release", false, Ready::Always)
        },
        Edit::ShipRoadmapItem { item } => {
            let name = road_name(cur, item.as_str());
            let sentence = quote_then(name.as_str(), "' is live \u{2014} the capability exists for users.");
            let external = match cur.roadmap.item(item.as_str()) {
                Some(i) => i.features.len() == 0,
                None => false,
            };
            frame_of("Ship roadmap item", Fields::Ship { sentence, external }, "Ship", false, Ready::Always)
        },
        Edit::RenameModule { .. } => named("Rename module", "Name", "Save"),
        Edit::EditModule { .. } => frame_of("Edit module", Fields::ModuleText, "Save", false, Ready::Always),
        Edit::RemoveModule { feature, module } => {
            let name = match crate::edits::with_module(fs, feature.as_str(), module.as_str()) {
                Some(m) => m.name.clone(),
                None => String::new(),
            };
            confirmed(
                "Remove module",
                quote_then(
                    name.as_str(),
                    "' and its checklist will be removed from the plan. Modules that waited on it stop waiting.",
                ),
                "Remove module",
                true,
            )
        },
        Edit::AddTask { .. } => named("Add task", "Task", "Add task"),
        Edit::RemoveTask { feature, task } => {
            let none: Vec<Module> = Vec::new();
            let ms = modules_in(fs, feature.as_str(), &none);
            let label = task_label(ms, task.as_str());
            confirmed(
                "Remove task",
                quote_then(label.as_str(), "' will be removed from the checklist."),
                "Remove task",
                true,
            )
        },
        Edit::AddDependency { feature, module } => {
            let none: Vec<Module> = Vec::new();
            let ms = modules_in(fs, feature.as_str(), &none);
            proof {
                crate::seqs::lemma_first_is_first(ms@, crate::model::module_with(module@));
            }
            let already: Vec<String> = match module_at(ms, module.as_str()) {
                Some(k) => {
                    let d = ms[k].depends_on.clone();
                    assert(d.deep_view() =~= ms@[k as int].depends_on.deep_view());
                    d
                },
                None => {
                    let d: Vec<String> = Vec::new();
                    assert(d.deep_view() =~= Seq::<Seq<char>>::empty());
                    d
                },
            };
            let candidates = dep_candidates(ms, module.as_str(), &already);
            frame_of("Add prerequisite", Fields::Prerequisite { candidates }, "Add", false, Ready::Picked)
        },
        Edit::RemoveDependency { feature, module, depends_on } => {
            let (a, b) = match with_feature(fs, feature.as_str()) {
                Some(f) => (f.module_name(module.as_str()), f.module_name(depends_on.as_str())),
                None => (String::new(), String::new()),
            };
            let mut sentence = quote_then(a.as_str(), "' will no longer wait on '");
            sentence.append(b.as_str());
            sentence.append("'.");
            confirmed("Remove prerequisite", sentence, "Remove", true)
        },
        Edit::EditWant { want } => {
            let found = crate::cache::want_by_id(cur, want.as_str());
            let frozen = match found {
                Some(w) => w.state == WantState::Promoted,
                None => false,
            };
            if frozen {
                frame_of("Edit want", Fields::Want { frozen }, "Save", false, Ready::Always)
            } else {
                frame_of("Edit want", Fields::Want { frozen }, "Save", false, Ready::TextGiven)
            }
        },
        Edit::DeclineWant { .. } => texted("Decline want", "Reason", "Why this idea is not going ahead.", "Decline"),
        Edit::DeleteWant { want } => {
            let body = match crate::cache::want_by_id(cur, want.as_str()) {
                Some(w) => w.body,
                None => String::new(),
            };
            confirmed(
                "Delete want",
                quote_then(body.as_str(), "' will be removed from the pool."),
                "Delete want",
                true,
            )
        },
        Edit::AttachFile { .. } => frame_of("Attach file", Fields::Attach, "Attach", false, Ready::FilePicked),
        Edit::DescribeAttachment { .. } => texted(
            "Describe file",
            "Description",
            "What this file is and what a reader should take from it.",
            "Save",
        ),
        Edit::RemoveAttachment { attachment, .. } => {
            let name = crate::multipart::attachment_name(cur, attachment.as_str());
            proof {
                if name@.len() == 0 {
                    assert(name@ =~= Seq::<char>::empty());
                }
            }
            confirmed(
                "Remove file",
                quote_then(name.as_str(), "' will be removed, and its bytes with it."),
                "Remove file",
                true,
            )
        },
        Edit::EditComment { .. } => texted("Edit comment", "Comment", "Markdown.", "Save"),
        Edit::DeleteComment { question, .. } => {
            if *question {
                confirmed(
                    "Withdraw question",
                    String::from_str("The question comes off the record and whatever it held is released."),
                    "Withdraw",
                    true,
                )
            } else {
                confirmed(
                    "Delete comment",
                    String::from_str("The comment and any files it carried will be removed."),
                    "Delete",
                    true,
                )
            }
        },
    }
}

/// Whether a form's verb may be pressed now, from what its fields hold
/// and whether the file picker is open.
pub open spec fn ready_now(rule: Ready, name: Seq<char>, text: Seq<char>, picked: nat, file: bool, picking: bool) -> bool {
    match rule {
        Ready::Always => true,
        Ready::NameGiven => trimmed(name).len() > 0,
        Ready::TextGiven => trimmed(text).len() > 0,
        Ready::Picked => picked > 0,
        Ready::FilePicked => file && !picking,
    }
}

impl Ready {
    /// Whether the verb may be pressed with the form as it stands.
    pub fn holds(&self, form: &FormBuffers, picking: bool) -> (b: bool)
        ensures
            b == ready_now(*self, form.name@, form.text@, form.pick@.len(), form.file is Some, picking),
    {
        match self {
            Ready::Always => true,
            Ready::NameGiven => trim(form.name.as_str()).unicode_len() > 0,
            Ready::TextGiven => trim(form.text.as_str()).unicode_len() > 0,
            Ready::Picked => form.pick.len() > 0,
            Ready::FilePicked => form.file.is_some() && !picking,
        }
    }
}

} // verus!
