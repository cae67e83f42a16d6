//! Manual edits from the console: the menus that offer them, the form
//! each one opens on, and the request each one sends. Nothing here
//! decides what is allowed — a refused write comes back as the store's
//! own message — except the few refusals the console can make alone: an
//! empty plan name, no module picked, no file chosen.
use vstd::prelude::*;

use crate::cache::{Current, feature_with, want_with};
use crate::model::{Feature, Status, Want, WantState, road_state_label};
use crate::multipart::{CommentDraft, PickedBlob, comment_body, comment_boundary, comment_multipart, multipart, upload_body, upload_boundary};
use crate::seqs::{first_where, lemma_first_found, lemma_first_is_first, lemma_none_found};
use crate::text::{Sep, is_white, pieces, push_char, push_decimal, same_text, split, trim, trimmed, white, dec};

verus! {

// ---------------------------------------------------------------------
// Edits
// ---------------------------------------------------------------------

/// Every manual edit the console can make, by what it names.
#[derive(Clone, Debug, PartialEq, Eq, Default)]
pub enum Edit {
    #[default]
    /// No edit is open.
    Idle,
    CreatePlan,
    RenameFeature { feature: String },
    DescribeFeature { feature: String },
    ShelveFeature { feature: String, shelve: bool },
    DeleteFeature { feature: String },
    AddModule { feature: String },
    RenameModule { feature: String, module: String },
    EditModule { feature: String, module: String },
    RemoveModule { feature: String, module: String },
    AddTask { feature: String, module: String },
    RemoveTask { feature: String, task: String },
    AddDependency { feature: String, module: String },
    RemoveDependency { feature: String, module: String, depends_on: String },
    EditRoadmapItem { item: String },
    RemoveRoadmapItem { item: String },
    ShelveRoadmapItem { item: String, shelve: bool },
    AddRoadmapDependency { item: String },
    RemoveRoadmapDependency { item: String, depends_on: String },
    BindFeature { feature: String },
    ReleaseFeature { feature: String },
    ShipRoadmapItem { item: String },
    EditWant { want: String },
    DeclineWant { want: String },
    ReopenWant { want: String },
    DeleteWant { want: String },
    AttachFile { subject: String },
    DescribeAttachment { subject: String, attachment: String },
    RemoveAttachment { subject: String, attachment: String },
    PostComment { subject: String },
    EditComment { subject: String, comment: String },
    DeleteComment { subject: String, comment: String, question: bool },
}

/// Whether an edit asks something in the modal before it is sent: all
/// but the empty edit, the plan editor's own surface, a reopen, and the
/// composer's post.
pub open spec fn asks_first(e: Edit) -> bool {
    !(e is Idle || e is CreatePlan || e is ReopenWant || e is PostComment)
}

impl Edit {
    /// Whether the edit opens the modal.
    pub fn is_modal(&self) -> (r: bool)
        ensures
            r == asks_first(*self),
    {
        match self {
            Edit::Idle | Edit::CreatePlan | Edit::ReopenWant { .. } | Edit::PostComment { .. } => false,
            _ => true,
        }
    }
}

// ---------------------------------------------------------------------
// Menus
// ---------------------------------------------------------------------

/// One entry of an action menu: what it says and the edit it opens.
#[derive(Clone, Debug, PartialEq, Default)]
pub struct MenuEntry {
    pub label: String,
    pub edit: Edit,
    /// A destructive act — separated from the rest, and red.
    pub danger: bool,
}

impl MenuEntry {
    pub fn new(label: &str, edit: Edit) -> (r: MenuEntry)
        ensures
            r.label@ == label@,
            r.edit == edit,
            !r.danger,
    {
        MenuEntry { label: String::from_str(label), edit, danger: false }
    }

    pub fn danger(label: &str, edit: Edit) -> (r: MenuEntry)
        ensures
            r.label@ == label@,
            r.edit == edit,
            r.danger,
    {
        MenuEntry { label: String::from_str(label), edit, danger: true }
    }
}

/// An entry with this label, danger flag, and an edit that passes
/// `is_edit`.
pub open spec fn entry_is(e: MenuEntry, label: Seq<char>, danger: bool, is_edit: bool) -> bool {
    e.label@ == label && e.danger == danger && is_edit
}

/// The feature with this id, in the list given.
pub open spec fn feature_by_id(fs: Seq<Feature>, id: Seq<char>) -> Option<Feature> {
    match first_where(fs, feature_with(id)) {
        Some(k) => Some(fs[k]),
        None => None,
    }
}

fn find_feature_in(fs: &[Feature], id: &str) -> (r: Option<usize>)
    ensures
        match first_where(fs@, feature_with(id@)) {
            Some(k) => r is Some && r->0 == k,
            None => r is None,
        },
{
    let mut k: usize = 0;
    while k < fs.len()
        invariant
            k <= fs@.len(),
            forall|j: int| 0 <= j < k ==> !(#[trigger] feature_with(id@)(fs@[j])),
        decreases fs.len() - k,
    {
        if same_text(fs[k].id.as_str(), id) {
            proof {
                lemma_first_found(fs@, feature_with(id@), k as int);
            }
            return Some(k);
        }
        k = k + 1;
    }
    proof {
        lemma_none_found(fs@, feature_with(id@));
    }
    None
}

/// What a feature's menu reads: its status, whether it is shelved, and
/// whether it has gone out. A feature not on screen reads as queued,
/// unshelved and unreleased.
pub open spec fn menu_facts(fs: Seq<Feature>, id: Seq<char>) -> (Status, bool, bool) {
    match feature_by_id(fs, id) {
        Some(f) => (f.status, f.shelved, f.released@.len() > 0),
        None => (Status::Queued, false, false),
    }
}

/// The entries a feature's own menu offers: rename, describe, add a
/// module, bind; release while the work has landed and not gone out;
/// shelve or unshelve while it is not complete; deletion always, last —
/// the store says no when work has happened, in its own words.
pub open spec fn feature_menu(fs: Seq<Feature>, id: Seq<char>, es: Seq<MenuEntry>) -> bool {
    let (status, shelved, released) = menu_facts(fs, id);
    let releasable = status == Status::Done && !released;
    let open = status != Status::Done;
    let n = 4 + (if releasable { 1int } else { 0int }) + (if open { 1int } else { 0int });
    &&& es.len() == n + 1
    &&& entry_is(es[0], "Rename"@, false, es[0].edit matches Edit::RenameFeature { feature } && feature@ == id)
    &&& entry_is(es[1], "Edit description"@, false, es[1].edit matches Edit::DescribeFeature { feature } && feature@ == id)
    &&& entry_is(es[2], "Add module"@, false, es[2].edit matches Edit::AddModule { feature } && feature@ == id)
    &&& entry_is(es[3], "Bind to the roadmap"@, false, es[3].edit matches Edit::BindFeature { feature } && feature@ == id)
    &&& releasable ==> entry_is(es[4], "Release\u{2026}"@, false, es[4].edit matches Edit::ReleaseFeature { feature } && feature@ == id)
    &&& open ==> entry_is(
        es[n - 1],
        if shelved { "Unshelve"@ } else { "Shelve"@ },
        false,
        es[n - 1].edit matches Edit::ShelveFeature { feature, shelve } && feature@ == id && shelve == !shelved,
    )
    &&& entry_is(es[n], "Delete plan"@, true, es[n].edit matches Edit::DeleteFeature { feature } && feature@ == id)
}

fn text_of(s: &str) -> (r: String)
    ensures
        r@ == s@,
{
    String::from_str(s)
}

/// The entries a feature's own menu offers, over the features on
/// screen.
pub fn feature_entries(features: &[Feature], feature: &str) -> (r: Vec<MenuEntry>)
    ensures
        feature_menu(features@, feature@, r@),
{
    let (status, shelved, released) = match find_feature_in(features, feature) {
        Some(k) => (
            features[k].status,
            features[k].shelved,
            !features[k].released.as_str().is_empty(),
        ),
        None => (Status::Queued, false, false),
    };
    let mut entries: Vec<MenuEntry> = Vec::new();
    entries.push(MenuEntry::new("Rename", Edit::RenameFeature { feature: text_of(feature) }));
    entries.push(MenuEntry::new("Edit description", Edit::DescribeFeature { feature: text_of(feature) }));
    entries.push(MenuEntry::new("Add module", Edit::AddModule { feature: text_of(feature) }));
    entries.push(MenuEntry::new("Bind to the roadmap", Edit::BindFeature { feature: text_of(feature) }));
    if status == Status::Done && !released {
        entries.push(MenuEntry::new("Release\u{2026}", Edit::ReleaseFeature { feature: text_of(feature) }));
    }
    if status != Status::Done {
        entries.push(MenuEntry::new(
            if shelved { "Unshelve" } else { "Shelve" },
            Edit::ShelveFeature { feature: text_of(feature), shelve: !shelved },
        ));
    }
    entries.push(MenuEntry::danger("Delete plan", Edit::DeleteFeature { feature: text_of(feature) }));
    entries
}

/// The entries a module's drawer offers.
pub fn module_entries(feature: &str, module: &str) -> (r: Vec<MenuEntry>)
    ensures
        r@.len() == 5,
        entry_is(r@[0], "Rename"@, false, r@[0].edit matches Edit::RenameModule { feature: f, module: m } && f@ == feature@ && m@ == module@),
        entry_is(r@[1], "Edit description & owns"@, false, r@[1].edit matches Edit::EditModule { feature: f, module: m } && f@ == feature@ && m@ == module@),
        entry_is(r@[2], "Add task"@, false, r@[2].edit matches Edit::AddTask { feature: f, module: m } && f@ == feature@ && m@ == module@),
        entry_is(r@[3], "Add prerequisite"@, false, r@[3].edit matches Edit::AddDependency { feature: f, module: m } && f@ == feature@ && m@ == module@),
        entry_is(r@[4], "Remove module"@, true, r@[4].edit matches Edit::RemoveModule { feature: f, module: m } && f@ == feature@ && m@ == module@),
{
    let mut entries: Vec<MenuEntry> = Vec::new();
    entries.push(MenuEntry::new("Rename", Edit::RenameModule { feature: text_of(feature), module: text_of(module) }));
    entries.push(MenuEntry::new("Edit description & owns", Edit::EditModule { feature: text_of(feature), module: text_of(module) }));
    entries.push(MenuEntry::new("Add task", Edit::AddTask { feature: text_of(feature), module: text_of(module) }));
    entries.push(MenuEntry::new("Add prerequisite", Edit::AddDependency { feature: text_of(feature), module: text_of(module) }));
    entries.push(MenuEntry::danger("Remove module", Edit::RemoveModule { feature: text_of(feature), module: text_of(module) }));
    entries
}

/// The entries a want's drawer offers. A composed want keeps its
/// wording and cannot be declined or deleted, so only retagging and
/// files are offered on it; a file may be attached in any state.
pub open spec fn want_menu(w: Want, es: Seq<MenuEntry>) -> bool {
    let id = w.id@;
    let attach = |e: MenuEntry| entry_is(e, "Attach file"@, false, e.edit matches Edit::AttachFile { subject } && subject@ == id);
    match w.state {
        WantState::Promoted => {
            &&& es.len() == 2
            &&& entry_is(es[0], "Edit tags"@, false, es[0].edit matches Edit::EditWant { want } && want@ == id)
            &&& attach(es[1])
        },
        WantState::Declined => {
            &&& es.len() == 4
            &&& entry_is(es[0], "Edit"@, false, es[0].edit matches Edit::EditWant { want } && want@ == id)
            &&& attach(es[1])
            &&& entry_is(es[2], "Reopen"@, false, es[2].edit matches Edit::ReopenWant { want } && want@ == id)
            &&& entry_is(es[3], "Delete"@, true, es[3].edit matches Edit::DeleteWant { want } && want@ == id)
        },
        WantState::Open => {
            &&& es.len() == 4
            &&& entry_is(es[0], "Edit"@, false, es[0].edit matches Edit::EditWant { want } && want@ == id)
            &&& attach(es[1])
            &&& entry_is(es[2], "Decline\u{2026}"@, false, es[2].edit matches Edit::DeclineWant { want } && want@ == id)
            &&& entry_is(es[3], "Delete"@, true, es[3].edit matches Edit::DeleteWant { want } && want@ == id)
        },
    }
}

/// The entries a want's drawer offers.
pub fn want_entries(want: &Want) -> (r: Vec<MenuEntry>)
    ensures
        want_menu(*want, r@),
{
    let id = want.id.as_str();
    let mut entries: Vec<MenuEntry> = Vec::new();
    match want.state {
        WantState::Promoted => {
            entries.push(MenuEntry::new("Edit tags", Edit::EditWant { want: text_of(id) }));
            entries.push(MenuEntry::new("Attach file", Edit::AttachFile { subject: text_of(id) }));
        },
        WantState::Declined => {
            entries.push(MenuEntry::new("Edit", Edit::EditWant { want: text_of(id) }));
            entries.push(MenuEntry::new("Attach file", Edit::AttachFile { subject: text_of(id) }));
            entries.push(MenuEntry::new("Reopen", Edit::ReopenWant { want: text_of(id) }));
            entries.push(MenuEntry::danger("Delete", Edit::DeleteWant { want: text_of(id) }));
        },
        WantState::Open => {
            entries.push(MenuEntry::new("Edit", Edit::EditWant { want: text_of(id) }));
            entries.push(MenuEntry::new("Attach file", Edit::AttachFile { subject: text_of(id) }));
            entries.push(MenuEntry::new("Decline\u{2026}", Edit::DeclineWant { want: text_of(id) }));
            entries.push(MenuEntry::danger("Delete", Edit::DeleteWant { want: text_of(id) }));
        },
    }
    entries
}

// ---------------------------------------------------------------------
// Reading the form buffers
// ---------------------------------------------------------------------

/// The pieces trimmed, the empty ones dropped.
pub open spec fn kept_lines(ps: Seq<Seq<char>>) -> Seq<Seq<char>>
    decreases ps.len(),
{
    if ps.len() == 0 {
        Seq::empty()
    } else {
        let before = kept_lines(ps.drop_last());
        let t = trimmed(ps.last());
        if t.len() > 0 {
            before.push(t)
        } else {
            before
        }
    }
}

/// Non-empty trimmed lines.
pub open spec fn lines_spec(text: Seq<char>) -> Seq<Seq<char>> {
    kept_lines(pieces(text, Sep::Newline))
}

/// Path prefixes: one per line, or several per line separated by
/// commas — either way people write them.
pub open spec fn prefixes_spec(text: Seq<char>) -> Seq<Seq<char>> {
    kept_lines(pieces(text, Sep::NewlineOrComma))
}

fn keep_trimmed(ps: Vec<String>) -> (r: Vec<String>)
    ensures
        r.deep_view() == kept_lines(ps.deep_view()),
{
    let mut out: Vec<String> = Vec::new();
    let mut i: usize = 0;
    while i < ps.len()
        invariant
            i <= ps.len(),
            out.deep_view() == kept_lines(ps.deep_view().take(i as int)),
        decreases ps.len() - i,
    {
        proof {
            assert(ps.deep_view().take(i + 1).drop_last() =~= ps.deep_view().take(i as int));
        }
        let t = trim(ps[i].as_str());
        if !t.as_str().is_empty() {
            let ghost before = out.deep_view();
            out.push(t);
            assert(out.deep_view() =~= before.push(trimmed(ps.deep_view()[i as int])));
        }
        i = i + 1;
    }
    assert(ps.deep_view().take(ps.len() as int) =~= ps.deep_view());
    out
}

/// Non-empty trimmed lines of `text`.
pub fn lines(text: &str) -> (r: Vec<String>)
    ensures
        r.deep_view() == lines_spec(text@),
{
    keep_trimmed(split(text, Sep::Newline))
}

/// Path prefixes in `text`, by line or by comma.
pub fn lines_of(text: &str) -> (r: Vec<String>)
    ensures
        r.deep_view() == prefixes_spec(text@),
{
    keep_trimmed(split(text, Sep::NewlineOrComma))
}

/// `s` without the `#`s it starts with.
pub open spec fn drop_hashes(s: Seq<char>) -> Seq<char>
    decreases s.len(),
{
    if s.len() > 0 && s[0] == '#' {
        drop_hashes(s.drop_first())
    } else {
        s
    }
}

/// One raw piece as a tag: trimmed, its leading `#`s dropped, trimmed
/// again.
pub open spec fn tag_of(raw: Seq<char>) -> Seq<char> {
    trimmed(drop_hashes(trimmed(raw)))
}

/// The tags in the pieces, in order, each once.
pub open spec fn tags_from(ps: Seq<Seq<char>>) -> Seq<Seq<char>>
    decreases ps.len(),
{
    if ps.len() == 0 {
        Seq::empty()
    } else {
        let before = tags_from(ps.drop_last());
        let t = tag_of(ps.last());
        if t.len() > 0 && !before.contains(t) {
            before.push(t)
        } else {
            before
        }
    }
}

/// `#ux #billing` (or `ux, billing`) as a tag list.
pub open spec fn tags_spec(text: Seq<char>) -> Seq<Seq<char>> {
    tags_from(pieces(text, Sep::SpaceOrComma))
}

fn strip_hashes(s: &str) -> (r: String)
    ensures
        r@ == drop_hashes(s@),
{
    let n = s.unicode_len();
    let mut i: usize = 0;
    assert(s@.subrange(0, n as int) =~= s@);
    while i < n && s.get_char(i) == '#'
        invariant
            n == s@.len(),
            i <= n,
            drop_hashes(s@) == drop_hashes(s@.subrange(i as int, n as int)),
        decreases n - i,
    {
        assert(s@.subrange(i as int, n as int).drop_first() =~= s@.subrange(i + 1, n as int));
        i = i + 1;
    }
    let r = String::from_str(s.substring_char(i, n));
    proof {
        let rest = s@.subrange(i as int, n as int);
        if rest.len() > 0 {
            assert(rest[0] == s@[i as int]);
        }
        assert(r@ =~= rest);
    }
    r
}

fn holds_text(out: &Vec<String>, t: &str) -> (r: bool)
    ensures
        r == out.deep_view().contains(t@),
{
    let mut k: usize = 0;
    while k < out.len()
        invariant
            k <= out.len(),
            forall|j: int| 0 <= j < k ==> out.deep_view()[j] != t@,
        decreases out.len() - k,
    {
        if same_text(out[k].as_str(), t) {
            assert(out.deep_view()[k as int] == t@);
            return true;
        }
        k = k + 1;
    }
    false
}

/// `#ux #billing` (or `ux, billing`) as a tag list. Normalization —
/// case, punctuation — is the store's, at write time.
pub fn tags_of(text: &str) -> (r: Vec<String>)
    ensures
        r.deep_view() == tags_spec(text@),
{
    let raws = split(text, Sep::SpaceOrComma);
    let mut out: Vec<String> = Vec::new();
    let mut i: usize = 0;
    while i < raws.len()
        invariant
            i <= raws.len(),
            out.deep_view() == tags_from(raws.deep_view().take(i as int)),
        decreases raws.len() - i,
    {
        proof {
            assert(raws.deep_view().take(i + 1).drop_last() =~= raws.deep_view().take(i as int));
        }
        let first = trim(raws[i].as_str());
        let bare = strip_hashes(first.as_str());
        let tag = trim(bare.as_str());
        if !tag.as_str().is_empty() && !holds_text(&out, tag.as_str()) {
            let ghost before = out.deep_view();
            out.push(tag);
            assert(out.deep_view() =~= before.push(tag_of(raws.deep_view()[i as int])));
        }
        i = i + 1;
    }
    assert(raws.deep_view().take(raws.len() as int) =~= raws.deep_view());
    out
}

// ---------------------------------------------------------------------
// The plan editor's draft
// ---------------------------------------------------------------------

/// One module slot of the plan editor.
pub struct PlanSlot {
    pub name: String,
    pub description: String,
    /// One task per line.
    pub tasks: String,
    pub owns: String,
    /// Prerequisites, as places among the slots.
    pub deps: Vec<usize>,
}

/// The plan editor's buffers, its slots cut to the ones in use.
pub struct PlanForm {
    pub roadmap_item: Option<String>,
    pub name: String,
    pub description: String,
    pub whitepaper: String,
    pub slots: Vec<PlanSlot>,
}

/// One module of a new plan.
pub struct ModuleDraft {
    pub name: String,
    pub description: String,
    pub tasks: Vec<String>,
    pub depends_on: Vec<String>,
    pub owns: Vec<String>,
}

/// A new plan, as sent.
pub struct PlanDraft {
    pub roadmap_item: Option<String>,
    pub name: String,
    pub description: String,
    pub whitepaper: String,
    pub modules: Vec<ModuleDraft>,
}

/// A slot left without a name.
pub open spec fn unnamed() -> spec_fn(PlanSlot) -> bool {
    |s: PlanSlot| trimmed(s.name@).len() == 0
}

/// The named slots among the places given, by name.
pub open spec fn dep_names(slots: Seq<PlanSlot>, deps: Seq<usize>) -> Seq<Seq<char>>
    decreases deps.len(),
{
    if deps.len() == 0 {
        Seq::empty()
    } else {
        let before = dep_names(slots, deps.drop_last());
        let d = deps.last() as int;
        if d < slots.len() && trimmed(slots[d].name@).len() > 0 {
            before.push(trimmed(slots[d].name@))
        } else {
            before
        }
    }
}

/// A slot as a module draft: every text trimmed, its tasks by line, its
/// prerequisites by name, its paths by line or comma.
pub open spec fn module_draft_of(slots: Seq<PlanSlot>, i: int, m: ModuleDraft) -> bool {
    &&& m.name@ == trimmed(slots[i].name@)
    &&& m.description@ == trimmed(slots[i].description@)
    &&& m.tasks.deep_view() == lines_spec(slots[i].tasks@)
    &&& m.depends_on.deep_view() == dep_names(slots, slots[i].deps@)
    &&& m.owns.deep_view() == prefixes_spec(slots[i].owns@)
}

/// The draft the buffers make.
pub open spec fn draft_of(p: PlanForm, d: PlanDraft) -> bool {
    &&& crate::wire::opt_text(d.roadmap_item) == crate::wire::opt_text(p.roadmap_item)
    &&& d.name@ == trimmed(p.name@)
    &&& d.description@ == trimmed(p.description@)
    &&& d.whitepaper@ == trimmed(p.whitepaper@)
    &&& d.modules@.len() == p.slots@.len()
    &&& forall|i: int| 0 <= i < p.slots@.len() ==> #[trigger] module_draft_of(p.slots@, i, d.modules@[i])
}

/// What the plan editor's buffers come to: a refusal for a plan or a
/// module without a name (the first such module, counted from one), a
/// draft otherwise.
pub open spec fn plan_outcome(p: PlanForm, r: Result<PlanDraft, String>) -> bool {
    if trimmed(p.name@).len() == 0 {
        r matches Err(e) && e@ == "The plan needs a name."@
    } else {
        match first_where(p.slots@, unnamed()) {
            Some(i) => r matches Err(e) && e@ == "Module "@ + dec((i + 1) as nat) + " needs a name."@,
            None => r matches Ok(d) && draft_of(p, d),
        }
    }
}

fn copy_opt(o: &Option<String>) -> (r: Option<String>)
    ensures
        crate::wire::opt_text(r) == crate::wire::opt_text(*o),
{
    match o {
        Some(s) => Some(s.clone()),
        None => None,
    }
}

/// The plan editor's buffers as a draft, or the reason they are not
/// one yet.
pub fn plan_draft(plan: &PlanForm) -> (r: Result<PlanDraft, String>)
    ensures
        plan_outcome(*plan, r),
{
    let name = trim(plan.name.as_str());
    if name.as_str().is_empty() {
        return Err(String::from_str("The plan needs a name."));
    }
    let slots = &plan.slots;
    let mut names: Vec<String> = Vec::new();
    let mut i: usize = 0;
    while i < slots.len()
        invariant
            i <= slots@.len(),
            names@.len() == i,
            forall|j: int| 0 <= j < i ==> (#[trigger] names@[j])@ == trimmed(slots@[j].name@),
        decreases slots.len() - i,
    {
        names.push(trim(slots[i].name.as_str()));
        i = i + 1;
    }
    let mut modules: Vec<ModuleDraft> = Vec::new();
    let mut i: usize = 0;
    while i < slots.len()
        invariant
            i <= slots@.len(),
            names@.len() == slots@.len(),
            forall|j: int| 0 <= j < slots@.len() ==> (#[trigger] names@[j])@ == trimmed(slots@[j].name@),
            forall|j: int| 0 <= j < i ==> !(#[trigger] unnamed()(slots@[j])),
            trimmed(plan.name@).len() > 0,
            slots@ == plan.slots@,
            modules@.len() == i,
            forall|j: int| 0 <= j < i ==> #[trigger] module_draft_of(slots@, j, modules@[j]),
        decreases slots.len() - i,
    {
        if names[i].as_str().is_empty() {
            proof {
                lemma_first_found(slots@, unnamed(), i as int);
            }
            let mut why = String::from_str("Module ");
            push_decimal(&mut why, (i as u128) + 1);
            why.append(" needs a name.");
            assert(why@ =~= "Module "@ + dec((i + 1) as nat) + " needs a name."@);
            return Err(why);
        }
        let slot = &slots[i];
        let mut deps: Vec<String> = Vec::new();
        let mut k: usize = 0;
        while k < slot.deps.len()
            invariant
                k <= slot.deps@.len(),
                names@.len() == slots@.len(),
                forall|j: int| 0 <= j < slots@.len() ==> (#[trigger] names@[j])@ == trimmed(slots@[j].name@),
                deps.deep_view() == dep_names(slots@, slot.deps@.take(k as int)),
            decreases slot.deps.len() - k,
        {
            proof {
                assert(slot.deps@.take(k + 1).drop_last() =~= slot.deps@.take(k as int));
            }
            let d = slot.deps[k];
            if d < names.len() && !names[d].as_str().is_empty() {
                let ghost before = deps.deep_view();
                deps.push(names[d].clone());
                assert(deps.deep_view() =~= before.push(trimmed(slots@[d as int].name@)));
            }
            k = k + 1;
        }
        assert(slot.deps@.take(slot.deps.len() as int) =~= slot.deps@);
        modules.push(ModuleDraft {
            name: names[i].clone(),
            description: trim(slot.description.as_str()),
            tasks: lines(slot.tasks.as_str()),
            depends_on: deps,
            owns: lines_of(slot.owns.as_str()),
        });
        i = i + 1;
    }
    proof {
        lemma_none_found(slots@, unnamed());
    }
    Ok(PlanDraft {
        roadmap_item: copy_opt(&plan.roadmap_item),
        name,
        description: trim(plan.description.as_str()),
        whitepaper: trim(plan.whitepaper.as_str()),
        modules,
    })
}

// ---------------------------------------------------------------------
// Requests
// ---------------------------------------------------------------------

/// One change to a feature's plan.
#[derive(Debug)]
pub enum PlanOp {
    Rename { id: String, name: String },
    UpdateFeature { description: String },
    AddModule {
        name: String,
        description: String,
        tasks: Vec<String>,
        depends_on: Vec<String>,
        owns: Vec<String>,
    },
    UpdateModule { id: String, description: String, owns: Vec<String> },
    Remove { id: String },
    AddTask { module_id: String, name: String },
    AddDependency { module_id: String, depends_on: String },
    RemoveDependency { module_id: String, depends_on: String },
}

/// One change to the roadmap.
#[derive(Debug)]
pub enum RoadmapOp {
    RemoveItem { item_id: String },
    ShelveItem { item_id: String, shelved: bool },
    AddDependency { item_id: String, depends_on: String, hard: bool },
    RemoveDependency { item_id: String, depends_on: String },
    /// An empty item loosens the feature.
    BindFeature { feature_id: String, item_id: String },
}

/// A roadmap item as written: a new one when `item_id` is empty.
#[derive(Debug)]
pub struct RoadmapDraft {
    pub item_id: String,
    pub name: String,
    pub intent: String,
    pub vision: String,
    pub horizon: String,
}

/// The write an edit sends.
pub enum Request {
    CreatePlan(PlanDraft),
    RevisePlan { feature: String, op: PlanOp },
    ShelvePlan { feature: String, shelve: bool },
    DeletePlan { feature: String },
    SaveRoadmapItem(RoadmapDraft),
    ReviseRoadmap(RoadmapOp),
    ReleaseFeature { feature: String, note: String },
    ShipRoadmapItem { item: String, note: String },
    EditWant { want: String, body: String, tags: Vec<String> },
    SetWantState { want: String, state: String, note: String },
    DeleteWant { want: String },
    /// A file for a subject, as the upload route's multipart body.
    Upload { subject: String, content_type: String, body: Vec<u8> },
    DescribeAttachment { attachment: String, description: String },
    RemoveAttachment { attachment: String },
    /// A comment, as the comment route's multipart body.
    PostComment { subject: String, content_type: String, body: Vec<u8> },
    EditComment { comment: String, body: String },
    DeleteComment { comment: String },
}

/// The edit form's buffers.
pub struct FormBuffers {
    pub name: String,
    pub text: String,
    /// One task per line.
    pub lines: String,
    pub owns: String,
    pub tags: String,
    /// The picked candidates, in the order picked.
    pub pick: Vec<String>,
    pub hard: bool,
    pub file: Option<PickedBlob>,
}

/// A plan revision for `feature` with an op that passes `op_ok`.
pub open spec fn revises(r: Result<Request, String>, feature: Seq<char>, op_ok: spec_fn(PlanOp) -> bool) -> bool {
    r matches Ok(Request::RevisePlan { feature: f, op }) && f@ == feature && op_ok(op)
}

/// A roadmap revision with an op that passes `op_ok`.
pub open spec fn revises_roadmap(r: Result<Request, String>, op_ok: spec_fn(RoadmapOp) -> bool) -> bool {
    r matches Ok(Request::ReviseRoadmap(op)) && op_ok(op)
}

/// A refusal with these words.
pub open spec fn refused(r: Result<Request, String>, why: Seq<char>) -> bool {
    r matches Err(e) && e@ == why
}

/// The request an edit sends from the buffers: every text trimmed,
/// tasks by line, paths by line or comma, tags as a list. The console
/// refuses on its own only an empty edit, an unnamed plan or module, an
/// edge with nothing picked, and an upload with no file.
pub open spec fn request_for(
    edit: Edit,
    form: FormBuffers,
    plan: PlanForm,
    comment: CommentDraft,
    stamp: u64,
    r: Result<Request, String>,
) -> bool {
    let name = trimmed(form.name@);
    let text = trimmed(form.text@);
    match edit {
        Edit::Idle => refused(r, "Nothing to send."@),
        Edit::CreatePlan => match r {
            Ok(Request::CreatePlan(d)) => plan_outcome(plan, Ok(d)),
            Err(e) => plan_outcome(plan, Err(e)),
            _ => false,
        },
        Edit::RenameFeature { feature } => revises(r, feature@, |op: PlanOp| op matches PlanOp::Rename { id, name: n } && id@ == feature@ && n@ == name),
        Edit::DescribeFeature { feature } => revises(r, feature@, |op: PlanOp| op matches PlanOp::UpdateFeature { description } && description@ == text),
        Edit::ShelveFeature { feature, shelve } => r matches Ok(Request::ShelvePlan { feature: f, shelve: s }) && f@ == feature@ && s == shelve,
        Edit::DeleteFeature { feature } => r matches Ok(Request::DeletePlan { feature: f }) && f@ == feature@,
        Edit::AddModule { feature } => revises(r, feature@, |op: PlanOp| op matches PlanOp::AddModule { name: n, description, tasks, depends_on, owns } && n@ == name && description@ == text && tasks.deep_view() == lines_spec(form.lines@) && depends_on.deep_view() == form.pick.deep_view() && owns.deep_view() == prefixes_spec(form.owns@)),
        Edit::RenameModule { feature, module } => revises(r, feature@, |op: PlanOp| op matches PlanOp::Rename { id, name: n } && id@ == module@ && n@ == name),
        Edit::EditModule { feature, module } => revises(r, feature@, |op: PlanOp| op matches PlanOp::UpdateModule { id, description, owns } && id@ == module@ && description@ == text && owns.deep_view() == prefixes_spec(form.owns@)),
        Edit::RemoveModule { feature, module } => revises(r, feature@, |op: PlanOp| op matches PlanOp::Remove { id } && id@ == module@),
        Edit::AddTask { feature, module } => revises(r, feature@, |op: PlanOp| op matches PlanOp::AddTask { module_id, name: n } && module_id@ == module@ && n@ == name),
        Edit::RemoveTask { feature, task } => revises(r, feature@, |op: PlanOp| op matches PlanOp::Remove { id } && id@ == task@),
        Edit::AddDependency { feature, module } => if form.pick@.len() == 0 {
            refused(r, "Pick the module to wait on."@)
        } else {
            revises(r, feature@, |op: PlanOp| op matches PlanOp::AddDependency { module_id, depends_on } && module_id@ == module@ && depends_on@ == form.pick@[0]@)
        },
        Edit::RemoveDependency { feature, module, depends_on } => revises(r, feature@, |op: PlanOp| op matches PlanOp::RemoveDependency { module_id, depends_on: d } && module_id@ == module@ && d@ == depends_on@),
        Edit::EditRoadmapItem { item } => r matches Ok(Request::SaveRoadmapItem(d)) && d.item_id@ == item@ && d.name@ == name && d.intent@ == text && d.vision@ == trimmed(form.owns@) && d.horizon@ == trimmed(form.tags@),
        Edit::RemoveRoadmapItem { item } => revises_roadmap(r, |op: RoadmapOp| op matches RoadmapOp::RemoveItem { item_id } && item_id@ == item@),
        Edit::ShelveRoadmapItem { item, shelve } => revises_roadmap(r, |op: RoadmapOp| op matches RoadmapOp::ShelveItem { item_id, shelved } && item_id@ == item@ && shelved == shelve),
        Edit::AddRoadmapDependency { item } => if form.pick@.len() == 0 {
            refused(r, "Pick the item to wait on."@)
        } else {
            revises_roadmap(r, |op: RoadmapOp| op matches RoadmapOp::AddDependency { item_id, depends_on, hard } && item_id@ == item@ && depends_on@ == form.pick@[0]@ && hard == form.hard)
        },
        Edit::RemoveRoadmapDependency { item, depends_on } => revises_roadmap(r, |op: RoadmapOp| op matches RoadmapOp::RemoveDependency { item_id, depends_on: d } && item_id@ == item@ && d@ == depends_on@),
        Edit::BindFeature { feature } => revises_roadmap(r, |op: RoadmapOp| op matches RoadmapOp::BindFeature { feature_id, item_id } && feature_id@ == feature@ && item_id@ == (if form.pick@.len() > 0 { form.pick@[0]@ } else { Seq::<char>::empty() })),
        Edit::ReleaseFeature { feature } => r matches Ok(Request::ReleaseFeature { feature: f, note }) && f@ == feature@ && note@ == text,
        Edit::ShipRoadmapItem { item } => r matches Ok(Request::ShipRoadmapItem { item: i, note }) && i@ == item@ && note@ == text,
        Edit::EditWant { want } => r matches Ok(Request::EditWant { want: w, body, tags }) && w@ == want@ && body@ == text && tags.deep_view() == tags_spec(form.tags@),
        Edit::DeclineWant { want } => r matches Ok(Request::SetWantState { want: w, state, note }) && w@ == want@ && state@ == "declined"@ && note@ == text,
        Edit::ReopenWant { want } => r matches Ok(Request::SetWantState { want: w, state, note }) && w@ == want@ && state@ == "open"@ && note@.len() == 0,
        Edit::DeleteWant { want } => r matches Ok(Request::DeleteWant { want: w }) && w@ == want@,
        Edit::AttachFile { subject } => match form.file {
            Some(blob) => r matches Ok(Request::Upload { subject: s, content_type, body }) && s@ == subject@ && content_type@ == "multipart/form-data; boundary="@ + upload_boundary(blob.bytes@.len(), stamp) && body@ == upload_body(blob, text, stamp),
            None => refused(r, "Choose a file first."@),
        },
        Edit::DescribeAttachment { attachment, .. } => r matches Ok(Request::DescribeAttachment { attachment: a, description }) && a@ == attachment@ && description@ == text,
        Edit::RemoveAttachment { attachment, .. } => r matches Ok(Request::RemoveAttachment { attachment: a }) && a@ == attachment@,
        Edit::PostComment { subject } => r matches Ok(Request::PostComment { subject: s, content_type, body }) && s@ == subject@ && content_type@ == "multipart/form-data; boundary="@ + comment_boundary(stamp) && body@ == comment_body(comment, stamp),
        Edit::EditComment { comment: c, .. } => r matches Ok(Request::EditComment { comment: x, body }) && x@ == c@ && body@ == text,
        Edit::DeleteComment { comment: c, .. } => r matches Ok(Request::DeleteComment { comment: x }) && x@ == c@,
    }
}

fn first_pick(pick: &Vec<String>) -> (r: String)
    ensures
        r@ == (if pick@.len() > 0 { pick@[0]@ } else { Seq::<char>::empty() }),
{
    if pick.len() > 0 {
        pick[0].clone()
    } else {
        String::new()
    }
}

/// Builds the request an edit sends from the buffers. An `Err` is a
/// refusal the console can make on its own and never reaches the
/// server. `stamp` is the moment a multipart body is built, in
/// microseconds.
pub fn request(
    edit: &Edit,
    form: &FormBuffers,
    plan: &PlanForm,
    comment: &CommentDraft,
    stamp: u64,
) -> (r: Result<Request, String>)
    ensures
        request_for(*edit, *form, *plan, *comment, stamp, r),
{
    let name = trim(form.name.as_str());
    let text = trim(form.text.as_str());
    match edit {
        Edit::Idle => Err(String::from_str("Nothing to send.")),
        Edit::CreatePlan => match plan_draft(plan) {
            Ok(d) => Ok(Request::CreatePlan(d)),
            Err(e) => Err(e),
        },
        Edit::RenameFeature { feature } => Ok(Request::RevisePlan { feature: feature.clone(), op: PlanOp::Rename { id: feature.clone(), name } }),
        Edit::DescribeFeature { feature } => Ok(Request::RevisePlan { feature: feature.clone(), op: PlanOp::UpdateFeature { description: text } }),
        Edit::ShelveFeature { feature, shelve } => Ok(Request::ShelvePlan { feature: feature.clone(), shelve: *shelve }),
        Edit::DeleteFeature { feature } => Ok(Request::DeletePlan { feature: feature.clone() }),
        Edit::AddModule { feature } => Ok(Request::RevisePlan {
            feature: feature.clone(),
            op: PlanOp::AddModule {
                name,
                description: text,
                tasks: lines(form.lines.as_str()),
                depends_on: crate::model::copy_strings(&form.pick),
                owns: lines_of(form.owns.as_str()),
            },
        }),
        Edit::RenameModule { feature, module } => Ok(Request::RevisePlan { feature: feature.clone(), op: PlanOp::Rename { id: module.clone(), name } }),
        Edit::EditModule { feature, module } => Ok(Request::RevisePlan {
            feature: feature.clone(),
            op: PlanOp::UpdateModule { id: module.clone(), description: text, owns: lines_of(form.owns.as_str()) },
        }),
        Edit::RemoveModule { feature, module } => Ok(Request::RevisePlan { feature: feature.clone(), op: PlanOp::Remove { id: module.clone() } }),
        Edit::AddTask { feature, module } => Ok(Request::RevisePlan { feature: feature.clone(), op: PlanOp::AddTask { module_id: module.clone(), name } }),
        Edit::RemoveTask { feature, task } => Ok(Request::RevisePlan { feature: feature.clone(), op: PlanOp::Remove { id: task.clone() } }),
        Edit::AddDependency { feature, module } => {
            if form.pick.len() == 0 {
                return Err(String::from_str("Pick the module to wait on."));
            }
            Ok(Request::RevisePlan {
                feature: feature.clone(),
                op: PlanOp::AddDependency { module_id: module.clone(), depends_on: form.pick[0].clone() },
            })
        },
        Edit::RemoveDependency { feature, module, depends_on } => Ok(Request::RevisePlan {
            feature: feature.clone(),
            op: PlanOp::RemoveDependency { module_id: module.clone(), depends_on: depends_on.clone() },
        }),
        Edit::EditRoadmapItem { item } => Ok(Request::SaveRoadmapItem(RoadmapDraft {
            item_id: item.clone(),
            name,
            intent: text,
            vision: trim(form.owns.as_str()),
            horizon: trim(form.tags.as_str()),
        })),
        Edit::RemoveRoadmapItem { item } => Ok(Request::ReviseRoadmap(RoadmapOp::RemoveItem { item_id: item.clone() })),
        Edit::ShelveRoadmapItem { item, shelve } => Ok(Request::ReviseRoadmap(RoadmapOp::ShelveItem { item_id: item.clone(), shelved: *shelve })),
        Edit::AddRoadmapDependency { item } => {
            if form.pick.len() == 0 {
                return Err(String::from_str("Pick the item to wait on."));
            }
            Ok(Request::ReviseRoadmap(RoadmapOp::AddDependency {
                item_id: item.clone(),
                depends_on: form.pick[0].clone(),
                hard: form.hard,
            }))
        },
        Edit::RemoveRoadmapDependency { item, depends_on } => Ok(Request::ReviseRoadmap(RoadmapOp::RemoveDependency {
            item_id: item.clone(),
            depends_on: depends_on.clone(),
        })),
        Edit::BindFeature { feature } => Ok(Request::ReviseRoadmap(RoadmapOp::BindFeature {
            feature_id: feature.clone(),
            item_id: first_pick(&form.pick),
        })),
        Edit::ReleaseFeature { feature } => Ok(Request::ReleaseFeature { feature: feature.clone(), note: text }),
        Edit::ShipRoadmapItem { item } => Ok(Request::ShipRoadmapItem { item: item.clone(), note: text }),
        Edit::EditWant { want } => Ok(Request::EditWant { want: want.clone(), body: text, tags: tags_of(form.tags.as_str()) }),
        Edit::DeclineWant { want } => Ok(Request::SetWantState { want: want.clone(), state: String::from_str("declined"), note: text }),
        Edit::ReopenWant { want } => Ok(Request::SetWantState { want: want.clone(), state: String::from_str("open"), note: String::new() }),
        Edit::DeleteWant { want } => Ok(Request::DeleteWant { want: want.clone() }),
        Edit::AttachFile { subject } => match &form.file {
            Some(blob) => {
                let (content_type, body) = multipart(blob, text.as_str(), stamp);
                Ok(Request::Upload { subject: subject.clone(), content_type, body })
            },
            None => Err(String::from_str("Choose a file first.")),
        },
        Edit::DescribeAttachment { attachment, .. } => Ok(Request::DescribeAttachment { attachment: attachment.clone(), description: text }),
        Edit::RemoveAttachment { attachment, .. } => Ok(Request::RemoveAttachment { attachment: attachment.clone() }),
        Edit::PostComment { subject } => {
            let (content_type, body) = comment_multipart(comment, stamp);
            Ok(Request::PostComment { subject: subject.clone(), content_type, body })
        },
        Edit::EditComment { comment: c, .. } => Ok(Request::EditComment { comment: c.clone(), body: text }),
        Edit::DeleteComment { comment: c, .. } => Ok(Request::DeleteComment { comment: c.clone() }),
    }
}

// ---------------------------------------------------------------------
// Starting an edit
// ---------------------------------------------------------------------

/// What a form opens on.
pub struct Seed {
    pub name: String,
    pub text: String,
    pub lines: String,
    pub owns: String,
    pub tags: String,
    /// The pick the form starts with, when it sets one.
    pub pick: Option<Vec<String>>,
    /// The hard switch's start, when the form has one.
    pub hard: Option<bool>,
}

/// Starting an edit: what the form opens on, and whether it opens the
/// modal or is sent at once.
pub struct Choice {
    pub seed: Seed,
    pub open: bool,
}

/// The module of a feature, by ids.
pub open spec fn module_by_ids(fs: Seq<Feature>, feature: Seq<char>, module: Seq<char>) -> Option<crate::model::Module> {
    match feature_by_id(fs, feature) {
        Some(f) => match first_where(f.modules@, crate::model::module_with(module)) {
            Some(k) => Some(f.modules@[k]),
            None => None,
        },
        None => None,
    }
}

/// The roadmap item with this id.
pub open spec fn item_by_id(items: Seq<crate::model::RoadItem>, id: Seq<char>) -> Option<crate::model::RoadItem> {
    match first_where(items, crate::model::item_with(id)) {
        Some(k) => Some(items[k]),
        None => None,
    }
}

/// A want's tags as the form shows them: `#tag`, space-separated.
pub open spec fn hashed_tags(tags: Seq<Seq<char>>) -> Seq<char> {
    crate::text::joined(tags.map_values(|t: Seq<char>| seq!['#'] + t), " "@)
}

/// A seed whose five buffers hold these texts.
pub open spec fn seeds(s: Seed, name: Seq<char>, text: Seq<char>, owns: Seq<char>, tags: Seq<char>) -> bool {
    &&& s.name@ == name
    &&& s.text@ == text
    &&& s.lines@.len() == 0
    &&& s.owns@ == owns
    &&& s.tags@ == tags
}

/// What each edit's form opens on, from what the cache holds now: the
/// current name, description, owns, wording or tags of what it edits;
/// blank for a new thing or when the thing is not on screen.
pub open spec fn seed_for(c: Current, edit: Edit, s: Seed) -> bool {
    let empty = Seq::<char>::empty();
    match edit {
        Edit::RenameFeature { feature } => seeds(s, match feature_by_id(c.features@, feature@) {
            Some(f) => f.name@,
            None => empty,
        }, empty, empty, empty) && s.pick is None && s.hard is None,
        Edit::DescribeFeature { feature } => seeds(s, empty, match feature_by_id(c.features@, feature@) {
            Some(f) => f.description@,
            None => empty,
        }, empty, empty) && s.pick is None && s.hard is None,
        Edit::RenameModule { feature, module } => seeds(s, match module_by_ids(c.features@, feature@, module@) {
            Some(m) => m.name@,
            None => empty,
        }, empty, empty, empty) && s.pick is None && s.hard is None,
        Edit::EditModule { feature, module } => (match module_by_ids(c.features@, feature@, module@) {
            Some(m) => seeds(s, empty, m.description@, crate::text::joined(m.owns.deep_view(), "\n"@), empty),
            None => seeds(s, empty, empty, empty, empty),
        }) && s.pick is None && s.hard is None,
        Edit::EditRoadmapItem { item } => (match item_by_id(c.roadmap.items@, item@) {
            Some(i) => seeds(s, i.name@, i.intent@, i.vision@, i.horizon@),
            None => seeds(s, empty, empty, empty, empty),
        }) && s.pick is None && s.hard == Some(false),
        Edit::AddRoadmapDependency { .. } => seeds(s, empty, empty, empty, empty) && s.pick is None && s.hard == Some(false),
        Edit::BindFeature { feature } => seeds(s, empty, empty, empty, empty) && s.hard is None && (s.pick matches Some(p) && p.deep_view() == (match feature_by_id(c.features@, feature@) {
            Some(f) => match f.roadmap_item {
                Some(e) => seq![e.item_id@],
                None => Seq::empty(),
            },
            None => Seq::empty(),
        })),
        Edit::EditWant { want } => (match crate::cache::want_shown(c, want@) {
            Some(w) => seeds(s, empty, w.body@, empty, hashed_tags(w.tags.deep_view())),
            None => seeds(s, empty, empty, empty, empty),
        }) && s.pick is None && s.hard is None,
        Edit::DescribeAttachment { attachment, .. } => seeds(s, empty, match crate::cache::attachment_shown(c, attachment@) {
            Some(a) => a.description@,
            None => empty,
        }, empty, empty) && s.pick is None && s.hard is None,
        Edit::EditComment { comment, .. } => s.pick is None && s.hard is None && (if crate::cache::comment_held(c.threads@, comment@) {
            exists|t: int, j: int|
                crate::cache::first_comment_at(c.threads@, comment@, t, j)
                    && seeds(s, empty, (#[trigger] c.threads@[t].1@[j]).body@, empty, empty)
        } else {
            seeds(s, empty, empty, empty, empty)
        }),
        _ => seeds(s, empty, empty, empty, empty) && s.pick is None && s.hard is None,
    }
}

fn blank_seed() -> (s: Seed)
    ensures
        seeds(s, Seq::empty(), Seq::empty(), Seq::empty(), Seq::empty()),
        s.pick is None,
        s.hard is None,
{
    Seed {
        name: String::new(),
        text: String::new(),
        lines: String::new(),
        owns: String::new(),
        tags: String::new(),
        pick: None,
        hard: None,
    }
}

fn find_module_in(f: &Feature, id: &str) -> (r: Option<usize>)
    ensures
        match first_where(f.modules@, crate::model::module_with(id@)) {
            Some(k) => r is Some && r->0 == k,
            None => r is None,
        },
{
    f.module_index(id)
}

fn hashed(tags: &Vec<String>) -> (r: String)
    ensures
        r@ == hashed_tags(tags.deep_view()),
{
    let mut parts: Vec<String> = Vec::new();
    let mut i: usize = 0;
    while i < tags.len()
        invariant
            i <= tags.len(),
            parts.deep_view() == tags.deep_view().take(i as int).map_values(|t: Seq<char>| seq!['#'] + t),
        decreases tags.len() - i,
    {
        let mut p = String::new();
        push_char(&mut p, '#');
        p.append(tags[i].as_str());
        let ghost before = parts.deep_view();
        parts.push(p);
        assert(parts.deep_view() =~= before.push(seq!['#'] + tags.deep_view()[i as int]));
        assert(parts.deep_view() =~= tags.deep_view().take(i + 1).map_values(|t: Seq<char>| seq!['#'] + t));
        i = i + 1;
    }
    assert(tags.deep_view().take(tags.len() as int) =~= tags.deep_view());
    crate::text::join(&parts, " ")
}

/// Starts an edit: seeds the form from what the cache holds now, and
/// says whether it opens the modal or, with nothing to ask, is sent.
pub fn choose_edit(cur: &Current, edit: &Edit) -> (r: Choice)
    ensures
        seed_for(*cur, *edit, r.seed),
        r.open == asks_first(*edit),
{
    let fs: &[Feature] = cur.features.as_slice();
    let seed = match edit {
        Edit::RenameFeature { feature } => {
            let mut s = blank_seed();
            if let Some(k) = find_feature_in(fs, feature.as_str()) {
                s.name = fs[k].name.clone();
            }
            s
        },
        Edit::DescribeFeature { feature } => {
            let mut s = blank_seed();
            if let Some(k) = find_feature_in(fs, feature.as_str()) {
                s.text = fs[k].description.clone();
            }
            s
        },
        Edit::RenameModule { feature, module } => {
            let mut s = blank_seed();
            if let Some(k) = find_feature_in(fs, feature.as_str()) {
                if let Some(m) = find_module_in(&fs[k], module.as_str()) {
                    s.name = fs[k].modules[m].name.clone();
                }
            }
            s
        },
        Edit::EditModule { feature, module } => {
            let mut s = blank_seed();
            if let Some(k) = find_feature_in(fs, feature.as_str()) {
                if let Some(m) = find_module_in(&fs[k], module.as_str()) {
                    s.text = fs[k].modules[m].description.clone();
                    s.owns = crate::text::join(&fs[k].modules[m].owns, "\n");
                }
            }
            s
        },
        Edit::EditRoadmapItem { item } => {
            let mut s = blank_seed();
            if let Some(i) = cur.roadmap.item(item.as_str()) {
                s.name = i.name.clone();
                s.text = i.intent.clone();
                s.owns = i.vision.clone();
                s.tags = i.horizon.clone();
            }
            s.hard = Some(false);
            s
        },
        Edit::AddRoadmapDependency { .. } => {
            let mut s = blank_seed();
            s.hard = Some(false);
            s
        },
        Edit::BindFeature { feature } => {
            let mut s = blank_seed();
            let mut pick: Vec<String> = Vec::new();
            if let Some(k) = find_feature_in(fs, feature.as_str()) {
                if let Some(e) = &fs[k].roadmap_item {
                    pick.push(e.item_id.clone());
                }
            }
            proof {
                if pick@.len() == 1 {
                    assert(pick.deep_view() =~= seq![pick@[0]@]);
                } else {
                    assert(pick.deep_view() =~= Seq::<Seq<char>>::empty());
                }
            }
            s.pick = Some(pick);
            s
        },
        Edit::EditWant { want } => {
            let mut s = blank_seed();
            if let Some(w) = crate::cache::want_by_id(cur, want.as_str()) {
                s.text = w.body.clone();
                s.tags = hashed(&w.tags);
            }
            s
        },
        Edit::DescribeAttachment { attachment, .. } => {
            let mut s = blank_seed();
            if let Some(a) = crate::cache::attachment_by_id(cur, attachment.as_str()) {
                s.text = a.description;
            }
            s
        },
        Edit::EditComment { comment, .. } => {
            let mut s = blank_seed();
            if let Some(c) = crate::cache::comment_by_id(cur, comment.as_str()) {
                s.text = c.body;
            }
            s
        },
        _ => blank_seed(),
    };
    Choice { seed, open: edit.is_modal() }
}

// ---------------------------------------------------------------------
// Lookups the forms read
// ---------------------------------------------------------------------

/// The feature with this id, among those on screen.
pub fn with_feature<'a>(features: &'a [Feature], feature: &str) -> (r: Option<&'a Feature>)
    ensures
        match feature_by_id(features@, feature@) {
            Some(f) => r matches Some(x) && *x == f,
            None => r is None,
        },
{
    match find_feature_in(features, feature) {
        Some(k) => Some(&features[k]),
        None => None,
    }
}

/// A feature's module, by ids.
pub fn with_module<'a>(features: &'a [Feature], feature: &str, module: &str) -> (r: Option<&'a crate::model::Module>)
    ensures
        match module_by_ids(features@, feature@, module@) {
            Some(m) => r matches Some(x) && *x == m,
            None => r is None,
        },
{
    match find_feature_in(features, feature) {
        Some(k) => match find_module_in(&features[k], module) {
            Some(m) => Some(&features[k].modules[m]),
            None => None,
        },
        None => None,
    }
}

/// A feature's name, for a confirm sentence; empty when it is not on
/// screen.
pub fn feature_name(features: &[Feature], feature: &str) -> (r: String)
    ensures
        r@ == match feature_by_id(features@, feature@) {
            Some(f) => f.name@,
            None => Seq::empty(),
        },
{
    match with_feature(features, feature) {
        Some(f) => f.name.clone(),
        None => String::new(),
    }
}

/// A roadmap item's name; empty when it is not on the roadmap read.
pub fn road_name(cur: &Current, item: &str) -> (r: String)
    ensures
        r@ == match item_by_id(cur.roadmap.items@, item@) {
            Some(i) => i.name@,
            None => Seq::empty(),
        },
{
    match cur.roadmap.item(item) {
        Some(i) => i.name.clone(),
        None => String::new(),
    }
}

/// The verbs a roadmap item offers: edit and add a prerequisite; ship
/// while it is neither shipped nor shelved — the store says no, in its
/// own words, when the features below it are not out; shelve or
/// unshelve; remove, last. Nothing for an item not on the roadmap read.
pub open spec fn item_menu(items: Seq<crate::model::RoadItem>, id: Seq<char>, es: Seq<MenuEntry>) -> bool {
    match item_by_id(items, id) {
        None => es.len() == 0,
        Some(i) => {
            let ship = i.state != crate::model::RoadState::Shipped && !i.shelved;
            let n = 2 + (if ship { 1int } else { 0int });
            &&& es.len() == n + 2
            &&& entry_is(es[0], "Edit"@, false, es[0].edit matches Edit::EditRoadmapItem { item } && item@ == id)
            &&& entry_is(es[1], "Add prerequisite"@, false, es[1].edit matches Edit::AddRoadmapDependency { item } && item@ == id)
            &&& ship ==> entry_is(es[2], "Ship it"@, false, es[2].edit matches Edit::ShipRoadmapItem { item } && item@ == id)
            &&& entry_is(es[n], if i.shelved { "Unshelve"@ } else { "Shelve"@ }, false, es[n].edit matches Edit::ShelveRoadmapItem { item, shelve } && item@ == id && shelve == !i.shelved)
            &&& entry_is(es[n + 1], "Remove"@, true, es[n + 1].edit matches Edit::RemoveRoadmapItem { item } && item@ == id)
        },
    }
}

/// The verbs a roadmap item offers.
pub fn item_entries(cur: &Current, id: &str) -> (r: Vec<MenuEntry>)
    ensures
        item_menu(cur.roadmap.items@, id@, r@),
{
    let item = match cur.roadmap.item(id) {
        Some(i) => i,
        None => {
            return Vec::new();
        },
    };
    let mut entries: Vec<MenuEntry> = Vec::new();
    entries.push(MenuEntry::new("Edit", Edit::EditRoadmapItem { item: text_of(id) }));
    entries.push(MenuEntry::new("Add prerequisite", Edit::AddRoadmapDependency { item: text_of(id) }));
    if item.state != crate::model::RoadState::Shipped && !item.shelved {
        entries.push(MenuEntry::new("Ship it", Edit::ShipRoadmapItem { item: text_of(id) }));
    }
    entries.push(MenuEntry::new(
        if item.shelved { "Unshelve" } else { "Shelve" },
        Edit::ShelveRoadmapItem { item: text_of(id), shelve: !item.shelved },
    ));
    entries.push(MenuEntry::danger("Remove", Edit::RemoveRoadmapItem { item: text_of(id) }));
    entries
}

} // verus!
