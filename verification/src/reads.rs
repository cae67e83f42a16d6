//! Wire → view: how each read the server sends becomes the row the
//! screen draws. Every mapping is stated field by field.
use vstd::prelude::*;

use crate::model::{
    Attachment, AgentHealthRow, AgentRow, Comment, Document, EventItem, Module, ModuleEvent,
    Question, RoadEdge, RoadFeature, RoadItem, RoadState, Status, Task, TagRow, Want, WantSource,
    WantState, Word, dot, road_state_of,
};
use crate::text::{dec_int, push_decimal_i64, same_text, trim, trimmed};
use crate::wire::{
    AgentDto, AgentHealthDto, AnnouncementDto, AttachmentDto, CommentDto, DocumentDto, EventDto,
    ModuleDto, QuestionDto, RoadmapEdgeDto, RoadmapFeatureDto, RoadmapItemDto, SourceDto, TagDto,
    TaskDto, WantDto, WantLinkDto, opt_text,
};

verus! {

/// A count off the wire: negative reads as zero.
pub open spec fn count_of(x: i64) -> usize {
    if x > 0 {
        x as usize
    } else {
        0
    }
}

/// A count off the wire as the screen holds it.
pub fn count(x: i64) -> (r: usize)
    ensures
        r == count_of(x),
{
    if x > 0 {
        x as usize
    } else {
        0
    }
}

/// A text that may be absent, absent read as empty.
pub open spec fn text_or_empty(o: Option<String>) -> Seq<char> {
    match o {
        Some(s) => s@,
        None => Seq::<char>::empty(),
    }
}

fn take_or_empty(o: &Option<String>) -> (r: String)
    ensures
        r@ == text_or_empty(*o),
{
    match o {
        Some(s) => s.clone(),
        None => String::new(),
    }
}

// ---------------------------------------------------------------------
// Events
// ---------------------------------------------------------------------

/// The pill word and tone a ledger kind is shown with.
pub open spec fn event_display(kind: Seq<char>) -> (Seq<char>, Status) {
    if kind == "feature_planned"@ || kind == "plan_revised"@ {
        ("plan"@, Status::Planning)
    } else if kind == "module_claimed"@ {
        ("claim"@, Status::Running)
    } else if kind == "premature_claim"@ {
        ("gate"@, Status::Violation)
    } else if kind == "task_done"@ {
        ("task"@, Status::Done)
    } else if kind == "task_skipped"@ {
        ("task"@, Status::Queued)
    } else if kind == "task_added"@ {
        ("ad hoc"@, Status::Planning)
    } else if kind == "announcement"@ {
        ("says"@, Status::Running)
    } else if kind == "module_done"@ {
        ("module"@, Status::Done)
    } else if kind == "stage_unlocked"@ || kind == "module_unlocked"@ {
        ("gate"@, Status::Done)
    } else if kind == "document_written"@ {
        ("doc"@, Status::Planning)
    } else if kind == "blocker_reported"@ {
        ("blocker"@, Status::Violation)
    } else if kind == "module_released"@ {
        ("module"@, Status::Queued)
    } else if kind == "feature_done"@ {
        ("feature"@, Status::Done)
    } else if kind == "feature_deleted"@ || kind == "feature_shelved"@ {
        ("feature"@, Status::Queued)
    } else if kind == "feature_unshelved"@ {
        ("feature"@, Status::Planning)
    } else if kind == "want_deleted"@ {
        ("want"@, Status::Queued)
    } else if kind == "memory_committed"@ {
        ("memory"@, Status::Running)
    } else if kind == "wants_promoted"@ {
        ("wants"@, Status::Planning)
    } else if kind == "want_added"@ || kind == "want_updated"@ || kind == "want_reopened"@ {
        ("want"@, Status::Planning)
    } else if kind == "want_declined"@ {
        ("want"@, Status::Queued)
    } else if kind == "tag_created"@ {
        ("tag"@, Status::Planning)
    } else if kind == "key_issued"@ {
        ("key"@, Status::Planning)
    } else if kind == "key_revoked"@ {
        ("key"@, Status::Queued)
    } else {
        ("event"@, Status::Queued)
    }
}

/// The pill word and tone for a ledger kind.
pub fn display_of(kind: &str) -> (r: (&'static str, Status))
    ensures
        r.0@ == event_display(kind@).0,
        r.1 == event_display(kind@).1,
{
    if same_text(kind, "feature_planned") || same_text(kind, "plan_revised") {
        ("plan", Status::Planning)
    } else if same_text(kind, "module_claimed") {
        ("claim", Status::Running)
    } else if same_text(kind, "premature_claim") {
        ("gate", Status::Violation)
    } else if same_text(kind, "task_done") {
        ("task", Status::Done)
    } else if same_text(kind, "task_skipped") {
        ("task", Status::Queued)
    } else if same_text(kind, "task_added") {
        ("ad hoc", Status::Planning)
    } else if same_text(kind, "announcement") {
        ("says", Status::Running)
    } else if same_text(kind, "module_done") {
        ("module", Status::Done)
    } else if same_text(kind, "stage_unlocked") || same_text(kind, "module_unlocked") {
        ("gate", Status::Done)
    } else if same_text(kind, "document_written") {
        ("doc", Status::Planning)
    } else if same_text(kind, "blocker_reported") {
        ("blocker", Status::Violation)
    } else if same_text(kind, "module_released") {
        ("module", Status::Queued)
    } else if same_text(kind, "feature_done") {
        ("feature", Status::Done)
    } else if same_text(kind, "feature_deleted") || same_text(kind, "feature_shelved") {
        ("feature", Status::Queued)
    } else if same_text(kind, "feature_unshelved") {
        ("feature", Status::Planning)
    } else if same_text(kind, "want_deleted") {
        ("want", Status::Queued)
    } else if same_text(kind, "memory_committed") {
        ("memory", Status::Running)
    } else if same_text(kind, "wants_promoted") {
        ("wants", Status::Planning)
    } else if same_text(kind, "want_added") || same_text(kind, "want_updated") || same_text(
        kind,
        "want_reopened",
    ) {
        ("want", Status::Planning)
    } else if same_text(kind, "want_declined") {
        ("want", Status::Queued)
    } else if same_text(kind, "tag_created") {
        ("tag", Status::Planning)
    } else if same_text(kind, "key_issued") {
        ("key", Status::Planning)
    } else if same_text(kind, "key_revoked") {
        ("key", Status::Queued)
    } else {
        ("event", Status::Queued)
    }
}

/// A ledger entry as a feed row.
pub open spec fn maps_event(e: EventDto, r: EventItem) -> bool {
    &&& r.seq == e.seq
    &&& r.time@ == e.time@
    &&& r.kind@ == event_display(e.kind@).0
    &&& r.status == event_display(e.kind@).1
    &&& r.title@ == e.title@
    &&& r.body@ == e.body@
    &&& r.agent@ == text_or_empty(e.agent)
    &&& r.tool@ == e.kind@
}

/// A ledger entry as a feed row.
pub fn map_event(e: &EventDto) -> (r: EventItem)
    ensures
        maps_event(*e, r),
{
    let (kind, status) = display_of(e.kind.as_str());
    EventItem {
        seq: e.seq,
        time: e.time.clone(),
        kind: String::from_str(kind),
        status,
        title: e.title.clone(),
        body: e.body.clone(),
        agent: take_or_empty(&e.agent),
        tool: e.kind.clone(),
    }
}

/// A ledger entry as a line of a module's history: a bounced claim is
/// the server's doing, whoever tried it.
pub open spec fn maps_history(e: EventDto, r: ModuleEvent) -> bool {
    &&& r.title@ == e.title@
    &&& r.body@ == e.body@
    &&& r.at@ == e.time@
    &&& r.from@ == (if e.kind@ == "premature_claim"@ {
        "server.gate"@
    } else {
        text_or_empty(e.agent)
    })
}

/// A ledger entry as a line of a module's history.
pub fn map_history(e: &EventDto) -> (r: ModuleEvent)
    ensures
        maps_history(*e, r),
{
    ModuleEvent {
        title: e.title.clone(),
        body: e.body.clone(),
        at: e.time.clone(),
        from: if same_text(e.kind.as_str(), "premature_claim") {
            String::from_str("server.gate")
        } else {
            take_or_empty(&e.agent)
        },
    }
}

// ---------------------------------------------------------------------
// Documents, files, questions, comments
// ---------------------------------------------------------------------

pub open spec fn maps_document(d: DocumentDto, r: Document) -> bool {
    &&& r.revision == d.revision
    &&& r.title@ == d.title@
    &&& r.body@ == d.body@
    &&& r.author@ == d.author@
    &&& r.written@ == d.written@
}

pub fn map_document(d: &DocumentDto) -> (r: Document)
    ensures
        maps_document(*d, r),
{
    Document {
        revision: d.revision,
        title: d.title.clone(),
        body: d.body.clone(),
        author: d.author.clone(),
        written: d.written.clone(),
    }
}

/// An optional document, mapped when present.
pub open spec fn maps_opt_document(d: Option<DocumentDto>, r: Option<Document>) -> bool {
    match (d, r) {
        (Some(x), Some(y)) => maps_document(x, y),
        (None, None) => true,
        _ => false,
    }
}

pub fn map_opt_document(d: &Option<DocumentDto>) -> (r: Option<Document>)
    ensures
        maps_opt_document(*d, r),
{
    match d {
        Some(x) => Some(map_document(x)),
        None => None,
    }
}

pub open spec fn maps_attachment(a: AttachmentDto, r: Attachment) -> bool {
    &&& r.id@ == a.id@
    &&& r.name@ == a.name@
    &&& r.description@ == a.description@
    &&& r.content_type@ == a.content_type@
    &&& r.size@ == a.size@
    &&& r.added_by@ == a.added_by@
    &&& r.added@ == a.added@
    &&& r.via_want_id@ == a.via_want_id@
    &&& r.via_want@ == a.via_want@
    &&& r.via_module_id@ == a.via_module_id@
    &&& r.via_module@ == a.via_module@
    &&& r.comment_id@ == a.comment_id@
    &&& r.comment_author@ == a.comment_author@
    &&& r.comment_excerpt@ == a.comment_excerpt@
}

pub fn map_attachment(a: &AttachmentDto) -> (r: Attachment)
    ensures
        maps_attachment(*a, r),
{
    Attachment {
        id: a.id.clone(),
        name: a.name.clone(),
        description: a.description.clone(),
        content_type: a.content_type.clone(),
        size: a.size.clone(),
        added_by: a.added_by.clone(),
        added: a.added.clone(),
        via_want_id: a.via_want_id.clone(),
        via_want: a.via_want.clone(),
        via_module_id: a.via_module_id.clone(),
        via_module: a.via_module.clone(),
        comment_id: a.comment_id.clone(),
        comment_author: a.comment_author.clone(),
        comment_excerpt: a.comment_excerpt.clone(),
    }
}

pub open spec fn maps_question(q: QuestionDto, r: Question) -> bool {
    &&& r.id@ == q.id@
    &&& r.level@ == q.level@
    &&& r.subject_id@ == q.subject_id@
    &&& r.subject_name@ == q.subject_name@
    &&& r.feature_id@ == q.feature_id@
    &&& r.body@ == q.body@
    &&& r.author@ == q.author@
    &&& r.assigned_to@ == q.assigned_to@
    &&& r.asked@ == q.asked@
}

pub fn map_question(q: &QuestionDto) -> (r: Question)
    ensures
        maps_question(*q, r),
{
    Question {
        id: q.id.clone(),
        level: q.level.clone(),
        subject_id: q.subject_id.clone(),
        subject_name: q.subject_name.clone(),
        feature_id: q.feature_id.clone(),
        body: q.body.clone(),
        author: q.author.clone(),
        assigned_to: q.assigned_to.clone(),
        asked: q.asked.clone(),
    }
}

pub open spec fn maps_comment(c: CommentDto, r: Comment) -> bool {
    &&& r.id@ == c.id@
    &&& r.kind@ == c.kind@
    &&& r.body@ == c.body@
    &&& r.author@ == c.author@
    &&& r.assigned_to@ == c.assigned_to@
    &&& r.answers@ == c.answers@
    &&& r.resolved == c.resolved
    &&& r.resolved_by@ == c.resolved_by@
    &&& r.posted@ == c.posted@
    &&& r.edited == c.edited
    &&& maps_attachments(c.attachments@, r.attachments@)
}

pub fn map_comment(c: &CommentDto) -> (r: Comment)
    ensures
        maps_comment(*c, r),
{
    Comment {
        id: c.id.clone(),
        kind: c.kind.clone(),
        body: c.body.clone(),
        author: c.author.clone(),
        assigned_to: c.assigned_to.clone(),
        answers: c.answers.clone(),
        resolved: c.resolved,
        resolved_by: c.resolved_by.clone(),
        posted: c.posted.clone(),
        edited: c.edited,
        attachments: map_attachments(&c.attachments),
    }
}

// ---------------------------------------------------------------------
// Agents
// ---------------------------------------------------------------------

pub open spec fn maps_word(w: AnnouncementDto, r: Word) -> bool {
    &&& r.text@ == w.text@
    &&& r.by@ == w.by@
    &&& r.at@ == w.at@
    &&& r.subject@ == w.subject@
}

pub fn map_word(w: &AnnouncementDto) -> (r: Word)
    ensures
        maps_word(*w, r),
{
    Word { text: w.text.clone(), by: w.by.clone(), at: w.at.clone(), subject: w.subject.clone() }
}

pub open spec fn maps_opt_word(w: Option<AnnouncementDto>, r: Option<Word>) -> bool {
    match (w, r) {
        (Some(x), Some(y)) => maps_word(x, y),
        (None, None) => true,
        _ => false,
    }
}

pub fn map_opt_word(w: &Option<AnnouncementDto>) -> (r: Option<Word>)
    ensures
        maps_opt_word(*w, r),
{
    match w {
        Some(x) => Some(map_word(x)),
        None => None,
    }
}

/// A probe's tone and word: neutral for the two "nothing there"
/// answers, danger for a registered box that is not serving, warning
/// for the path to it.
pub open spec fn health_verdict(state: Seq<char>) -> (Status, Seq<char>) {
    if state == "up"@ {
        (Status::Done, "up"@)
    } else if state == "down"@ {
        (Status::Violation, "down"@)
    } else if state == "gone"@ {
        (Status::Queued, "gone"@)
    } else if state == "unreachable"@ {
        (Status::Planning, "unreachable"@)
    } else {
        (Status::Queued, "checking"@)
    }
}

/// `label since …` or `label · not probed yet`, then the probe's own
/// detail unless the box is up.
pub open spec fn health_line(h: AgentHealthDto) -> Seq<char> {
    let label = health_verdict(h.state@).1;
    let head = if h.since@.len() == 0 {
        label + dot() + "not probed yet"@
    } else {
        label + " since "@ + h.since@
    };
    if h.detail@.len() > 0 && h.state@ != "up"@ {
        head + dot() + h.detail@
    } else {
        head
    }
}

pub open spec fn maps_health(h: AgentHealthDto, r: AgentHealthRow) -> bool {
    &&& r.tone == health_verdict(h.state@).0
    &&& r.label@ == health_verdict(h.state@).1
    &&& r.line@ == health_line(h)
    &&& r.up == (h.state@ == "up"@)
}

pub fn map_health(h: &AgentHealthDto) -> (r: AgentHealthRow)
    ensures
        maps_health(*h, r),
{
    let (tone, label): (Status, &str) = if same_text(h.state.as_str(), "up") {
        (Status::Done, "up")
    } else if same_text(h.state.as_str(), "down") {
        (Status::Violation, "down")
    } else if same_text(h.state.as_str(), "gone") {
        (Status::Queued, "gone")
    } else if same_text(h.state.as_str(), "unreachable") {
        (Status::Planning, "unreachable")
    } else {
        (Status::Queued, "checking")
    };
    let up = same_text(h.state.as_str(), "up");
    let mut line = String::from_str(label);
    if h.since.as_str().is_empty() {
        line.append(" \u{b7} not probed yet");
        proof {
            reveal_strlit(" \u{b7} not probed yet");
            reveal_strlit(" \u{b7} ");
            reveal_strlit("not probed yet");
        }
    } else {
        line.append(" since ");
        line.append(h.since.as_str());
    }
    let ghost head = line@;
    if !h.detail.as_str().is_empty() && !up {
        line.append(" \u{b7} ");
        line.append(h.detail.as_str());
    }
    assert(line@ =~= health_line(*h));
    AgentHealthRow { tone, label: String::from_str(label), line, up }
}

pub open spec fn maps_opt_health(h: Option<AgentHealthDto>, r: Option<AgentHealthRow>) -> bool {
    match (h, r) {
        (Some(x), Some(y)) => maps_health(x, y),
        (None, None) => true,
        _ => false,
    }
}

pub open spec fn maps_agent(a: AgentDto, r: AgentRow) -> bool {
    &&& r.id@ == a.name@
    &&& r.level@ == a.role@
    &&& r.state == (if a.active_claims > 0 {
        Status::Running
    } else {
        Status::Done
    })
    &&& r.uptime@ == dec_int(a.active_claims as int) + " claim(s)"@
    &&& r.scope@ == (if a.claim_names@.len() == 0 {
        "No live claims."@
    } else {
        "Holds: "@ + a.claim_names@
    })
    &&& maps_opt_health(a.health, r.health)
    &&& r.last_seen@ == a.last_seen@
    &&& r.last_heard == a.last_heard
    &&& maps_opt_word(a.last_word, r.last_word)
}

pub fn map_agent(a: &AgentDto) -> (r: AgentRow)
    ensures
        maps_agent(*a, r),
{
    let mut uptime = String::new();
    push_decimal_i64(&mut uptime, a.active_claims);
    uptime.append(" claim(s)");
    let scope = if a.claim_names.as_str().is_empty() {
        String::from_str("No live claims.")
    } else {
        let mut s = String::from_str("Holds: ");
        s.append(a.claim_names.as_str());
        s
    };
    AgentRow {
        id: a.name.clone(),
        level: a.role.clone(),
        state: if a.active_claims > 0 {
            Status::Running
        } else {
            Status::Done
        },
        uptime,
        scope,
        health: match &a.health {
            Some(h) => Some(map_health(h)),
            None => None,
        },
        last_seen: a.last_seen.clone(),
        last_heard: a.last_heard,
        last_word: map_opt_word(&a.last_word),
    }
}

pub open spec fn maps_tag(t: TagDto, r: TagRow) -> bool {
    &&& r.name@ == t.name@
    &&& r.label@ == t.label@
    &&& r.uses == t.uses
}

pub fn map_tag(t: &TagDto) -> (r: TagRow)
    ensures
        maps_tag(*t, r),
{
    TagRow { name: t.name.clone(), label: t.label.clone(), uses: t.uses }
}

// ---------------------------------------------------------------------
// Modules
// ---------------------------------------------------------------------

/// A module's status word: anything unknown waits in the queue.
pub open spec fn module_status_of(s: Seq<char>) -> Status {
    if s == "done"@ {
        Status::Done
    } else if s == "in_progress"@ {
        Status::Running
    } else if s == "blocked"@ {
        Status::Blocked
    } else {
        Status::Queued
    }
}

pub fn module_status(s: &str) -> (r: Status)
    ensures
        r == module_status_of(s@),
{
    if same_text(s, "done") {
        Status::Done
    } else if same_text(s, "in_progress") {
        Status::Running
    } else if same_text(s, "blocked") {
        Status::Blocked
    } else {
        Status::Queued
    }
}

/// The agent slot: the holder, or — while nobody holds it — whether it
/// could be claimed, which is what a reader wants from an unclaimed
/// card.
pub open spec fn agent_slot(m: ModuleDto) -> Seq<char> {
    match m.claimed_by {
        Some(a) => a@,
        None => if m.status@ == "done"@ {
            "\u{2014}"@
        } else if m.dispatchable {
            "ready"@
        } else if m.waiting_on@.len() > 0 {
            "waiting"@
        } else {
            "not spawned"@
        },
    }
}

/// A summary worth showing: present and not blank.
pub open spec fn kept_summary(s: Option<String>) -> Option<Seq<char>> {
    match s {
        Some(x) => if trimmed(x@).len() > 0 {
            Some(x@)
        } else {
            None
        },
        None => None,
    }
}

pub open spec fn maps_task(t: TaskDto, r: Task) -> bool {
    &&& r.id@ == t.id@
    &&& r.label@ == t.name@
    &&& r.done == (t.status@ == "done"@ || t.status@ == "skipped"@)
    &&& r.added == (t.origin@ == "discovered"@)
}

pub fn map_task(t: &TaskDto) -> (r: Task)
    ensures
        maps_task(*t, r),
{
    Task {
        id: t.id.clone(),
        label: t.name.clone(),
        done: same_text(t.status.as_str(), "done") || same_text(t.status.as_str(), "skipped"),
        added: same_text(t.origin.as_str(), "discovered"),
    }
}

pub open spec fn maps_module(m: ModuleDto, r: Module) -> bool {
    &&& r.id@ == m.id@
    &&& r.name@ == m.name@
    &&& r.description@ == m.description@
    &&& r.status == (if m.rejected {
        Status::Violation
    } else {
        module_status_of(m.status@)
    })
    &&& r.agent@ == agent_slot(m)
    &&& r.spawned@ == m.spawned@
    &&& r.depends_on.deep_view() == m.depends_on.deep_view()
    &&& r.waiting_on.deep_view() == m.waiting_on.deep_view()
    &&& r.owns.deep_view() == m.owns.deep_view()
    &&& r.depth == (if m.depth > 1 {
        m.depth as usize
    } else {
        1usize
    })
    &&& opt_text(r.summary) == kept_summary(m.summary)
    &&& (match r.block {
        Some(b) => m.block_title@.len() > 0 && b.0@ == m.block_title@ && b.1@ == m.block_body@,
        None => m.block_title@.len() == 0,
    })
    &&& maps_questions(m.open_questions@, r.open_questions@)
    &&& maps_opt_word(m.last_word, r.last_word)
    &&& r.last_heard == m.last_heard
    &&& maps_tasks(m.tasks@, r.tasks@)
}

fn copy_texts(v: &Vec<String>) -> (r: Vec<String>)
    ensures
        r.deep_view() == v.deep_view(),
{
    let mut out: Vec<String> = Vec::new();
    let mut i: usize = 0;
    while i < v.len()
        invariant
            i <= v.len(),
            out.deep_view() == v.deep_view().take(i as int),
        decreases v.len() - i,
    {
        let ghost before = out.deep_view();
        out.push(v[i].clone());
        assert(out.deep_view() =~= before.push(v@[i as int]@));
        assert(out.deep_view() =~= v.deep_view().take(i + 1));
        i = i + 1;
    }
    assert(v.deep_view().take(v.len() as int) =~= v.deep_view());
    out
}

/// A module's card shows the host's word for its state: a rejected
/// module is a violation, and otherwise "done" is done, "in_progress"
/// running, "blocked" blocked (the card's own word), and any other word
/// queued.
pub proof fn law_module_status_words(m: ModuleDto, r: Module)
    requires
        maps_module(m, r),
    ensures
        m.rejected ==> r.status == Status::Violation,
        !m.rejected ==> (r.status == Status::Done <==> m.status@ == "done"@),
        !m.rejected ==> (r.status == Status::Running <==> m.status@ == "in_progress"@),
        !m.rejected ==> (r.status == Status::Blocked <==> m.status@ == "blocked"@),
        !m.rejected ==> (r.status == Status::Queued <==> !(m.status@ == "done"@ || m.status@ == "in_progress"@
            || m.status@ == "blocked"@)),
        !m.rejected && m.status@ == "blocked"@ ==> crate::model::status_label(r.status) == m.status@,
{
    reveal_strlit("done");
    reveal_strlit("in_progress");
    reveal_strlit("blocked");
    assert("done"@.len() == 4 && "in_progress"@.len() == 11 && "blocked"@.len() == 7);
    assert("done"@ != "in_progress"@ && "done"@ != "blocked"@ && "in_progress"@ != "blocked"@);
}

pub fn map_module(m: &ModuleDto) -> (r: Module)
    ensures
        maps_module(*m, r),
{
    let status = if m.rejected {
        Status::Violation
    } else {
        module_status(m.status.as_str())
    };
    let block = if m.block_title.as_str().is_empty() {
        None
    } else {
        Some((m.block_title.clone(), m.block_body.clone()))
    };
    let agent = match &m.claimed_by {
        Some(a) => a.clone(),
        None => if same_text(m.status.as_str(), "done") {
            String::from_str("\u{2014}")
        } else if m.dispatchable {
            String::from_str("ready")
        } else if m.waiting_on.len() > 0 {
            String::from_str("waiting")
        } else {
            String::from_str("not spawned")
        },
    };
    let summary = match &m.summary {
        Some(s) => {
            let t = trim(s.as_str());
            if t.as_str().is_empty() {
                None
            } else {
                Some(s.clone())
            }
        },
        None => None,
    };
    Module {
        id: m.id.clone(),
        name: m.name.clone(),
        description: m.description.clone(),
        status,
        agent,
        spawned: m.spawned.clone(),
        depends_on: copy_texts(&m.depends_on),
        waiting_on: copy_texts(&m.waiting_on),
        owns: copy_texts(&m.owns),
        depth: if m.depth > 1 {
            m.depth as usize
        } else {
            1
        },
        summary,
        block,
        open_questions: map_questions(&m.open_questions),
        last_word: map_opt_word(&m.last_word),
        last_heard: m.last_heard,
        tasks: map_tasks(&m.tasks),
    }
}

// ---------------------------------------------------------------------
// Wants
// ---------------------------------------------------------------------

/// A want's state word; anything unknown is still open.
pub open spec fn want_state_of(s: Seq<char>) -> WantState {
    if s == "promoted"@ {
        WantState::Promoted
    } else if s == "declined"@ {
        WantState::Declined
    } else {
        WantState::Open
    }
}

pub open spec fn maps_link(l: WantLinkDto, r: (String, String)) -> bool {
    r.0@ == l.feature_name@ && r.1@ == l.rationale@
}

pub fn map_link(l: &WantLinkDto) -> (r: (String, String))
    ensures
        maps_link(*l, r),
{
    (l.feature_name.clone(), l.rationale.clone())
}

pub open spec fn maps_want(w: WantDto, r: Want) -> bool {
    &&& r.id@ == w.id@
    &&& r.body@ == w.body@
    &&& r.tags.deep_view() == w.tags.deep_view()
    &&& r.state == want_state_of(w.status@)
    &&& r.note@ == w.note@
    &&& r.author@ == w.author@
    &&& r.captured@ == w.captured@
    &&& maps_links(w.features@, r.features@)
    &&& maps_attachments(w.attachments@, r.attachments@)
}

pub fn map_want(w: &WantDto) -> (r: Want)
    ensures
        maps_want(*w, r),
{
    Want {
        id: w.id.clone(),
        body: w.body.clone(),
        tags: copy_texts(&w.tags),
        state: if same_text(w.status.as_str(), "promoted") {
            WantState::Promoted
        } else if same_text(w.status.as_str(), "declined") {
            WantState::Declined
        } else {
            WantState::Open
        },
        note: w.note.clone(),
        author: w.author.clone(),
        captured: w.captured.clone(),
        features: map_links(&w.features),
        attachments: map_attachments(&w.attachments),
    }
}

pub open spec fn maps_source(s: SourceDto, r: WantSource) -> bool {
    r.id@ == s.want_id@ && r.body@ == s.body@
}

pub fn map_source(s: &SourceDto) -> (r: WantSource)
    ensures
        maps_source(*s, r),
{
    WantSource { id: s.want_id.clone(), body: s.body.clone() }
}

// ---------------------------------------------------------------------
// The roadmap
// ---------------------------------------------------------------------

pub open spec fn maps_edge(e: RoadmapEdgeDto, r: RoadEdge) -> bool {
    &&& r.item_id@ == e.item_id@
    &&& r.name@ == e.name@
    &&& r.hard == e.hard
    &&& r.shipped == e.shipped
}

pub fn map_edge(e: &RoadmapEdgeDto) -> (r: RoadEdge)
    ensures
        maps_edge(*e, r),
{
    RoadEdge { item_id: e.item_id.clone(), name: e.name.clone(), hard: e.hard, shipped: e.shipped }
}

pub open spec fn maps_opt_edge(e: Option<RoadmapEdgeDto>, r: Option<RoadEdge>) -> bool {
    match (e, r) {
        (Some(x), Some(y)) => maps_edge(x, y),
        (None, None) => true,
        _ => false,
    }
}

pub fn map_opt_edge(e: &Option<RoadmapEdgeDto>) -> (r: Option<RoadEdge>)
    ensures
        maps_opt_edge(*e, r),
{
    match e {
        Some(x) => Some(map_edge(x)),
        None => None,
    }
}

pub open spec fn maps_road_feature(f: RoadmapFeatureDto, r: RoadFeature) -> bool {
    &&& r.id@ == f.id@
    &&& r.name@ == f.name@
    &&& r.status@ == f.status@
    &&& r.released == f.released
    &&& r.modules_done == count_of(f.modules_done)
    &&& r.modules_total == count_of(f.modules_total)
}

pub fn map_road_feature(f: &RoadmapFeatureDto) -> (r: RoadFeature)
    ensures
        maps_road_feature(*f, r),
{
    RoadFeature {
        id: f.id.clone(),
        name: f.name.clone(),
        status: f.status.clone(),
        released: f.released,
        modules_done: count(f.modules_done),
        modules_total: count(f.modules_total),
    }
}

pub open spec fn maps_road_item(i: RoadmapItemDto, r: RoadItem) -> bool {
    &&& r.id@ == i.id@
    &&& r.name@ == i.name@
    &&& r.intent@ == i.intent@
    &&& r.vision@ == i.vision@
    &&& r.horizon@ == i.horizon@
    &&& r.state == road_state_of(i.state@)
    &&& r.shipped_at@ == i.shipped_at@
    &&& r.shipped_by@ == i.shipped_by@
    &&& r.shelved == i.shelved
    &&& r.depth == i.depth
    &&& maps_edges(i.depends_on@, r.depends_on@)
    &&& maps_edges(i.unlocks@, r.unlocks@)
    &&& maps_road_features(i.features@, r.features@)
}

pub fn map_road_item(i: &RoadmapItemDto) -> (r: RoadItem)
    ensures
        maps_road_item(*i, r),
{
    RoadItem {
        id: i.id.clone(),
        name: i.name.clone(),
        intent: i.intent.clone(),
        vision: i.vision.clone(),
        horizon: i.horizon.clone(),
        state: RoadState::parse(i.state.as_str()),
        shipped_at: i.shipped_at.clone(),
        shipped_by: i.shipped_by.clone(),
        shelved: i.shelved,
        depth: i.depth,
        depends_on: map_edges(&i.depends_on),
        unlocks: map_edges(&i.unlocks),
        features: map_road_features(&i.features),
    }
}

// ---------------------------------------------------------------------
// Lists
// ---------------------------------------------------------------------

/// Each read mapped, in order.
pub open spec fn maps_questions(a: Seq<QuestionDto>, b: Seq<Question>) -> bool {
    &&& a.len() == b.len()
    &&& forall|i: int| 0 <= i < a.len() ==> #[trigger] maps_question(a[i], b[i])
}

/// Maps every read in the list.
pub fn map_questions(v: &Vec<QuestionDto>) -> (r: Vec<Question>)
    ensures
        maps_questions(v@, r@),
{
    let mut out: Vec<Question> = Vec::new();
    let mut i: usize = 0;
    while i < v.len()
        invariant
            i <= v.len(),
            out@.len() == i,
            forall|j: int| 0 <= j < i ==> #[trigger] maps_question(v@[j], out@[j]),
        decreases v.len() - i,
    {
        let x = map_question(&v[i]);
        out.push(x);
        i = i + 1;
    }
    out
}

/// Each read mapped, in order.
pub open spec fn maps_attachments(a: Seq<AttachmentDto>, b: Seq<Attachment>) -> bool {
    &&& a.len() == b.len()
    &&& forall|i: int| 0 <= i < a.len() ==> #[trigger] maps_attachment(a[i], b[i])
}

/// Maps every read in the list.
pub fn map_attachments(v: &Vec<AttachmentDto>) -> (r: Vec<Attachment>)
    ensures
        maps_attachments(v@, r@),
{
    let mut out: Vec<Attachment> = Vec::new();
    let mut i: usize = 0;
    while i < v.len()
        invariant
            i <= v.len(),
            out@.len() == i,
            forall|j: int| 0 <= j < i ==> #[trigger] maps_attachment(v@[j], out@[j]),
        decreases v.len() - i,
    {
        let x = map_attachment(&v[i]);
        out.push(x);
        i = i + 1;
    }
    out
}

/// Each read mapped, in order.
pub open spec fn maps_tasks(a: Seq<TaskDto>, b: Seq<Task>) -> bool {
    &&& a.len() == b.len()
    &&& forall|i: int| 0 <= i < a.len() ==> #[trigger] maps_task(a[i], b[i])
}

/// Maps every read in the list.
pub fn map_tasks(v: &Vec<TaskDto>) -> (r: Vec<Task>)
    ensures
        maps_tasks(v@, r@),
{
    let mut out: Vec<Task> = Vec::new();
    let mut i: usize = 0;
    while i < v.len()
        invariant
            i <= v.len(),
            out@.len() == i,
            forall|j: int| 0 <= j < i ==> #[trigger] maps_task(v@[j], out@[j]),
        decreases v.len() - i,
    {
        let x = map_task(&v[i]);
        out.push(x);
        i = i + 1;
    }
    out
}

/// Each read mapped, in order.
pub open spec fn maps_edges(a: Seq<RoadmapEdgeDto>, b: Seq<RoadEdge>) -> bool {
    &&& a.len() == b.len()
    &&& forall|i: int| 0 <= i < a.len() ==> #[trigger] maps_edge(a[i], b[i])
}

/// Maps every read in the list.
pub fn map_edges(v: &Vec<RoadmapEdgeDto>) -> (r: Vec<RoadEdge>)
    ensures
        maps_edges(v@, r@),
{
    let mut out: Vec<RoadEdge> = Vec::new();
    let mut i: usize = 0;
    while i < v.len()
        invariant
            i <= v.len(),
            out@.len() == i,
            forall|j: int| 0 <= j < i ==> #[trigger] maps_edge(v@[j], out@[j]),
        decreases v.len() - i,
    {
        let x = map_edge(&v[i]);
        out.push(x);
        i = i + 1;
    }
    out
}

/// Each read mapped, in order.
pub open spec fn maps_road_features(a: Seq<RoadmapFeatureDto>, b: Seq<RoadFeature>) -> bool {
    &&& a.len() == b.len()
    &&& forall|i: int| 0 <= i < a.len() ==> #[trigger] maps_road_feature(a[i], b[i])
}

/// Maps every read in the list.
pub fn map_road_features(v: &Vec<RoadmapFeatureDto>) -> (r: Vec<RoadFeature>)
    ensures
        maps_road_features(v@, r@),
{
    let mut out: Vec<RoadFeature> = Vec::new();
    let mut i: usize = 0;
    while i < v.len()
        invariant
            i <= v.len(),
            out@.len() == i,
            forall|j: int| 0 <= j < i ==> #[trigger] maps_road_feature(v@[j], out@[j]),
        decreases v.len() - i,
    {
        let x = map_road_feature(&v[i]);
        out.push(x);
        i = i + 1;
    }
    out
}

/// Each read mapped, in order.
pub open spec fn maps_events(a: Seq<EventDto>, b: Seq<EventItem>) -> bool {
    &&& a.len() == b.len()
    &&& forall|i: int| 0 <= i < a.len() ==> #[trigger] maps_event(a[i], b[i])
}

/// Maps every read in the list.
pub fn map_events(v: &Vec<EventDto>) -> (r: Vec<EventItem>)
    ensures
        maps_events(v@, r@),
{
    let mut out: Vec<EventItem> = Vec::new();
    let mut i: usize = 0;
    while i < v.len()
        invariant
            i <= v.len(),
            out@.len() == i,
            forall|j: int| 0 <= j < i ==> #[trigger] maps_event(v@[j], out@[j]),
        decreases v.len() - i,
    {
        let x = map_event(&v[i]);
        out.push(x);
        i = i + 1;
    }
    out
}

/// Each read mapped, in order.
pub open spec fn maps_agents(a: Seq<AgentDto>, b: Seq<AgentRow>) -> bool {
    &&& a.len() == b.len()
    &&& forall|i: int| 0 <= i < a.len() ==> #[trigger] maps_agent(a[i], b[i])
}

/// Maps every read in the list.
pub fn map_agents(v: &Vec<AgentDto>) -> (r: Vec<AgentRow>)
    ensures
        maps_agents(v@, r@),
{
    let mut out: Vec<AgentRow> = Vec::new();
    let mut i: usize = 0;
    while i < v.len()
        invariant
            i <= v.len(),
            out@.len() == i,
            forall|j: int| 0 <= j < i ==> #[trigger] maps_agent(v@[j], out@[j]),
        decreases v.len() - i,
    {
        let x = map_agent(&v[i]);
        out.push(x);
        i = i + 1;
    }
    out
}

/// Each read mapped, in order.
pub open spec fn maps_tags(a: Seq<TagDto>, b: Seq<TagRow>) -> bool {
    &&& a.len() == b.len()
    &&& forall|i: int| 0 <= i < a.len() ==> #[trigger] maps_tag(a[i], b[i])
}

/// Maps every read in the list.
pub fn map_tags(v: &Vec<TagDto>) -> (r: Vec<TagRow>)
    ensures
        maps_tags(v@, r@),
{
    let mut out: Vec<TagRow> = Vec::new();
    let mut i: usize = 0;
    while i < v.len()
        invariant
            i <= v.len(),
            out@.len() == i,
            forall|j: int| 0 <= j < i ==> #[trigger] maps_tag(v@[j], out@[j]),
        decreases v.len() - i,
    {
        let x = map_tag(&v[i]);
        out.push(x);
        i = i + 1;
    }
    out
}

/// Each read mapped, in order.
pub open spec fn maps_comments(a: Seq<CommentDto>, b: Seq<Comment>) -> bool {
    &&& a.len() == b.len()
    &&& forall|i: int| 0 <= i < a.len() ==> #[trigger] maps_comment(a[i], b[i])
}

/// Maps every read in the list.
pub fn map_comments(v: &Vec<CommentDto>) -> (r: Vec<Comment>)
    ensures
        maps_comments(v@, r@),
{
    let mut out: Vec<Comment> = Vec::new();
    let mut i: usize = 0;
    while i < v.len()
        invariant
            i <= v.len(),
            out@.len() == i,
            forall|j: int| 0 <= j < i ==> #[trigger] maps_comment(v@[j], out@[j]),
        decreases v.len() - i,
    {
        let x = map_comment(&v[i]);
        out.push(x);
        i = i + 1;
    }
    out
}

/// Each read mapped, in order.
pub open spec fn maps_wants(a: Seq<WantDto>, b: Seq<Want>) -> bool {
    &&& a.len() == b.len()
    &&& forall|i: int| 0 <= i < a.len() ==> #[trigger] maps_want(a[i], b[i])
}

/// Maps every read in the list.
pub fn map_wants(v: &Vec<WantDto>) -> (r: Vec<Want>)
    ensures
        maps_wants(v@, r@),
{
    let mut out: Vec<Want> = Vec::new();
    let mut i: usize = 0;
    while i < v.len()
        invariant
            i <= v.len(),
            out@.len() == i,
            forall|j: int| 0 <= j < i ==> #[trigger] maps_want(v@[j], out@[j]),
        decreases v.len() - i,
    {
        let x = map_want(&v[i]);
        out.push(x);
        i = i + 1;
    }
    out
}

/// Each read mapped, in order.
pub open spec fn maps_links(a: Seq<WantLinkDto>, b: Seq<(String, String)>) -> bool {
    &&& a.len() == b.len()
    &&& forall|i: int| 0 <= i < a.len() ==> #[trigger] maps_link(a[i], b[i])
}

/// Maps every read in the list.
pub fn map_links(v: &Vec<WantLinkDto>) -> (r: Vec<(String, String)>)
    ensures
        maps_links(v@, r@),
{
    let mut out: Vec<(String, String)> = Vec::new();
    let mut i: usize = 0;
    while i < v.len()
        invariant
            i <= v.len(),
            out@.len() == i,
            forall|j: int| 0 <= j < i ==> #[trigger] maps_link(v@[j], out@[j]),
        decreases v.len() - i,
    {
        let x = map_link(&v[i]);
        out.push(x);
        i = i + 1;
    }
    out
}

/// Each read mapped, in order.
pub open spec fn maps_modules(a: Seq<ModuleDto>, b: Seq<Module>) -> bool {
    &&& a.len() == b.len()
    &&& forall|i: int| 0 <= i < a.len() ==> #[trigger] maps_module(a[i], b[i])
}

/// Maps every read in the list.
pub fn map_modules(v: &Vec<ModuleDto>) -> (r: Vec<Module>)
    ensures
        maps_modules(v@, r@),
{
    let mut out: Vec<Module> = Vec::new();
    let mut i: usize = 0;
    while i < v.len()
        invariant
            i <= v.len(),
            out@.len() == i,
            forall|j: int| 0 <= j < i ==> #[trigger] maps_module(v@[j], out@[j]),
        decreases v.len() - i,
    {
        let x = map_module(&v[i]);
        out.push(x);
        i = i + 1;
    }
    out
}

/// Each read mapped, in order.
pub open spec fn maps_sources(a: Seq<SourceDto>, b: Seq<WantSource>) -> bool {
    &&& a.len() == b.len()
    &&& forall|i: int| 0 <= i < a.len() ==> #[trigger] maps_source(a[i], b[i])
}

/// Maps every read in the list.
pub fn map_sources(v: &Vec<SourceDto>) -> (r: Vec<WantSource>)
    ensures
        maps_sources(v@, r@),
{
    let mut out: Vec<WantSource> = Vec::new();
    let mut i: usize = 0;
    while i < v.len()
        invariant
            i <= v.len(),
            out@.len() == i,
            forall|j: int| 0 <= j < i ==> #[trigger] maps_source(v@[j], out@[j]),
        decreases v.len() - i,
    {
        let x = map_source(&v[i]);
        out.push(x);
        i = i + 1;
    }
    out
}

/// Each read mapped, in order.
pub open spec fn maps_histories(a: Seq<EventDto>, b: Seq<ModuleEvent>) -> bool {
    &&& a.len() == b.len()
    &&& forall|i: int| 0 <= i < a.len() ==> #[trigger] maps_history(a[i], b[i])
}

/// Maps every read in the list.
pub fn map_histories(v: &Vec<EventDto>) -> (r: Vec<ModuleEvent>)
    ensures
        maps_histories(v@, r@),
{
    let mut out: Vec<ModuleEvent> = Vec::new();
    let mut i: usize = 0;
    while i < v.len()
        invariant
            i <= v.len(),
            out@.len() == i,
            forall|j: int| 0 <= j < i ==> #[trigger] maps_history(v@[j], out@[j]),
        decreases v.len() - i,
    {
        let x = map_history(&v[i]);
        out.push(x);
        i = i + 1;
    }
    out
}

/// Each read mapped, in order.
pub open spec fn maps_road_items(a: Seq<RoadmapItemDto>, b: Seq<RoadItem>) -> bool {
    &&& a.len() == b.len()
    &&& forall|i: int| 0 <= i < a.len() ==> #[trigger] maps_road_item(a[i], b[i])
}

/// Maps every read in the list.
pub fn map_road_items(v: &Vec<RoadmapItemDto>) -> (r: Vec<RoadItem>)
    ensures
        maps_road_items(v@, r@),
{
    let mut out: Vec<RoadItem> = Vec::new();
    let mut i: usize = 0;
    while i < v.len()
        invariant
            i <= v.len(),
            out@.len() == i,
            forall|j: int| 0 <= j < i ==> #[trigger] maps_road_item(v@[j], out@[j]),
        decreases v.len() - i,
    {
        let x = map_road_item(&v[i]);
        out.push(x);
        i = i + 1;
    }
    out
}

} // verus!
