//! The view-model's rows: features, modules, events, agents, wants and
//! the roadmap, as the screen draws them, and the rollups read off them.
use std::rc::Rc;
use vstd::prelude::*;

use crate::seqs::{count, first_where, is_first, lemma_count_le, lemma_count_step, lemma_first_found, lemma_none_found, lemma_positions_step, positions};
use crate::text::{contains, dec, dec_int, has_sub, lowered, push_char, push_decimal, push_decimal_i64, same_text, to_lowercase, trim, trimmed};

verus! {

// ---------------------------------------------------------------------
// Status
// ---------------------------------------------------------------------

/// Execution status shared by features, modules, events, and agents.
/// `Violation` is a display state: a module whose claim bounced off the
/// gate because a prerequisite was still open.
#[derive(Clone, Copy, PartialEq, Eq, Structural, Debug, Default)]
pub enum Status {
    Done,
    Running,
    Blocked,
    Violation,
    #[default]
    Queued,
    Planning,
}

/// The word a status is shown as.
pub open spec fn status_label(s: Status) -> Seq<char> {
    match s {
        Status::Done => "complete"@,
        Status::Running => "running"@,
        Status::Blocked => "blocked"@,
        Status::Violation => "rejected"@,
        Status::Queued => "queued"@,
        Status::Planning => "planning"@,
    }
}

impl Status {
    pub fn label(self) -> (r: &'static str)
        ensures
            r@ == status_label(self),
    {
        match self {
            Status::Done => "complete",
            Status::Running => "running",
            Status::Blocked => "blocked",
            Status::Violation => "rejected",
            Status::Queued => "queued",
            Status::Planning => "planning",
        }
    }
}

// ---------------------------------------------------------------------
// Small rows
// ---------------------------------------------------------------------

#[derive(Debug, PartialEq, Eq, Default)]
pub struct Task {
    pub id: String,
    pub label: String,
    pub done: bool,
    pub added: bool,
}

impl Clone for Task {
    fn clone(&self) -> (r: Self)
        ensures
            r == *self,
    {
        Task { id: self.id.clone(), label: self.label.clone(), done: self.done, added: self.added }
    }
}

/// One ledger entry that touched a module, as the drawer's history
/// shows it.
#[derive(Debug, PartialEq, Eq, Default)]
pub struct ModuleEvent {
    pub title: String,
    pub body: String,
    pub at: String,
    pub from: String,
}

impl Clone for ModuleEvent {
    fn clone(&self) -> (r: Self)
        ensures
            r == *self,
    {
        ModuleEvent {
            title: self.title.clone(),
            body: self.body.clone(),
            at: self.at.clone(),
            from: self.from.clone(),
        }
    }
}

/// The current revision of a document: a feature's whitepaper or a
/// module's handoff. Markdown in `body`.
#[derive(Debug, PartialEq, Eq, Default)]
pub struct Document {
    pub revision: i32,
    pub title: String,
    pub body: String,
    pub author: String,
    pub written: String,
}

impl Clone for Document {
    fn clone(&self) -> (r: Self)
        ensures
            r == *self,
    {
        Document {
            revision: self.revision,
            title: self.title.clone(),
            body: self.body.clone(),
            author: self.author.clone(),
            written: self.written.clone(),
        }
    }
}

/// The middle dot that separates the facts on a muted line.
pub open spec fn dot() -> Seq<char> {
    " \u{b7} "@
}

/// `rev N · author · written`.
pub open spec fn document_meta(d: Document) -> Seq<char> {
    "rev "@ + dec_int(d.revision as int) + dot() + d.author@ + dot() + d.written@
}

impl Document {
    /// The muted provenance line under a rendered document.
    pub fn meta(&self) -> (r: String)
        ensures
            r@ == document_meta(*self),
    {
        let mut out = String::from_str("rev ");
        push_decimal_i64(&mut out, self.revision as i64);
        out.append(" \u{b7} ");
        out.append(self.author.as_str());
        out.append(" \u{b7} ");
        out.append(self.written.as_str());
        proof {
            reveal_strlit("rev ");
        }
        assert(out@ =~= document_meta(*self));
        out
    }
}

/// One file attached to a feature or a want.
#[derive(Debug, PartialEq, Eq, Default)]
pub struct Attachment {
    pub id: String,
    pub name: String,
    pub description: String,
    pub content_type: String,
    /// "12.4 KB", formatted by the server.
    pub size: String,
    pub added_by: String,
    pub added: String,
    /// On a feature's list: the idea a file came in through, in its
    /// own words. Empty for the feature's own files.
    pub via_want_id: String,
    pub via_want: String,
    /// On a feature's list: the module the file is attached to.
    pub via_module_id: String,
    pub via_module: String,
    /// The comment it arrived with, when it did.
    pub comment_id: String,
    pub comment_author: String,
    pub comment_excerpt: String,
}

impl Clone for Attachment {
    fn clone(&self) -> (r: Self)
        ensures
            r == *self,
    {
        Attachment {
            id: self.id.clone(),
            name: self.name.clone(),
            description: self.description.clone(),
            content_type: self.content_type.clone(),
            size: self.size.clone(),
            added_by: self.added_by.clone(),
            added: self.added.clone(),
            via_want_id: self.via_want_id.clone(),
            via_want: self.via_want.clone(),
            via_module_id: self.via_module_id.clone(),
            via_module: self.via_module.clone(),
            comment_id: self.comment_id.clone(),
            comment_author: self.comment_author.clone(),
            comment_excerpt: self.comment_excerpt.clone(),
        }
    }
}

/// Whether a content type is worth naming on the muted line: the
/// generic byte stream says nothing.
pub open spec fn names_type(content_type: Seq<char>) -> bool {
    content_type.len() > 0 && content_type != "application/octet-stream"@
}

/// size · type · who · when, the type only when it says something.
pub open spec fn attachment_meta(a: Attachment) -> Seq<char> {
    if names_type(a.content_type@) {
        a.size@ + dot() + a.content_type@ + dot() + a.added_by@ + dot() + a.added@
    } else {
        a.size@ + dot() + a.added_by@ + dot() + a.added@
    }
}

impl Attachment {
    /// The muted line under a file name: size, type, who, when.
    pub fn meta(&self) -> (r: String)
        ensures
            r@ == attachment_meta(*self),
    {
        let mut out = self.size.clone();
        if !self.content_type.as_str().is_empty() && !same_text(
            self.content_type.as_str(),
            "application/octet-stream",
        ) {
            out.append(" \u{b7} ");
            out.append(self.content_type.as_str());
        }
        out.append(" \u{b7} ");
        out.append(self.added_by.as_str());
        out.append(" \u{b7} ");
        out.append(self.added.as_str());
        assert(out@ =~= attachment_meta(*self));
        out
    }
}

/// An open question, wherever it sits.
#[derive(Debug, PartialEq, Eq, Default)]
pub struct Question {
    pub id: String,
    /// feature | want | module
    pub level: String,
    pub subject_id: String,
    pub subject_name: String,
    pub feature_id: String,
    pub body: String,
    pub author: String,
    /// Empty for anyone.
    pub assigned_to: String,
    pub asked: String,
}

impl Clone for Question {
    fn clone(&self) -> (r: Self)
        ensures
            r == *self,
    {
        Question {
            id: self.id.clone(),
            level: self.level.clone(),
            subject_id: self.subject_id.clone(),
            subject_name: self.subject_name.clone(),
            feature_id: self.feature_id.clone(),
            body: self.body.clone(),
            author: self.author.clone(),
            assigned_to: self.assigned_to.clone(),
            asked: self.asked.clone(),
        }
    }
}

/// One comment in a discussion.
#[derive(Debug, PartialEq, Eq, Default)]
pub struct Comment {
    pub id: String,
    /// note | question | answer
    pub kind: String,
    pub body: String,
    pub author: String,
    pub assigned_to: String,
    pub answers: String,
    pub resolved: bool,
    pub resolved_by: String,
    pub posted: String,
    pub edited: bool,
    pub attachments: Vec<Attachment>,
}

/// Two comments that say the same thing: every field, the files by
/// their sequence.
pub open spec fn same_comment(a: Comment, b: Comment) -> bool {
    &&& a.id == b.id
    &&& a.kind == b.kind
    &&& a.body == b.body
    &&& a.author == b.author
    &&& a.assigned_to == b.assigned_to
    &&& a.answers == b.answers
    &&& a.resolved == b.resolved
    &&& a.resolved_by == b.resolved_by
    &&& a.posted == b.posted
    &&& a.edited == b.edited
    &&& a.attachments@ == b.attachments@
}

/// A copy of a list of attachments.
pub fn copy_attachments(v: &Vec<Attachment>) -> (r: Vec<Attachment>)
    ensures
        r@ == v@,
{
    let mut out: Vec<Attachment> = Vec::new();
    let mut i: usize = 0;
    while i < v.len()
        invariant
            i <= v.len(),
            out@ == v@.take(i as int),
        decreases v.len() - i,
    {
        out.push(v[i].clone());
        assert(out@ =~= v@.take(i + 1));
        i = i + 1;
    }
    assert(v@.take(v.len() as int) =~= v@);
    out
}

impl Clone for Comment {
    fn clone(&self) -> (r: Self)
        ensures
            same_comment(r, *self),
    {
        Comment {
            id: self.id.clone(),
            kind: self.kind.clone(),
            body: self.body.clone(),
            author: self.author.clone(),
            assigned_to: self.assigned_to.clone(),
            answers: self.answers.clone(),
            resolved: self.resolved,
            resolved_by: self.resolved_by.clone(),
            posted: self.posted.clone(),
            edited: self.edited,
            attachments: copy_attachments(&self.attachments),
        }
    }
}

/// What an agent last said it was doing, as a card or a roster line
/// shows it: the words, who, and when.
#[derive(Debug, PartialEq, Eq, Default)]
pub struct Word {
    pub text: String,
    pub by: String,
    pub at: String,
    /// The module or feature it was said on, by name.
    pub subject: String,
}

impl Clone for Word {
    fn clone(&self) -> (r: Self)
        ensures
            r == *self,
    {
        Word {
            text: self.text.clone(),
            by: self.by.clone(),
            at: self.at.clone(),
            subject: self.subject.clone(),
        }
    }
}

/// `“text” · by · at`.
pub open spec fn word_line(w: Word) -> Seq<char> {
    seq!['\u{201c}'] + w.text@ + seq!['\u{201d}'] + dot() + w.by@ + dot() + w.at@
}

impl Word {
    /// `"text" · by · at`, the whole fact on one line.
    pub fn line(&self) -> (r: String)
        ensures
            r@ == word_line(*self),
    {
        let mut out = String::new();
        push_char(&mut out, '\u{201c}');
        out.append(self.text.as_str());
        push_char(&mut out, '\u{201d}');
        out.append(" \u{b7} ");
        out.append(self.by.as_str());
        out.append(" \u{b7} ");
        out.append(self.at.as_str());
        assert(out@ =~= word_line(*self));
        out
    }
}

// ---------------------------------------------------------------------
// Liveness
// ---------------------------------------------------------------------

/// How recently an agent must have written for a thing to be drawn as
/// MOVING rather than merely held. Twenty minutes: a build or an e2e
/// run fits inside it; a quota-parked box does not.
pub const LIVE_WINDOW_SECS: i64 = 20 * 60;

/// A reading inside the live window.
pub open spec fn in_window(quiet: int) -> bool {
    0 <= quiet < LIVE_WINDOW_SECS
}

/// `true` when a reading exists and is inside [`LIVE_WINDOW_SECS`].
pub fn within_live_window(quiet_secs: i64) -> (r: bool)
    ensures
        r == in_window(quiet_secs as int),
{
    0 <= quiet_secs && quiet_secs < LIVE_WINDOW_SECS
}

/// Whether `now - stamp` can be taken in 64 bits.
pub open spec fn measurable(last_heard: Option<i64>, now: i64) -> bool {
    match last_heard {
        Some(t) => i64::MIN <= now - t <= i64::MAX,
        None => true,
    }
}

/// Seconds since the stamp, never negative; -1 for no stamp.
pub open spec fn quiet(last_heard: Option<i64>, now: i64) -> int {
    match last_heard {
        Some(t) => if now - t > 0 { now - t } else { 0 },
        None => -1,
    }
}

/// Seconds between a stamp and `now`; -1 for no stamp. Never
/// negative: a stamp from the future reads as "just now".
pub fn quiet_secs(last_heard: Option<i64>, now: i64) -> (r: i64)
    requires
        measurable(last_heard, now),
    ensures
        r == quiet(last_heard, now),
{
    match last_heard {
        Some(t) => {
            let d = now - t;
            if d > 0 {
                d
            } else {
                0
            }
        },
        None => -1,
    }
}

/// "3m", "2h 10m", "1d 4h" for a non-negative count of seconds.
pub open spec fn quiet_text(secs: int) -> Seq<char> {
    let s = if secs > 0 { secs } else { 0 };
    let d = s / 86_400;
    let h = (s % 86_400) / 3_600;
    let m = (s % 3_600) / 60;
    if d == 0 && h == 0 {
        dec(m as nat) + "m"@
    } else if d == 0 {
        dec(h as nat) + "h "@ + dec(m as nat) + "m"@
    } else {
        dec(d as nat) + "d "@ + dec(h as nat) + "h"@
    }
}

/// A quiet label reads back the time it was made from, to the minute:
/// with `d` days, `h` hours and `m` minutes the whole minutes in the
/// seconds (`h` under a day, `m` under an hour), it is "m`m`" under an
/// hour, "h`h` m`m`" under a day, and "d`d` h`h`" beyond.
pub proof fn law_quiet_reads_back(secs: int, d: nat, h: nat, m: nat)
    requires
        h < 24,
        m < 60,
        d * 86_400 + h * 3_600 + m * 60 <= (if secs > 0 { secs } else { 0 }) < d * 86_400 + h * 3_600 + m * 60 + 60,
    ensures
        quiet_text(secs) == (if d == 0 && h == 0 {
            dec(m) + "m"@
        } else if d == 0 {
            dec(h) + "h "@ + dec(m) + "m"@
        } else {
            dec(d) + "d "@ + dec(h) + "h"@
        }),
{
    let s = if secs > 0 { secs } else { 0 };
    let x = s - (d * 86_400 + h * 3_600 + m * 60);
    assert(0 <= x < 60);
    assert(0 <= h * 3_600 + m * 60 + x < 86_400) by (nonlinear_arith)
        requires
            h < 24,
            m < 60,
            0 <= x < 60,
    ;
    vstd::arithmetic::div_mod::lemma_fundamental_div_mod_converse(s, 86_400, d as int, h * 3_600 + m * 60 + x);
    vstd::arithmetic::div_mod::lemma_fundamental_div_mod_converse(h * 3_600 + m * 60 + x, 3_600, h as int, m * 60 + x);
    assert(s == (d * 24 + h) * 3_600 + (m * 60 + x)) by (nonlinear_arith)
        requires
            s == d * 86_400 + h * 3_600 + m * 60 + x,
    ;
    vstd::arithmetic::div_mod::lemma_fundamental_div_mod_converse(s, 3_600, (d * 24 + h) as int, m * 60 + x);
    vstd::arithmetic::div_mod::lemma_fundamental_div_mod_converse(m * 60 + x, 60, m as int, x);
}

/// "3m", "2h 10m", "1d 4h" — how long something has been quiet, for
/// the card that is held but not moving.
pub fn quiet_label(secs: i64) -> (r: String)
    ensures
        r@ == quiet_text(secs as int),
{
    let s: u64 = if secs > 0 { secs as u64 } else { 0 };
    let d = s / 86_400;
    let h = (s % 86_400) / 3_600;
    let m = (s % 3_600) / 60;
    let mut out = String::new();
    if d == 0 && h == 0 {
        push_decimal(&mut out, m as u128);
        out.append("m");
    } else if d == 0 {
        push_decimal(&mut out, h as u128);
        out.append("h ");
        push_decimal(&mut out, m as u128);
        out.append("m");
    } else {
        push_decimal(&mut out, d as u128);
        out.append("d ");
        push_decimal(&mut out, h as u128);
        out.append("h");
    }
    assert(out@ =~= quiet_text(secs as int));
    out
}

// ---------------------------------------------------------------------
// Modules
// ---------------------------------------------------------------------

#[derive(Debug, PartialEq, Eq, Default)]
pub struct Module {
    pub id: String,
    pub name: String,
    pub description: String,
    pub status: Status,
    pub agent: String,
    pub spawned: String,
    /// Prerequisite module ids.
    pub depends_on: Vec<String>,
    /// The prerequisites not yet done. Empty means nothing holds it back.
    pub waiting_on: Vec<String>,
    /// Path prefixes this module writes to; empty = undeclared.
    pub owns: Vec<String>,
    /// Longest path from a root, 1-based — the graph's column.
    pub depth: usize,
    pub summary: Option<String>,
    pub block: Option<(String, String)>,
    /// Open questions on this module.
    pub open_questions: Vec<Question>,
    /// The latest thing an agent announced on this module.
    pub last_word: Option<Word>,
    /// When the holder last wrote to the ledger, as Unix seconds;
    /// `None` = no reading.
    pub last_heard: Option<i64>,
    pub tasks: Vec<Task>,
}

/// What a module's drawer adds to its card.
#[derive(Debug, PartialEq, Eq, Default)]
pub struct ModuleDetail {
    pub handoff: Option<Document>,
    /// Every ledger entry whose subject is this module, oldest first.
    pub history: Vec<ModuleEvent>,
}

/// Where a module stands against its prerequisites — the axis the graph
/// colours, separate from [`Status`].
#[derive(Clone, Copy, PartialEq, Eq, Structural, Debug)]
pub enum Readiness {
    /// Every prerequisite is done: ready to claim, or already claimed.
    Open,
    /// At least one prerequisite is still open.
    Waiting,
    /// The module itself is done.
    Done,
}

/// How a module's agent slot reads: the holder, the readiness word
/// standing in for one, or a holder that has gone quiet.
#[derive(Clone, Copy, PartialEq, Eq, Structural, Debug, Default)]
pub enum AgentTone {
    #[default]
    Plain,
    Ready,
    Waiting,
    Quiet,
}

/// How many of `tasks` are done.
pub open spec fn done_tasks(tasks: Seq<Task>) -> nat {
    tasks.filter(|t: Task| t.done).len()
}

/// Held and silent past the window: `Some(seconds quiet)`.
pub open spec fn quiet_holder(status: Status, last_heard: Option<i64>, now: i64) -> Option<int> {
    if status == Status::Running && quiet(last_heard, now) >= LIVE_WINDOW_SECS {
        Some(quiet(last_heard, now))
    } else {
        None
    }
}

/// The tone of an agent slot no holder has gone quiet in.
pub open spec fn slot_tone(agent: Seq<char>) -> AgentTone {
    if agent == "ready"@ {
        AgentTone::Ready
    } else if agent == "waiting"@ {
        AgentTone::Waiting
    } else {
        AgentTone::Plain
    }
}

impl Module {
    /// Where the module stands against its prerequisites.
    pub fn readiness(&self) -> (r: Readiness)
        ensures
            r == (if self.status == Status::Done {
                Readiness::Done
            } else if self.waiting_on@.len() == 0 {
                Readiness::Open
            } else {
                Readiness::Waiting
            }),
    {
        if self.status == Status::Done {
            Readiness::Done
        } else if self.waiting_on.len() == 0 {
            Readiness::Open
        } else {
            Readiness::Waiting
        }
    }

    /// `done/total tasks`.
    pub fn task_label(&self) -> (r: String)
        ensures
            r@ == dec(done_tasks(self.tasks@)) + "/"@ + dec(self.tasks@.len()) + " tasks"@,
    {
        let mut done: usize = 0;
        let mut i: usize = 0;
        while i < self.tasks.len()
            invariant
                i <= self.tasks.len(),
                done == done_tasks(self.tasks@.take(i as int)),
                done <= i,
            decreases self.tasks.len() - i,
        {
            proof {
                reveal(Seq::filter);
                assert(self.tasks@.take(i + 1).drop_last() =~= self.tasks@.take(i as int));
            }
            if self.tasks[i].done {
                done = done + 1;
            }
            i = i + 1;
        }
        assert(self.tasks@.take(self.tasks.len() as int) =~= self.tasks@);
        let mut out = String::new();
        push_decimal(&mut out, done as u128);
        out.append("/");
        push_decimal(&mut out, self.tasks.len() as u128);
        out.append(" tasks");
        out
    }

    /// Held AND moving: an agent has it and wrote to the ledger inside
    /// the live window, measured at `now`.
    pub fn live_at(&self, now: i64) -> (r: bool)
        requires
            measurable(self.last_heard, now),
        ensures
            r == (self.status == Status::Running && in_window(quiet(self.last_heard, now))),
    {
        self.status == Status::Running && within_live_window(quiet_secs(self.last_heard, now))
    }

    /// Held but NOT moving: the holder has been silent past the
    /// window. `None` while it is live, unclaimed, or unmeasured.
    pub fn quiet_for_at(&self, now: i64) -> (r: Option<String>)
        requires
            measurable(self.last_heard, now),
        ensures
            match quiet_holder(self.status, self.last_heard, now) {
                Some(q) => r is Some && r->0@ == quiet_text(q),
                None => r is None,
            },
    {
        let q = quiet_secs(self.last_heard, now);
        if self.status == Status::Running && q >= LIVE_WINDOW_SECS {
            Some(quiet_label(q))
        } else {
            None
        }
    }

    /// The agent slot as a card shows it — who holds the module, and
    /// for how long it has been quiet — with the tone that goes with it.
    pub fn agent_line_at(&self, now: i64) -> (r: (String, AgentTone))
        requires
            measurable(self.last_heard, now),
        ensures
            match quiet_holder(self.status, self.last_heard, now) {
                Some(q) => r.0@ == self.agent@ + dot() + "quiet "@ + quiet_text(q) && r.1
                    == AgentTone::Quiet,
                None => r.0@ == self.agent@ && r.1 == slot_tone(self.agent@),
            },
    {
        match self.quiet_for_at(now) {
            Some(q) => {
                let mut line = self.agent.clone();
                line.append(" \u{b7} quiet ");
                line.append(q.as_str());
                proof {
                    reveal_strlit(" \u{b7} quiet ");
                    reveal_strlit(" \u{b7} ");
                    reveal_strlit("quiet ");
                }
                assert(line@ =~= self.agent@ + dot() + "quiet "@ + q@);
                (line, AgentTone::Quiet)
            },
            None => {
                let tone = if same_text(self.agent.as_str(), "ready") {
                    AgentTone::Ready
                } else if same_text(self.agent.as_str(), "waiting") {
                    AgentTone::Waiting
                } else {
                    AgentTone::Plain
                };
                (self.agent.clone(), tone)
            },
        }
    }
}


// ---------------------------------------------------------------------
// Events and feeds
// ---------------------------------------------------------------------

#[derive(Debug, PartialEq, Eq, Default)]
pub struct EventItem {
    /// Ledger sequence. The only orderable key an event carries — the
    /// `time` string is a clock reading, so merging two features' feeds
    /// on it would interleave them wrong across a day boundary.
    pub seq: i64,
    pub time: String,
    pub kind: String,
    pub status: Status,
    pub title: String,
    pub body: String,
    pub agent: String,
    pub tool: String,
}

impl Clone for EventItem {
    fn clone(&self) -> (r: Self)
        ensures
            r == *self,
    {
        clone_event(self)
    }
}

/// A field-for-field copy of an event.
pub fn clone_event(e: &EventItem) -> (r: EventItem)
    ensures
        r == *e,
{
    EventItem {
        seq: e.seq,
        time: e.time.clone(),
        kind: e.kind.clone(),
        status: e.status,
        title: e.title.clone(),
        body: e.body.clone(),
        agent: e.agent.clone(),
        tool: e.tool.clone(),
    }
}

/// One feature's ledger as far as it has been read: newest first, and
/// whether the oldest row here is the oldest there is.
#[derive(Debug, PartialEq, Eq, Default)]
pub struct Feed {
    pub events: Vec<EventItem>,
    pub exhausted: bool,
}

impl Feed {
    /// The paging cursor: the oldest seq loaded, for the next older page.
    pub fn oldest(&self) -> (r: Option<i64>)
        ensures
            r == (if self.events@.len() == 0 {
                None
            } else {
                Some(self.events@.last().seq)
            }),
    {
        if self.events.len() == 0 {
            None
        } else {
            Some(self.events[self.events.len() - 1].seq)
        }
    }
}

// ---------------------------------------------------------------------
// Agents
// ---------------------------------------------------------------------

/// The server's verdict on an agent's machine, ready to draw.
#[derive(Debug, PartialEq, Eq, Default)]
pub struct AgentHealthRow {
    pub tone: Status,
    pub label: String,
    pub line: String,
    pub up: bool,
}

#[derive(Debug, PartialEq, Eq, Default)]
pub struct AgentRow {
    pub id: String,
    pub level: String,
    /// Running while it holds a claim.
    pub state: Status,
    pub uptime: String,
    pub scope: String,
    /// Whether the machine behind it is up, when a check is registered.
    pub health: Option<AgentHealthRow>,
    /// When it last registered or announced, as a stamp.
    pub last_seen: String,
    /// Its newest ledger write, as Unix seconds; `None` = never wrote.
    pub last_heard: Option<i64>,
    /// The latest thing it announced.
    pub last_word: Option<Word>,
}

/// Whether an agent's box, if checked, is up.
pub open spec fn box_up(health: Option<AgentHealthRow>) -> bool {
    match health {
        Some(h) => h.up,
        None => true,
    }
}

impl AgentRow {
    /// Spinning while it holds a claim, wrote to the ledger inside the
    /// live window, and its box — if checked — is up.
    pub fn live_at(&self, now: i64) -> (r: bool)
        requires
            measurable(self.last_heard, now),
        ensures
            r == (self.state == Status::Running && in_window(quiet(self.last_heard, now)) && box_up(
                self.health,
            )),
    {
        self.state == Status::Running && within_live_window(quiet_secs(self.last_heard, now))
            && match &self.health {
            Some(h) => h.up,
            None => true,
        }
    }

    /// "quiet 47m" once a held claim has gone silent past the window.
    pub fn quiet_at(&self, now: i64) -> (r: Option<String>)
        requires
            measurable(self.last_heard, now),
        ensures
            match quiet_holder(self.state, self.last_heard, now) {
                Some(q) => r is Some && r->0@ == "quiet "@ + quiet_text(q),
                None => r is None,
            },
    {
        let q = quiet_secs(self.last_heard, now);
        if self.state == Status::Running && q >= LIVE_WINDOW_SECS {
            let mut out = String::from_str("quiet ");
            let label = quiet_label(q);
            out.append(label.as_str());
            Some(out)
        } else {
            None
        }
    }
}

/// Agents holding a claim.
pub open spec fn holds_claim(a: AgentRow) -> bool {
    a.state == Status::Running
}

/// Agents known to be up — or, with no health check, holding a claim.
pub open spec fn counts_live(a: AgentRow) -> bool {
    match a.health {
        Some(h) => h.up,
        None => a.state == Status::Running,
    }
}

/// Agents holding a claim right now.
pub fn active_agent_count(agents: &[AgentRow]) -> (r: usize)
    ensures
        r == count(agents@, |a: AgentRow| holds_claim(a)),
{
    let mut n: usize = 0;
    let mut i: usize = 0;
    while i < agents.len()
        invariant
            i <= agents@.len(),
            n == count(agents@.take(i as int), |a: AgentRow| holds_claim(a)),
        decreases agents.len() - i,
    {
        proof {
            lemma_count_step(agents@, |a: AgentRow| holds_claim(a), i as int);
            lemma_count_le(agents@.take(i as int), |a: AgentRow| holds_claim(a));
        }
        if agents[i].state == Status::Running {
            n = n + 1;
        }
        i = i + 1;
    }
    assert(agents@.take(agents.len() as int) =~= agents@);
    n
}

/// Agents whose machine is known to be up — or, for one with no health
/// check registered, one that holds a claim.
pub fn live_agent_count(agents: &[AgentRow]) -> (r: usize)
    ensures
        r == count(agents@, |a: AgentRow| counts_live(a)),
{
    let mut n: usize = 0;
    let mut i: usize = 0;
    while i < agents.len()
        invariant
            i <= agents@.len(),
            n == count(agents@.take(i as int), |a: AgentRow| counts_live(a)),
        decreases agents.len() - i,
    {
        proof {
            lemma_count_step(agents@, |a: AgentRow| counts_live(a), i as int);
            lemma_count_le(agents@.take(i as int), |a: AgentRow| counts_live(a));
        }
        let live = match &agents[i].health {
            Some(h) => h.up,
            None => agents[i].state == Status::Running,
        };
        if live {
            n = n + 1;
        }
        i = i + 1;
    }
    assert(agents@.take(agents.len() as int) =~= agents@);
    n
}

// ---------------------------------------------------------------------
// Wants and tags
// ---------------------------------------------------------------------

#[derive(Clone, Copy, PartialEq, Eq, Structural, Debug, Default)]
pub enum WantState {
    #[default]
    Open,
    Promoted,
    Declined,
}

impl WantState {
    /// The console's shared status vocabulary, so wants pick up the same
    /// badge and dot colors as everything else.
    pub fn status(self) -> (r: Status)
        ensures
            r == (match self {
                WantState::Open => Status::Planning,
                WantState::Promoted => Status::Done,
                WantState::Declined => Status::Queued,
            }),
    {
        match self {
            WantState::Open => Status::Planning,
            WantState::Promoted => Status::Done,
            WantState::Declined => Status::Queued,
        }
    }
}

/// One idea in the pool.
#[derive(Debug, PartialEq, Eq, Default)]
pub struct Want {
    pub id: String,
    pub body: String,
    pub tags: Vec<String>,
    pub state: WantState,
    pub note: String,
    pub author: String,
    pub captured: String,
    /// `(feature name, how this want was read into it)`.
    pub features: Vec<(String, String)>,
    /// The want's files. Only the drawer's read carries them.
    pub attachments: Vec<Attachment>,
}

/// Two wants that say the same thing.
pub open spec fn same_want(a: Want, b: Want) -> bool {
    &&& a.id == b.id
    &&& a.body == b.body
    &&& a.tags@ == b.tags@
    &&& a.state == b.state
    &&& a.note == b.note
    &&& a.author == b.author
    &&& a.captured == b.captured
    &&& a.features@ == b.features@
    &&& a.attachments@ == b.attachments@
}

/// A copy of a list of strings.
pub fn copy_strings(v: &Vec<String>) -> (r: Vec<String>)
    ensures
        r@ == v@,
{
    let mut out: Vec<String> = Vec::new();
    let mut i: usize = 0;
    while i < v.len()
        invariant
            i <= v.len(),
            out@ == v@.take(i as int),
        decreases v.len() - i,
    {
        out.push(v[i].clone());
        assert(out@ =~= v@.take(i + 1));
        i = i + 1;
    }
    assert(v@.take(v.len() as int) =~= v@);
    out
}

/// A copy of a list of string pairs.
pub fn copy_pairs(v: &Vec<(String, String)>) -> (r: Vec<(String, String)>)
    ensures
        r@ == v@,
{
    let mut out: Vec<(String, String)> = Vec::new();
    let mut i: usize = 0;
    while i < v.len()
        invariant
            i <= v.len(),
            out@ == v@.take(i as int),
        decreases v.len() - i,
    {
        out.push((v[i].0.clone(), v[i].1.clone()));
        assert(out@ =~= v@.take(i + 1));
        i = i + 1;
    }
    assert(v@.take(v.len() as int) =~= v@);
    out
}

impl Clone for Want {
    fn clone(&self) -> (r: Self)
        ensures
            same_want(r, *self),
    {
        Want {
            id: self.id.clone(),
            body: self.body.clone(),
            tags: copy_strings(&self.tags),
            state: self.state,
            note: self.note.clone(),
            author: self.author.clone(),
            captured: self.captured.clone(),
            features: copy_pairs(&self.features),
            attachments: copy_attachments(&self.attachments),
        }
    }
}

/// One tag in the registry.
#[derive(Debug, PartialEq, Eq, Default)]
pub struct TagRow {
    pub name: String,
    pub label: String,
    pub uses: i64,
}

impl Clone for TagRow {
    fn clone(&self) -> (r: Self)
        ensures
            r == *self,
    {
        TagRow { name: self.name.clone(), label: self.label.clone(), uses: self.uses }
    }
}

/// One want a feature was composed from, seen from the feature.
#[derive(Debug, PartialEq, Eq, Default)]
pub struct WantSource {
    pub id: String,
    pub body: String,
}

// ---------------------------------------------------------------------
// The roadmap
// ---------------------------------------------------------------------

#[derive(Debug, PartialEq, Eq, Default)]
pub struct RoadEdge {
    pub item_id: String,
    pub name: String,
    /// A hard edge holds the WORK as well as the ship door.
    pub hard: bool,
    pub shipped: bool,
}

impl Clone for RoadEdge {
    fn clone(&self) -> (r: Self)
        ensures
            r == *self,
    {
        RoadEdge {
            item_id: self.item_id.clone(),
            name: self.name.clone(),
            hard: self.hard,
            shipped: self.shipped,
        }
    }
}

#[derive(Debug, PartialEq, Eq, Default)]
pub struct RoadFeature {
    pub id: String,
    pub name: String,
    pub status: String,
    pub released: bool,
    pub modules_done: usize,
    pub modules_total: usize,
}

/// A roadmap item's derived state. Ordered by how much it asks of the
/// reader: `Ready` is the one with a verb attached.
#[derive(Clone, Copy, PartialEq, Eq, Structural, Debug, Default)]
pub enum RoadState {
    #[default]
    Future,
    Held,
    Active,
    Ready,
    Shipped,
    Shelved,
}

/// The state a server word names; anything unknown is the future.
pub open spec fn road_state_of(s: Seq<char>) -> RoadState {
    if s == "held"@ {
        RoadState::Held
    } else if s == "active"@ {
        RoadState::Active
    } else if s == "ready"@ {
        RoadState::Ready
    } else if s == "shipped"@ {
        RoadState::Shipped
    } else if s == "shelved"@ {
        RoadState::Shelved
    } else {
        RoadState::Future
    }
}

/// The heading a state is shown under.
pub open spec fn road_state_label(s: RoadState) -> Seq<char> {
    match s {
        RoadState::Future => "Future"@,
        RoadState::Held => "Held"@,
        RoadState::Active => "Building"@,
        RoadState::Ready => "Ready to ship"@,
        RoadState::Shipped => "Shipped"@,
        RoadState::Shelved => "Shelved"@,
    }
}

/// The board tone a state borrows.
pub open spec fn road_state_status(s: RoadState) -> Status {
    match s {
        RoadState::Future | RoadState::Shelved => Status::Queued,
        RoadState::Held => Status::Violation,
        RoadState::Active => Status::Running,
        RoadState::Ready => Status::Planning,
        RoadState::Shipped => Status::Done,
    }
}

impl RoadState {
    pub fn parse(s: &str) -> (r: RoadState)
        ensures
            r == road_state_of(s@),
    {
        if same_text(s, "held") {
            RoadState::Held
        } else if same_text(s, "active") {
            RoadState::Active
        } else if same_text(s, "ready") {
            RoadState::Ready
        } else if same_text(s, "shipped") {
            RoadState::Shipped
        } else if same_text(s, "shelved") {
            RoadState::Shelved
        } else {
            RoadState::Future
        }
    }

    pub fn label(self) -> (r: &'static str)
        ensures
            r@ == road_state_label(self),
    {
        match self {
            RoadState::Future => "Future",
            RoadState::Held => "Held",
            RoadState::Active => "Building",
            RoadState::Ready => "Ready to ship",
            RoadState::Shipped => "Shipped",
            RoadState::Shelved => "Shelved",
        }
    }

    /// The status this state reads as, so the roadmap borrows the
    /// board's tones rather than inventing a second palette.
    pub fn status(self) -> (r: Status)
        ensures
            r == road_state_status(self),
    {
        match self {
            RoadState::Future | RoadState::Shelved => Status::Queued,
            RoadState::Held => Status::Violation,
            RoadState::Active => Status::Running,
            RoadState::Ready => Status::Planning,
            RoadState::Shipped => Status::Done,
        }
    }
}

/// Where the product is going: one item's worth, as the screen draws it.
#[derive(Debug, PartialEq, Eq, Default)]
pub struct RoadItem {
    pub id: String,
    pub name: String,
    /// One paragraph, product terms. The card's body.
    pub intent: String,
    /// Optional long form, Markdown.
    pub vision: String,
    pub horizon: String,
    pub state: RoadState,
    /// "MMM D HH:MM" of when it shipped, or empty.
    pub shipped_at: String,
    pub shipped_by: String,
    pub shelved: bool,
    pub depth: i32,
    pub depends_on: Vec<RoadEdge>,
    /// What waits on this one.
    pub unlocks: Vec<RoadEdge>,
    pub features: Vec<RoadFeature>,
}

/// Released features among an item's.
pub open spec fn released_count(fs: Seq<RoadFeature>) -> nat {
    count(fs, |f: RoadFeature| f.released)
}

impl RoadItem {
    /// `2/3 features released`, or the blank state.
    pub fn feature_line(&self) -> (r: String)
        ensures
            r@ == (if self.features@.len() == 0 {
                "No features bound"@
            } else {
                dec(released_count(self.features@)) + "/"@ + dec(self.features@.len())
                    + " features released"@
            }),
    {
        if self.features.len() == 0 {
            return String::from_str("No features bound");
        }
        let mut out_n: usize = 0;
        let mut i: usize = 0;
        while i < self.features.len()
            invariant
                i <= self.features@.len(),
                out_n == count(self.features@.take(i as int), |f: RoadFeature| f.released),
            decreases self.features.len() - i,
        {
            proof {
                lemma_count_step(self.features@, |f: RoadFeature| f.released, i as int);
                lemma_count_le(self.features@.take(i as int), |f: RoadFeature| f.released);
            }
            if self.features[i].released {
                out_n = out_n + 1;
            }
            i = i + 1;
        }
        assert(self.features@.take(self.features.len() as int) =~= self.features@);
        let mut out = String::new();
        push_decimal(&mut out, out_n as u128);
        out.append("/");
        push_decimal(&mut out, self.features.len() as u128);
        out.append(" features released");
        out
    }
}

/// The roadmap item with this id.
pub open spec fn item_with(id: Seq<char>) -> spec_fn(RoadItem) -> bool {
    |i: RoadItem| i.id@ == id
}

/// The roadmap as the screen holds it.
#[derive(Debug, PartialEq, Eq, Default)]
pub struct Roadmap {
    /// Topological order, as the server returned it.
    pub items: Vec<RoadItem>,
    /// Features bound to no item. Normal — a sprint, a bugfix.
    pub loose_features: Vec<RoadFeature>,
}

impl Roadmap {
    pub fn item(&self, id: &str) -> (r: Option<&RoadItem>)
        ensures
            match first_where(self.items@, item_with(id@)) {
                Some(k) => r == Some(&self.items@[k]),
                None => r is None,
            },
    {
        let mut k: usize = 0;
        while k < self.items.len()
            invariant
                k <= self.items@.len(),
                forall|j: int| 0 <= j < k ==> !(self.items@[j].id@ == id@),
            decreases self.items.len() - k,
        {
            if same_text(self.items[k].id.as_str(), id) {
                proof {
                    assert(is_first(self.items@, item_with(id@), k as int));
                    lemma_first_found(self.items@, item_with(id@), k as int);
                }
                return Some(&self.items[k]);
            }
            k = k + 1;
        }
        proof {
            lemma_none_found(self.items@, item_with(id@));
        }
        None
    }

    /// How many items are ready to ship — the count the nav badge
    /// carries.
    pub fn ready_count(&self) -> (r: usize)
        ensures
            r == count(self.items@, |i: RoadItem| i.state == RoadState::Ready),
    {
        let mut n: usize = 0;
        let mut k: usize = 0;
        while k < self.items.len()
            invariant
                k <= self.items@.len(),
                n == count(self.items@.take(k as int), |i: RoadItem| i.state == RoadState::Ready),
            decreases self.items.len() - k,
        {
            proof {
                lemma_count_step(self.items@, |i: RoadItem| i.state == RoadState::Ready, k as int);
                lemma_count_le(self.items@.take(k as int), |i: RoadItem| i.state == RoadState::Ready);
            }
            if self.items[k].state == RoadState::Ready {
                n = n + 1;
            }
            k = k + 1;
        }
        assert(self.items@.take(self.items.len() as int) =~= self.items@);
        n
    }
}


// ---------------------------------------------------------------------
// Features
// ---------------------------------------------------------------------

/// Another handle on a shared value (`Rc::clone`): the same allocation,
/// so the same value.
#[verifier::external_body]
pub(crate) fn share<T>(rc: &Rc<T>) -> (r: Rc<T>)
    ensures
        r == *rc,
{
    Rc::clone(rc)
}

/// One feature: its board row always, its graph once visited.
///
/// The counts come from the board's rollup and not from `modules`, so
/// a feature row is right before its detail has loaded and stays
/// consistent with the rail after.
#[derive(Debug, PartialEq, Eq, Default)]
pub struct Feature {
    pub id: String,
    pub name: String,
    pub description: String,
    pub status: Status,
    /// Parked. Shown as queued like any other idle feature; the menu
    /// offers the reverse verb.
    pub shelved: bool,
    pub agent: String,
    pub elapsed: String,
    pub modules_done: usize,
    pub modules_total: usize,
    pub modules_ready: usize,
    pub tasks_done: usize,
    pub tasks_total: usize,
    pub tasks_added: usize,
    /// Whether the detail below has arrived. Until it has, `modules` is
    /// empty because nothing has been read — not because none exist.
    pub detail_loaded: bool,
    /// Topological order: every module after all of its prerequisites.
    /// Shared with the detail cache.
    pub modules: Rc<Vec<Module>>,
    pub whitepaper: Option<Rc<Document>>,
    /// The loose ideas this feature was composed from.
    pub sources: Rc<Vec<WantSource>>,
    /// The feature's files, then its source wants' files.
    pub attachments: Rc<Vec<Attachment>>,
    /// Open questions on the feature itself.
    pub open_questions: Rc<Vec<Question>>,
    /// The newest announcement anywhere in the feature.
    pub last_word: Option<Word>,
    /// Modules an agent holds right now.
    pub modules_running: usize,
    /// When a HOLDER of one of its modules last wrote to the ledger.
    pub last_heard: Option<i64>,
    /// The roadmap item it delivers part of. `None` is LOOSE.
    pub roadmap_item: Option<RoadEdge>,
    /// "MMM D HH:MM" of when it shipped, or empty.
    pub released: String,
    /// Unshipped roadmap items holding its release.
    pub held_by: Vec<RoadEdge>,
}

/// The share of tasks done, as a whole percentage rounded half up;
/// zero with no tasks. The share is taken exactly, as a fraction: a
/// share that sits on a half percent, such as 21 of 40, rounds up to
/// 53%, where a single-precision float, which cannot hold 0.525, would
/// come out a hair under it and give 52%.
pub open spec fn percent(done: nat, total: nat) -> nat {
    if total == 0 {
        0
    } else {
        (200 * done + total) / (2 * total)
    }
}

/// `N%`.
pub open spec fn pct_text(f: Feature) -> Seq<char> {
    dec(percent(f.tasks_done as nat, f.tasks_total as nat)) + "%"@
}

/// `done/total modules · N ready · P% of tasks`.
pub open spec fn meta_text(f: Feature) -> Seq<char> {
    dec(f.modules_done as nat) + "/"@ + dec(f.modules_total as nat) + " modules"@ + dot() + dec(
        f.modules_ready as nat,
    ) + " ready"@ + dot() + pct_text(f) + " of tasks"@
}

/// The module with this id.
pub open spec fn module_with(id: Seq<char>) -> spec_fn(Module) -> bool {
    |m: Module| m.id@ == id
}

/// A module's name by id, falling back to the id itself.
pub open spec fn name_in(ms: Seq<Module>, id: Seq<char>) -> Seq<char> {
    match first_where(ms, module_with(id)) {
        Some(k) => ms[k].name@,
        None => id,
    }
}

/// Each id's module name, in order.
pub open spec fn names_in(ms: Seq<Module>, ids: Seq<String>) -> Seq<Seq<char>> {
    ids.map_values(|id: String| name_in(ms, id@))
}

impl Feature {
    /// `N%` of tasks done, rounded half up on the exact share (see
    /// [`percent`]).
    pub fn pct_label(&self) -> (r: String)
        ensures
            r@ == pct_text(*self),
    {
        let p: u128 = if self.tasks_total == 0 {
            0
        } else {
            let done = self.tasks_done as u128;
            let total = self.tasks_total as u128;
            (200 * done + total) / (2 * total)
        };
        let mut out = String::new();
        push_decimal(&mut out, p);
        out.append("%");
        out
    }

    pub fn module_count(&self) -> (r: (usize, usize))
        ensures
            r == (self.modules_done, self.modules_total),
    {
        (self.modules_done, self.modules_total)
    }

    pub fn task_count(&self) -> (r: (usize, usize, usize))
        ensures
            r == (self.tasks_done, self.tasks_total, self.tasks_added),
    {
        (self.tasks_done, self.tasks_total, self.tasks_added)
    }

    /// Modules an agent could claim right now.
    pub fn ready_count(&self) -> (r: usize)
        ensures
            r == self.modules_ready,
    {
        self.modules_ready
    }

    /// The one-line rollup every feature row and header shows.
    pub fn meta_line(&self) -> (r: String)
        ensures
            r@ == meta_text(*self),
    {
        let (done, total) = self.module_count();
        let mut out = String::new();
        push_decimal(&mut out, done as u128);
        out.append("/");
        push_decimal(&mut out, total as u128);
        out.append(" modules \u{b7} ");
        push_decimal(&mut out, self.ready_count() as u128);
        out.append(" ready \u{b7} ");
        let pct = self.pct_label();
        out.append(pct.as_str());
        out.append(" of tasks");
        proof {
            reveal_strlit(" modules \u{b7} ");
            reveal_strlit(" modules");
            reveal_strlit(" \u{b7} ");
            reveal_strlit(" ready \u{b7} ");
            reveal_strlit(" ready");
        }
        assert(out@ =~= meta_text(*self));
        out
    }

    /// Index of a module in [`Feature::modules`] by id.
    pub fn module_index(&self, id: &str) -> (r: Option<usize>)
        ensures
            match first_where(self.modules@, module_with(id@)) {
                Some(k) => r is Some && r->0 == k,
                None => r is None,
            },
    {
        let ms: &Vec<Module> = &*self.modules;
        let mut k: usize = 0;
        while k < ms.len()
            invariant
                *ms == *self.modules,
                k <= ms@.len(),
                forall|j: int| 0 <= j < k ==> !(ms@[j].id@ == id@),
            decreases ms.len() - k,
        {
            if same_text(ms[k].id.as_str(), id) {
                proof {
                    assert(is_first(ms@, module_with(id@), k as int));
                    lemma_first_found(ms@, module_with(id@), k as int);
                }
                return Some(k);
            }
            k = k + 1;
        }
        proof {
            lemma_none_found(ms@, module_with(id@));
        }
        None
    }

    /// A module's name by id, for the graph's "waits on" lines. Falls
    /// back to the id so a dangling reference is visible rather than
    /// blank.
    pub fn module_name(&self, id: &str) -> (r: String)
        ensures
            r@ == name_in(self.modules@, id@),
    {
        proof {
            crate::seqs::lemma_first_is_first(self.modules@, module_with(id@));
        }
        let found = self.module_index(id);
        match found {
            Some(i) => {
                self.modules[i].name.clone()
            },
            None => String::from_str(id),
        }
    }

    /// Names of the given module ids, joined for display.
    pub fn module_names(&self, ids: &[String]) -> (r: String)
        ensures
            r@ == crate::text::joined(names_in(self.modules@, ids@), ", "@),
    {
        let mut names: Vec<String> = Vec::new();
        let mut i: usize = 0;
        while i < ids.len()
            invariant
                i <= ids@.len(),
                names.deep_view() == names_in(self.modules@, ids@.take(i as int)),
            decreases ids.len() - i,
        {
            let name = self.module_name(ids[i].as_str());
            let ghost before = names.deep_view();
            names.push(name);
            assert(names.deep_view() =~= before.push(name_in(self.modules@, ids@[i as int]@)));
            assert(names.deep_view() =~= names_in(self.modules@, ids@.take(i + 1)));
            i = i + 1;
        }
        assert(ids@.take(ids.len() as int) =~= ids@);
        crate::text::join(&names, ", ")
    }

    /// Something in it is moving right now: a module is held and the
    /// ledger heard from the feature inside the live window.
    pub fn live_at(&self, now: i64) -> (r: bool)
        requires
            measurable(self.last_heard, now),
        ensures
            r == (self.modules_running > 0 && in_window(quiet(self.last_heard, now))),
    {
        self.modules_running > 0 && within_live_window(quiet_secs(self.last_heard, now))
    }
}

/// A feature still being worked.
pub open spec fn in_play(f: Feature) -> bool {
    f.status != Status::Done
}

/// The features still being worked, as indices into the list given.
pub fn in_play_of(features: &[Feature]) -> (r: Vec<usize>)
    ensures
        r@ == positions(features@, |i: int, f: Feature| in_play(f)),
{
    let mut out: Vec<usize> = Vec::new();
    let mut i: usize = 0;
    while i < features.len()
        invariant
            i <= features@.len(),
            out@ == positions(features@.take(i as int), |i: int, f: Feature| in_play(f)),
        decreases features.len() - i,
    {
        proof {
            lemma_positions_step(features@, |i: int, f: Feature| in_play(f), i as int);
        }
        if features[i].status != Status::Done {
            out.push(i);
        }
        i = i + 1;
    }
    assert(features@.take(features.len() as int) =~= features@);
    out
}

/// The rail's rows over the list given: everything still in play,
/// plus whichever one is selected.
pub fn rail_features_of(features: &[Feature], selected: usize) -> (r: Vec<usize>)
    ensures
        r@ == positions(features@, |i: int, f: Feature| in_play(f) || i == selected),
{
    let mut out: Vec<usize> = Vec::new();
    let mut i: usize = 0;
    while i < features.len()
        invariant
            i <= features@.len(),
            out@ == positions(
                features@.take(i as int),
                |i: int, f: Feature| in_play(f) || i == selected,
            ),
        decreases features.len() - i,
    {
        proof {
            lemma_positions_step(
                features@,
                |i: int, f: Feature| in_play(f) || i == selected,
                i as int,
            );
        }
        if features[i].status != Status::Done || i == selected {
            out.push(i);
        }
        i = i + 1;
    }
    assert(features@.take(features.len() as int) =~= features@);
    out
}

/// Whether a feature passes the status filter: `open`, `done`, or
/// anything else for all.
pub open spec fn status_passes(filter: Seq<char>, s: Status) -> bool {
    if filter == "open"@ {
        s != Status::Done
    } else if filter == "done"@ {
        s == Status::Done
    } else {
        true
    }
}

/// Whether a feature's name matches a lowercased, trimmed needle.
pub open spec fn name_passes(needle: Seq<char>, name: Seq<char>) -> bool {
    needle.len() == 0 || has_sub(lowered(name), needle)
}

/// The all-features screen's rows over the list given: the status
/// filter, then a case-folded substring match on the name.
pub fn filter_features_of(features: &[Feature], query: &str, status: &str) -> (r: Vec<usize>)
    ensures
        r@ == positions(
            features@,
            |i: int, f: Feature|
                status_passes(status@, f.status) && name_passes(lowered(trimmed(query@)), f.name@),
        ),
{
    let trimmed_query = trim(query);
    let needle = to_lowercase(trimmed_query.as_str());
    let open = same_text(status, "open");
    let done = same_text(status, "done");
    let ghost p = |i: int, f: Feature|
        status_passes(status@, f.status) && name_passes(lowered(trimmed(query@)), f.name@);
    let mut out: Vec<usize> = Vec::new();
    let mut i: usize = 0;
    while i < features.len()
        invariant
            i <= features@.len(),
            needle@ == lowered(trimmed(query@)),
            open == (status@ == "open"@),
            done == (status@ == "done"@),
            out@ == positions(features@.take(i as int), p),
            p == (|i: int, f: Feature|
                status_passes(status@, f.status) && name_passes(lowered(trimmed(query@)), f.name@)),
        decreases features.len() - i,
    {
        proof {
            lemma_positions_step(features@, p, i as int);
        }
        let f = &features[i];
        let by_status = if open {
            f.status != Status::Done
        } else if done {
            f.status == Status::Done
        } else {
            true
        };
        let by_name = if !by_status {
            false
        } else if needle.as_str().is_empty() {
            true
        } else {
            let name = to_lowercase(f.name.as_str());
            contains(name.as_str(), needle.as_str())
        };
        if by_status && by_name {
            out.push(i);
        }
        i = i + 1;
    }
    assert(features@.take(features.len() as int) =~= features@);
    out
}

/// The first feature still in play, for the console to land on.
pub fn first_open_of(features: &[Feature]) -> (r: Option<usize>)
    ensures
        match first_where(features@, |f: Feature| in_play(f)) {
            Some(k) => r is Some && r->0 == k,
            None => r is None,
        },
{
    let mut k: usize = 0;
    while k < features.len()
        invariant
            k <= features@.len(),
            forall|j: int| 0 <= j < k ==> !in_play(#[trigger] features@[j]),
        decreases features.len() - k,
    {
        if features[k].status != Status::Done {
            proof {
                assert(is_first(features@, |f: Feature| in_play(f), k as int));
                lemma_first_found(features@, |f: Feature| in_play(f), k as int);
            }
            return Some(k);
        }
        k = k + 1;
    }
    proof {
        lemma_none_found(features@, |f: Feature| in_play(f));
    }
    None
}

// ---------------------------------------------------------------------
// The clock
// ---------------------------------------------------------------------

/// How often the screen's clock moves. Coarse on purpose: a reading
/// only changes meaning at the twenty-minute window and the minute
/// label.
pub const CLOCK_STEP_SECS: i64 = 30;

/// `now` rounded down to its step.
pub open spec fn step_of(now: int) -> int {
    now - now % (CLOCK_STEP_SECS as int)
}

/// `now` rounded down to its [`CLOCK_STEP_SECS`] step.
pub fn clock_step(now: i64) -> (r: i64)
    requires
        i64::MIN <= step_of(now as int),
    ensures
        r == step_of(now as int),
{
    let m = now % CLOCK_STEP_SECS;
    let rem = if m < 0 { m + CLOCK_STEP_SECS } else { m };
    assert(rem == (now as int) % 30) by {
        assert(now == (now / 30) * 30 + (now % 30)) by (nonlinear_arith);
    }
    now - rem
}

} // verus!
