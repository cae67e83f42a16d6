//! How single rows and small controls read: a file's origins and menu,
//! a comment's status line and menu, the pager's words, a page of a
//! table, and the key screen's words.
use vstd::prelude::*;

use crate::edits::{Edit, MenuEntry};
use crate::model::{WantState, AgentRow, Attachment, Comment, EventItem, Feature, Feed, Module, Readiness, Status, Task, names_in};
use crate::labels::{clip, clipped};
use crate::multipart::{cut, truncate};
use crate::seqs::count;
use crate::text::{dec, push_decimal, same_text, trim, trimmed};

verus! {

// ---------------------------------------------------------------------
// A file
// ---------------------------------------------------------------------

/// Where a file came in, when not straight onto its subject: the idea it
/// rode, the module it sits on, the comment it arrived with — that last
/// one unsaid inside the comment itself.
pub open spec fn origins_of(a: Attachment, in_comment: bool) -> Seq<Seq<char>> {
    let w = if a.via_want@.len() > 0 {
        seq!["via: "@ + cut(a.via_want@, 48)]
    } else {
        Seq::empty()
    };
    let m = if a.via_module@.len() > 0 {
        seq!["in: "@ + a.via_module@]
    } else {
        Seq::empty()
    };
    let c = if a.comment_author@.len() > 0 && !in_comment {
        seq!["with a comment by "@ + a.comment_author@]
    } else {
        Seq::empty()
    };
    w + m + c
}

/// What a file's row shows besides the file itself.
#[derive(Debug)]
pub struct FileRow {
    pub origins: Vec<String>,
    /// The file is this subject's own to edit; one that came in through
    /// a want is the want's.
    pub own: bool,
    pub entries: Vec<MenuEntry>,
}

/// A file's row on `subject`'s list.
pub fn file_row(a: &Attachment, subject: &str, in_comment: bool) -> (r: FileRow)
    ensures
        r.origins.deep_view() == origins_of(*a, in_comment),
        r.own == (a.via_want_id@.len() == 0),
        r.own ==> r.entries@.len() == 2 && r.entries@[0].label@ == "Edit description"@ && !r.entries@[0].danger
            && (r.entries@[0].edit matches Edit::DescribeAttachment { subject: s, attachment: t } && s@ == subject@
            && t@ == a.id@) && r.entries@[1].label@ == "Remove"@ && r.entries@[1].danger
            && (r.entries@[1].edit matches Edit::RemoveAttachment { subject: s, attachment: t } && s@ == subject@
            && t@ == a.id@),
        !r.own ==> r.entries@.len() == 0,
{
    let mut origins: Vec<String> = Vec::new();
    if a.via_want.unicode_len() > 0 {
        let mut s = String::from_str("via: ");
        let t = truncate(a.via_want.as_str(), 48);
        s.append(t.as_str());
        origins.push(s);
    }
    let ghost after_w = origins.deep_view();
    if a.via_module.unicode_len() > 0 {
        let mut s = String::from_str("in: ");
        s.append(a.via_module.as_str());
        origins.push(s);
    }
    let ghost after_m = origins.deep_view();
    if a.comment_author.unicode_len() > 0 && !in_comment {
        let mut s = String::from_str("with a comment by ");
        s.append(a.comment_author.as_str());
        origins.push(s);
    }
    assert(origins.deep_view() =~= origins_of(*a, in_comment));
    let own = a.via_want_id.unicode_len() == 0;
    let mut entries: Vec<MenuEntry> = Vec::new();
    if own {
        entries.push(MenuEntry::new(
            "Edit description",
            Edit::DescribeAttachment { subject: String::from_str(subject), attachment: a.id.clone() },
        ));
        entries.push(MenuEntry::danger(
            "Remove",
            Edit::RemoveAttachment { subject: String::from_str(subject), attachment: a.id.clone() },
        ));
    }
    FileRow { origins, own, entries }
}

// ---------------------------------------------------------------------
// A comment
// ---------------------------------------------------------------------

/// An open question: asked, and not yet answered.
pub open spec fn open_question(c: Comment) -> bool {
    c.kind@ == "question"@ && !c.resolved
}

/// The line under a question: who owes it while open, who answered it
/// once answered; nothing under any other comment.
pub open spec fn status_text(c: Comment) -> Seq<char> {
    if open_question(c) {
        "Open \u{2014} owed by "@ + (if c.assigned_to@.len() == 0 {
            "anyone"@
        } else {
            c.assigned_to@
        })
    } else if c.kind@ == "question"@ {
        "Answered by "@ + c.resolved_by@
    } else {
        Seq::empty()
    }
}

/// What a comment's row shows besides its body.
#[derive(Debug)]
pub struct CommentRowFacts {
    /// When it was posted, and that it was edited.
    pub posted: String,
    pub has_body: bool,
    pub status_line: String,
    /// An open question takes an answer.
    pub open: bool,
    pub entries: Vec<MenuEntry>,
}

/// A comment's row, read by `you`: the author's own comments carry
/// their edits, except an answer, which is history; a question can be
/// withdrawn only while open.
pub fn comment_row(c: &Comment, subject: &str, you: &str) -> (r: CommentRowFacts)
    ensures
        r.posted@ == (if c.edited {
            c.posted@ + " \u{b7} edited"@
        } else {
            c.posted@
        }),
        r.has_body == (trimmed(c.body@).len() > 0),
        r.status_line@ == status_text(*c),
        r.open == open_question(*c),
        ({
            let own = c.author@ == you@ && c.kind@ != "answer"@;
            let question = c.kind@ == "question"@;
            let deletes = !question || open_question(*c);
            &&& !own ==> r.entries@.len() == 0
            &&& own ==> r.entries@.len() == if deletes {
                2int
            } else {
                1int
            }
            &&& own ==> r.entries@[0].label@ == "Edit"@ && !r.entries@[0].danger && (r.entries@[0].edit matches Edit::EditComment {
                subject: s,
                comment: k,
            } && s@ == subject@ && k@ == c.id@)
            &&& own && deletes ==> r.entries@[1].label@ == (if question {
                "Withdraw question"@
            } else {
                "Delete"@
            }) && r.entries@[1].danger && (r.entries@[1].edit matches Edit::DeleteComment { subject: s, comment: k, question: q }
                && s@ == subject@ && k@ == c.id@ && q == question)
        }),
{
    let posted = if c.edited {
        let mut p = c.posted.clone();
        p.append(" \u{b7} edited");
        p
    } else {
        c.posted.clone()
    };
    let is_question = same_text(c.kind.as_str(), "question");
    let is_answer = same_text(c.kind.as_str(), "answer");
    let open = is_question && !c.resolved;
    let status_line = if open {
        let mut s = String::from_str("Open \u{2014} owed by ");
        if c.assigned_to.unicode_len() == 0 {
            s.append("anyone");
        } else {
            s.append(c.assigned_to.as_str());
        }
        s
    } else if is_question {
        let mut s = String::from_str("Answered by ");
        s.append(c.resolved_by.as_str());
        s
    } else {
        String::new()
    };
    let own = same_text(c.author.as_str(), you);
    let mut entries: Vec<MenuEntry> = Vec::new();
    if own && !is_answer {
        entries.push(MenuEntry::new(
            "Edit",
            Edit::EditComment { subject: String::from_str(subject), comment: c.id.clone() },
        ));
        if !is_question || open {
            let label = if is_question {
                "Withdraw question"
            } else {
                "Delete"
            };
            entries.push(MenuEntry::danger(
                label,
                Edit::DeleteComment { subject: String::from_str(subject), comment: c.id.clone(), question: is_question },
            ));
        }
    }
    CommentRowFacts {
        posted,
        has_body: trim(c.body.as_str()).unicode_len() > 0,
        status_line,
        open,
        entries,
    }
}

/// The composer's line while it answers a question.
pub fn answering_line(who: &str, what: &str) -> (r: String)
    ensures
        r@ == "Answering "@ + who@ + ": "@ + what@,
{
    let mut s = String::from_str("Answering ");
    s.append(who);
    s.append(": ");
    s.append(what);
    s
}

/// The discussion composer's button: "Answer" while it answers a
/// question, "Ask" for a question, otherwise "Post".
pub fn post_verb(answering: bool, kind: &str) -> (r: &'static str)
    ensures
        r@ == (if answering {
            "Answer"@
        } else if kind@ == "question"@ {
            "Ask"@
        } else {
            "Post"@
        }),
{
    if answering {
        "Answer"
    } else if same_text(kind, "question") {
        "Ask"
    } else {
        "Post"
    }
}

/// Whether the discussion composer has something to post: words once
/// trimmed, or a file.
pub fn can_post(draft: &str, files: usize) -> (b: bool)
    ensures
        b == (trimmed(draft@).len() > 0 || files > 0),
{
    let t = trim(draft);
    t.as_str().unicode_len() > 0 || files > 0
}

// ---------------------------------------------------------------------
// Counts in words
// ---------------------------------------------------------------------

/// The header's agent count.
pub fn agents_live(n: usize) -> (r: String)
    ensures
        r@ == dec(n as nat) + " agents live"@,
{
    let mut s = String::new();
    push_decimal(&mut s, n as u128);
    s.append(" agents live");
    s
}

/// The rail's way to every feature: how many, and how many complete
/// when any are.
pub open spec fn all_features_text(fs: Seq<Feature>) -> Seq<char> {
    let done = count(fs, |f: Feature| f.status == Status::Done);
    if done == 0 {
        "All "@ + dec(fs.len()) + " features \u{2192}"@
    } else {
        "All "@ + dec(fs.len()) + " features, "@ + dec(done) + " complete \u{2192}"@
    }
}

/// The rail's way to every feature.
pub fn all_features_label(features: &[Feature]) -> (r: String)
    ensures
        r@ == all_features_text(features@),
{
    let mut done: usize = 0;
    let mut i: usize = 0;
    while i < features.len()
        invariant
            i <= features@.len(),
            done == count(features@.take(i as int), |f: Feature| f.status == Status::Done),
        decreases features.len() - i,
    {
        proof {
            crate::seqs::lemma_count_step(features@, |f: Feature| f.status == Status::Done, i as int);
            crate::seqs::lemma_count_le(features@.take(i as int), |f: Feature| f.status == Status::Done);
        }
        if features[i].status == Status::Done {
            done = done + 1;
        }
        i = i + 1;
    }
    assert(features@.take(i as int) =~= features@);
    let mut s = String::from_str("All ");
    push_decimal(&mut s, features.len() as u128);
    if done == 0 {
        s.append(" features \u{2192}");
    } else {
        s.append(" features, ");
        push_decimal(&mut s, done as u128);
        s.append(" complete \u{2192}");
    }
    s
}

// ---------------------------------------------------------------------
// Paging a table
// ---------------------------------------------------------------------

/// A pager's words and arrows: the arrows dim rather than vanish, so
/// the footer never changes width.
#[derive(Debug)]
pub struct PagerFacts {
    pub of_label: String,
    pub back_on: bool,
    pub next_on: bool,
}

/// The pager on page `page` (from zero) of `pages`.
pub fn pager_facts(page: usize, pages: usize) -> (r: PagerFacts)
    ensures
        r.of_label@ == "Page "@ + dec(page as nat + 1) + " of "@ + dec(pages as nat),
        r.back_on == (page > 0),
        r.next_on == (page + 1 < pages),
{
    let mut of_label = String::from_str("Page ");
    push_decimal(&mut of_label, page as u128 + 1);
    of_label.append(" of ");
    push_decimal(&mut of_label, pages as u128);
    PagerFacts { of_label, back_on: page > 0, next_on: (page as u128) + 1 < pages as u128 }
}

/// Where a paged table stands: its page count, the page showing, and the
/// first row on it.
#[derive(Debug, PartialEq, Eq)]
pub struct TablePage {
    pub pages: usize,
    pub page: usize,
    pub start: usize,
}

/// How many pages `total` rows fill, `size` to a page, at least one.
pub open spec fn pages_for(total: nat, size: nat) -> nat {
    let p = (total + size - 1) / size as int;
    if p < 1 {
        1
    } else {
        p as nat
    }
}

/// The page a table shows: the one asked for, or the last there is when
/// the rows have shrunk under it.
pub fn table_page(total: usize, page: usize, size: usize) -> (r: TablePage)
    requires
        size > 0,
    ensures
        r.pages == pages_for(total as nat, size as nat),
        r.page == (if page < r.pages - 1 {
            page as int
        } else {
            r.pages - 1
        }),
        r.start == r.page * size,
{
    let q = total / size;
    let rem = total % size;
    proof {
        vstd::arithmetic::div_mod::lemma_fundamental_div_mod(total as int, size as int);
        vstd::arithmetic::div_mod::lemma_mod_pos_bound(total as int, size as int);
        assert(rem > 0 ==> q < total) by (nonlinear_arith)
            requires
                total == size * q + rem,
                0 <= rem < size,
                q >= 0,
        ;
    }
    let p = q + if rem > 0 { 1 } else { 0 };
    assert(p == (total + size - 1) / (size as int)) by (nonlinear_arith)
        requires
            p == total / size + (if total % size > 0 { 1int } else { 0int }),
            size > 0,
    ;
    let pages = if p < 1 { 1 } else { p };
    let page = if page < pages - 1 { page } else { pages - 1 };
    assert(page * size <= total) by (nonlinear_arith)
        requires
            page <= pages - 1,
            pages == (if p < 1 { 1 } else { p }),
            p == (total + size - 1) / (size as int),
            size > 0,
    ;
    TablePage { pages, page, start: page * size }
}

/// A table's range line: the rows showing and the total, or its blank
/// words when nothing matches.
pub fn range_line(total: usize, start: usize, shown: usize, none: &str) -> (r: String)
    ensures
        r@ == (if total == 0 {
            none@
        } else {
            dec(start as nat + 1) + "\u{2013}"@ + dec(start as nat + shown as nat) + " of "@ + dec(total as nat)
        }),
{
    if total == 0 {
        return String::from_str(none);
    }
    let mut s = String::new();
    push_decimal(&mut s, start as u128 + 1);
    s.append("\u{2013}");
    push_decimal(&mut s, start as u128 + shown as u128);
    s.append(" of ");
    push_decimal(&mut s, total as u128);
    s
}

/// The rows of one page: from `start`, at most `size`.
pub fn page_rows(rows: &Vec<usize>, start: usize, size: usize) -> (r: Vec<usize>)
    ensures
        r@ == rows@.skip(if start < rows@.len() { start as int } else { rows@.len() as int }).take(
            if start < rows@.len() && rows@.len() - start > size {
                size as int
            } else if start < rows@.len() {
                rows@.len() - start
            } else {
                0
            },
        ),
{
    let mut out: Vec<usize> = Vec::new();
    let n = rows.len();
    if start >= n {
        assert(rows@.skip(n as int).take(0) =~= out@);
        return out;
    }
    let take = if n - start > size { size } else { n - start };
    let mut k: usize = 0;
    while k < take
        invariant
            start < n,
            n == rows@.len(),
            take <= n - start,
            k <= take,
            out@ == rows@.skip(start as int).take(k as int),
        decreases take - k,
    {
        out.push(rows[start + k]);
        assert(rows@.skip(start as int).take(k as int + 1) =~= rows@.skip(start as int).take(k as int).push(
            rows@[start + k],
        ));
        k = k + 1;
    }
    out
}

// ---------------------------------------------------------------------
// The key
// ---------------------------------------------------------------------

/// The key screen's heading: why the reader is looking at it.
pub fn gate_title(denied: bool, no_key: bool) -> (r: &'static str)
    ensures
        r@ == (if denied && no_key {
            "This host needs a key"@
        } else if denied {
            "This key was refused"@
        } else {
            "API key"@
        }),
{
    if denied && no_key {
        "This host needs a key"
    } else if denied {
        "This key was refused"
    } else {
        "API key"
    }
}

/// The header's key pill: whether a key is held, as words and a dot.
pub fn key_pill(no_key: bool) -> (r: (&'static str, Status))
    ensures
        r.0@ == (if no_key {
            "no key"@
        } else {
            "key set"@
        }),
        r.1 == (if no_key {
            Status::Queued
        } else {
            Status::Done
        }),
{
    if no_key {
        ("no key", Status::Queued)
    } else {
        ("key set", Status::Done)
    }
}

/// Whether the key popover's "Use this key" would change anything.
pub fn key_changes(draft: &str, key: &str) -> (b: bool)
    ensures
        b == (trimmed(draft@) != trimmed(key@)),
{
    let a = trim(draft);
    let b = trim(key);
    !same_text(a.as_str(), b.as_str())
}

/// Whether the key screen has a key to send.
pub fn key_given(draft: &str) -> (b: bool)
    ensures
        b == (trimmed(draft@).len() > 0),
{
    trim(draft).unicode_len() > 0
}

// ---------------------------------------------------------------------
// A module's card
// ---------------------------------------------------------------------

/// How much of a card's one-line text fits.
pub const LINE_CHARS: usize = 38;

/// What a module's card shows under its name.
#[derive(Debug)]
pub struct CardLines {
    /// Each task, checked or not, in order.
    pub ticks: Vec<bool>,
    /// While prerequisites are open: what it waits on.
    pub waits: Option<String>,
    /// Once it is open and the module is not done: its worker's last word.
    pub word: Option<String>,
}

/// The one line under a card's ticks: the names it waits on while
/// prerequisites are open, else its worker's last word unless it is done.
pub open spec fn card_lines(f: Feature, m: Module) -> (Option<Seq<char>>, Option<Seq<char>>) {
    let waiting = m.status != Status::Done && m.waiting_on@.len() > 0;
    let waits = if waiting {
        Some(clipped("waits on "@ + crate::text::joined(names_in(f.modules@, m.waiting_on@), ", "@), LINE_CHARS as nat))
    } else {
        None
    };
    let word = match m.last_word {
        Some(w) => if !waiting && m.status != Status::Done {
            Some(clipped(seq!['\u{201c}'] + w.text@ + seq!['\u{201d}'], LINE_CHARS as nat))
        } else {
            None
        },
        None => None,
    };
    (waits, word)
}

/// The lines of module `mi`'s card in feature `f`.
pub fn card_of(f: &Feature, mi: usize) -> (r: CardLines)
    requires
        mi < f.modules@.len(),
    ensures
        r.ticks@ == f.modules@[mi as int].tasks@.map_values(|t: Task| t.done),
        crate::wire::opt_text(r.waits) == card_lines(*f, f.modules@[mi as int]).0,
        crate::wire::opt_text(r.word) == card_lines(*f, f.modules@[mi as int]).1,
{
    let m = &f.modules[mi];
    let mut ticks: Vec<bool> = Vec::new();
    let mut k: usize = 0;
    while k < m.tasks.len()
        invariant
            k <= m.tasks@.len(),
            ticks@ =~= m.tasks@.take(k as int).map_values(|t: Task| t.done),
        decreases m.tasks.len() - k,
    {
        ticks.push(m.tasks[k].done);
        assert(m.tasks@.take(k as int + 1).map_values(|t: Task| t.done) =~= m.tasks@.take(k as int).map_values(
            |t: Task| t.done,
        ).push(m.tasks@[k as int].done));
        k = k + 1;
    }
    assert(m.tasks@.take(k as int) =~= m.tasks@);
    let waiting = m.readiness() == Readiness::Waiting;
    let waits = if waiting {
        let mut line = String::from_str("waits on ");
        let names = f.module_names(m.waiting_on.as_slice());
        line.append(names.as_str());
        Some(clip(line.as_str(), LINE_CHARS))
    } else {
        None
    };
    let word = match &m.last_word {
        Some(w) => if !waiting && m.status != Status::Done {
            let mut line = String::new();
            crate::text::push_char(&mut line, '\u{201c}');
            line.append(w.text.as_str());
            crate::text::push_char(&mut line, '\u{201d}');
            Some(clip(line.as_str(), LINE_CHARS))
        } else {
            None
        },
        None => None,
    };
    CardLines { ticks, waits, word }
}

// ---------------------------------------------------------------------
// A feature's head
// ---------------------------------------------------------------------

/// The open questions on a feature's modules.
pub open spec fn module_questions(ms: Seq<Module>) -> nat
    decreases ms.len(),
{
    if ms.len() == 0 {
        0
    } else {
        module_questions(ms.drop_last()) + ms.last().open_questions@.len()
    }
}

/// What a feature's head shows besides its name and tabs.
#[derive(Debug)]
pub struct HeadFacts {
    /// The rollup, the ad hoc tasks when there are any, and the time.
    pub meta: String,
    /// Open questions on the feature and its modules.
    pub pending: usize,
    pub files: usize,
}

/// A feature's head line and the counts its tabs carry.
pub fn feature_head(f: &Feature) -> (r: HeadFacts)
    requires
        f.open_questions@.len() + module_questions(f.modules@) <= usize::MAX,
    ensures
        r.meta@ == crate::model::meta_text(*f) + (if f.tasks_added > 0 {
            " \u{b7} "@ + dec(f.tasks_added as nat) + " ad hoc"@
        } else {
            Seq::empty()
        }) + " \u{b7} "@ + f.elapsed@,
        r.pending == f.open_questions@.len() + module_questions(f.modules@),
        r.files == f.attachments@.len(),
{
    let mut meta = f.meta_line();
    if f.tasks_added > 0 {
        meta.append(" \u{b7} ");
        push_decimal(&mut meta, f.tasks_added as u128);
        meta.append(" ad hoc");
    }
    meta.append(" \u{b7} ");
    meta.append(f.elapsed.as_str());
    let ms = &f.modules;
    proof {
        assert forall|j: int| 0 <= j <= ms@.len() implies #[trigger] module_questions(ms@.take(j)) <= module_questions(ms@) by {
            lemma_questions_prefix(ms@, j);
        }
        assert(ms@.take(0) =~= Seq::<Module>::empty());
    }
    let mut pending: usize = f.open_questions.len();
    let mut k: usize = 0;
    while k < ms.len()
        invariant
            k <= ms@.len(),
            f.open_questions@.len() + module_questions(ms@) <= usize::MAX,
            pending == f.open_questions@.len() + module_questions(ms@.take(k as int)),
            forall|j: int| 0 <= j <= ms@.len() ==> #[trigger] module_questions(ms@.take(j)) <= module_questions(ms@),
        decreases ms.len() - k,
    {
        assert(ms@.take(k as int + 1).drop_last() =~= ms@.take(k as int));
        assert(module_questions(ms@.take(k as int + 1)) <= module_questions(ms@));
        pending = pending + ms[k].open_questions.len();
        k = k + 1;
    }
    assert(ms@.take(k as int) =~= ms@);
    HeadFacts { meta, pending, files: f.attachments.len() }
}

proof fn lemma_questions_prefix(ms: Seq<Module>, j: int)
    requires
        0 <= j <= ms.len(),
    ensures
        module_questions(ms.take(j)) <= module_questions(ms),
    decreases ms.len() - j,
{
    if j < ms.len() {
        lemma_questions_prefix(ms, j + 1);
        assert(ms.take(j + 1).drop_last() =~= ms.take(j));
    } else {
        assert(ms.take(j) =~= ms);
    }
}

// ---------------------------------------------------------------------
// The activity tab and the roster
// ---------------------------------------------------------------------

/// What the activity tab shows around its events.
#[derive(Debug)]
pub struct FeedFacts {
    /// The words in place of events: not read yet, or read and empty.
    pub blank: Option<&'static str>,
    /// The seq of the last event shown: its rail line stops there.
    pub last_seq: Option<i64>,
    /// The ledger goes further back than what is loaded.
    pub has_older: bool,
}

/// The activity tab for a feed, if one is held.
pub fn feed_facts(feed: Option<&Feed>) -> (r: FeedFacts)
    ensures
        match feed {
            None => r.blank matches Some(w) && w@ == "Loading the ledger\u{2026}"@ && r.last_seq is None && !r.has_older,
            Some(f) => {
                &&& f.events@.len() == 0 ==> (r.blank matches Some(w) && w@ == "No events yet for this feature."@)
                &&& f.events@.len() > 0 ==> r.blank is None
                &&& r.last_seq == (if f.events@.len() > 0 {
                    Some(f.events@.last().seq)
                } else {
                    None
                })
                &&& r.has_older == (!f.exhausted && f.events@.len() > 0)
            },
        },
{
    match feed {
        None => FeedFacts { blank: Some("Loading the ledger\u{2026}"), last_seq: None, has_older: false },
        Some(f) => {
            let n = f.events.len();
            if n == 0 {
                FeedFacts { blank: Some("No events yet for this feature."), last_seq: None, has_older: false }
            } else {
                FeedFacts { blank: None, last_seq: Some(f.events[n - 1].seq), has_older: !f.exhausted }
            }
        },
    }
}

/// What an agent's roster card shows besides its id and scope.
#[derive(Debug)]
pub struct RosterFacts {
    /// The dot: the box's verdict when checked, else the ledger's state.
    pub dot: Status,
    /// The tag: the verdict's words and tone when checked; `None` shows
    /// the state's own badge.
    pub tag: Option<(String, Status)>,
    /// The verdict's detail line, when checked.
    pub health_line: Option<String>,
    /// Its last word, quoted, with when and on what.
    pub word: Option<(String, String)>,
    pub seen: String,
    pub live: bool,
    /// "quiet 47m" once a held claim has gone silent.
    pub quiet: Option<String>,
}

/// An agent's card at `now`.
pub fn roster_facts(a: &AgentRow, now: i64) -> (r: RosterFacts)
    requires
        crate::model::measurable(a.last_heard, now),
    ensures
        r.dot == (match a.health {
            Some(h) => h.tone,
            None => a.state,
        }),
        match a.health {
            Some(h) => (r.tag matches Some(t) && t.0@ == h.label@ && t.1 == h.tone) && (r.health_line matches Some(l)
                && l@ == h.line@),
            None => r.tag is None && r.health_line is None,
        },
        match a.last_word {
            Some(w) => r.word matches Some(p) && p.0@ == seq!['\u{201c}'] + w.text@ + seq!['\u{201d}'] && p.1@ == w.at@
                + " on "@ + w.subject@,
            None => r.word is None,
        },
        r.seen@ == "seen "@ + a.last_seen@,
        r.live == (a.state == Status::Running && crate::model::in_window(crate::model::quiet(a.last_heard, now))
            && crate::model::box_up(a.health)),
        match crate::model::quiet_holder(a.state, a.last_heard, now) {
            Some(q) => r.quiet matches Some(s) && s@ == "quiet "@ + crate::model::quiet_text(q),
            None => r.quiet is None,
        },
{
    let (dot, tag, health_line) = match &a.health {
        Some(h) => (h.tone, Some((h.label.clone(), h.tone)), Some(h.line.clone())),
        None => (a.state, None, None),
    };
    let word = match &a.last_word {
        Some(w) => {
            let mut q = String::new();
            crate::text::push_char(&mut q, '\u{201c}');
            q.append(w.text.as_str());
            crate::text::push_char(&mut q, '\u{201d}');
            let mut at = w.at.clone();
            at.append(" on ");
            at.append(w.subject.as_str());
            Some((q, at))
        },
        None => None,
    };
    let mut seen = String::from_str("seen ");
    seen.append(a.last_seen.as_str());
    RosterFacts { dot, tag, health_line, word, seen, live: a.live_at(now), quiet: a.quiet_at(now) }
}

/// A want's state in the pool's words.
pub fn want_state_word(state: WantState) -> (r: &'static str)
    ensures
        r@ == (match state {
            WantState::Open => "Loose"@,
            WantState::Promoted => "Composed"@,
            WantState::Declined => "Declined"@,
        }),
{
    match state {
        WantState::Open => "Loose",
        WantState::Promoted => "Composed",
        WantState::Declined => "Declined",
    }
}

} // verus!
