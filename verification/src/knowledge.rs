//! The knowledge screen's decisions: the header counts, the pager, the
//! filter words, and how an entry and its links read. The server ranks
//! and pages the entries; this side only says what a page shows.
use vstd::prelude::*;

use crate::labels::{kind_plural, label_for};
use crate::text::{dec, dec_int, join, joined, push_char, push_decimal, push_decimal_i64, same_text, trim, trimmed};

verus! {

/// Entries per page; the server pages by the same size.
pub const PAGE_SIZE: u64 = 20;

/// One knowledge entry as the server returns it.
#[derive(Debug, PartialEq, Eq, Default)]
pub struct MemoryDto {
    pub id: String,
    pub content: String,
    pub kind: String,
    /// `project`, `feature` or `module`.
    pub level: String,
    /// The name of what the entry is about.
    pub subject_name: String,
    /// `current`, `superseded` or `disputed`.
    pub state: String,
    pub author: String,
    pub written: String,
    pub tags: Vec<String>,
    pub confirms: i64,
    pub disputes: i64,
    pub touches: i64,
}

/// A declared link from or to an entry.
#[derive(Debug, PartialEq, Eq, Default)]
pub struct LinkDto {
    /// The relation, snake-cased.
    pub kind: String,
    /// Read from this entry outward.
    pub outgoing: bool,
    /// Why the link was made.
    pub rationale: String,
    /// The entry at the other end.
    pub other: MemoryDto,
}

/// How many entries one kind has.
#[derive(Debug, PartialEq, Eq, Default)]
pub struct KindCountDto {
    pub kind: String,
    pub count: i64,
}

/// One page of a search.
#[derive(Debug, PartialEq, Eq, Default)]
pub struct KnowledgePage {
    pub entries: Vec<MemoryDto>,
    pub total: i64,
    pub by_kind: Vec<KindCountDto>,
}

/// One entry's place in the graph.
#[derive(Debug, PartialEq, Eq, Default)]
pub struct MemoryDetail {
    pub entry: MemoryDto,
    pub supersedes: Vec<LinkDto>,
    pub superseded_by: Vec<LinkDto>,
    pub relations: Vec<LinkDto>,
    /// Entries agents have reached for in the same breath.
    pub suggestions: Vec<MemoryDto>,
}

/// One count in the screen's header.
#[derive(Debug, PartialEq, Eq)]
pub struct Stat {
    pub value: String,
    pub label: String,
}

// ---------------------------------------------------------------------
// The header and the pager
// ---------------------------------------------------------------------

/// The kinds that have entries, as `(count, plural)`.
pub open spec fn kind_stats(cs: Seq<KindCountDto>) -> Seq<(Seq<char>, Seq<char>)>
    decreases cs.len(),
{
    if cs.len() == 0 {
        Seq::empty()
    } else {
        let rest = kind_stats(cs.drop_last());
        let c = cs.last();
        if c.count > 0 {
            rest.push((dec_int(c.count as int), kind_plural(c.kind@)))
        } else {
            rest
        }
    }
}

/// A stat as its value and label.
pub open spec fn stat_view(s: Stat) -> (Seq<char>, Seq<char>) {
    (s.value@, s.label@)
}

/// The header: the total, then each kind that has entries. A row of
/// zeroes teaches nothing, so empty kinds get no stat.
pub fn knowledge_stats(page: &KnowledgePage) -> (r: Vec<Stat>)
    ensures
        r@.map_values(|s: Stat| stat_view(s)) == seq![(dec_int(page.total as int), "entries"@)] + kind_stats(
            page.by_kind@,
        ),
{
    let mut out: Vec<Stat> = Vec::new();
    let mut total = String::new();
    push_decimal_i64(&mut total, page.total);
    out.push(Stat { value: total, label: String::from_str("entries") });
    let cs = &page.by_kind;
    let mut k: usize = 0;
    while k < cs.len()
        invariant
            k <= cs@.len(),
            out@.map_values(|s: Stat| stat_view(s)) == seq![(dec_int(page.total as int), "entries"@)] + kind_stats(
                cs@.take(k as int),
            ),
            cs@ == page.by_kind@,
        decreases cs.len() - k,
    {
        assert(cs@.take(k as int + 1).drop_last() =~= cs@.take(k as int));
        let c = &cs[k];
        if c.count > 0 {
            let mut v = String::new();
            push_decimal_i64(&mut v, c.count);
            let s = Stat { value: v, label: String::from_str(label_for(c.kind.as_str())) };
            let ghost before = out@;
            out.push(s);
            assert(out@.map_values(|s: Stat| stat_view(s)) =~= before.map_values(|s: Stat| stat_view(s)).push(
                stat_view(s),
            ));
        }
        k = k + 1;
    }
    assert(cs@.take(k as int) =~= cs@);
    out
}

/// Where the pager stands: how many pages, which one is showing, and the
/// `first–last of total` line.
#[derive(Debug, PartialEq, Eq)]
pub struct PagerView {
    pub pages: u64,
    pub at: usize,
    pub summary: String,
}

/// How many pages `total` entries fill, at least one.
pub open spec fn page_count(total: int) -> int {
    let t = if total < 0 {
        0
    } else {
        total
    };
    let p = (t + PAGE_SIZE - 1) / PAGE_SIZE as int;
    if p < 1 {
        1
    } else {
        p
    }
}

/// The page showing: the one asked for, or the last there is.
pub open spec fn page_at(total: int, at: int) -> int {
    if at < page_count(total) - 1 {
        at
    } else {
        page_count(total) - 1
    }
}

/// The pager line: the shown range and the total, or nothing when
/// nothing matched.
pub open spec fn pager_line(total: int, count: int, at: int) -> Seq<char> {
    if total <= 0 {
        Seq::empty()
    } else {
        let start = page_at(total, at) * PAGE_SIZE as int;
        dec((start + 1) as nat) + "\u{2013}"@ + dec((start + count) as nat) + " of "@ + dec_int(total)
    }
}

/// The pager for a page of `count` entries out of `total`, asked for
/// page `at`.
pub fn knowledge_pager(total: i64, count: usize, at: usize) -> (r: PagerView)
    ensures
        r.pages == page_count(total as int),
        r.at == page_at(total as int, at as int),
        r.summary@ == pager_line(total as int, count as int, at as int),
{
    let t: u64 = if total < 0 {
        0
    } else {
        total as u64
    };
    let p = (t + PAGE_SIZE - 1) / PAGE_SIZE;
    let pages = if p < 1 {
        1
    } else {
        p
    };
    let at = if (at as u64) < pages - 1 {
        at
    } else {
        (pages - 1) as usize
    };
    let mut summary = String::new();
    if t > 0 {
        let start = at as u128 * PAGE_SIZE as u128;
        push_decimal(&mut summary, start + 1);
        summary.append("\u{2013}");
        push_decimal(&mut summary, start + count as u128);
        summary.append(" of ");
        push_decimal_i64(&mut summary, total);
    }
    PagerView { pages, at, summary }
}

/// What the list says when it holds nothing: "not asked yet" and
/// "nothing here" are different states.
pub fn empty_line(loaded: bool) -> (r: &'static str)
    ensures
        r@ == (if loaded {
            "No entries match"@
        } else {
            "Searching\u{2026}"@
        }),
{
    if !loaded {
        "Searching\u{2026}"
    } else {
        "No entries match"
    }
}

// ---------------------------------------------------------------------
// The toolbar
// ---------------------------------------------------------------------

/// The level filter a scope option sets: "all" is the screen's word for
/// no filter, which the server spells as an empty string.
pub fn level_filter(option: &str) -> (r: String)
    ensures
        r@ == (if option@ == "all"@ {
            Seq::empty()
        } else {
            option@
        }),
{
    if same_text(option, "all") {
        String::new()
    } else {
        String::from_str(option)
    }
}

/// The scope option a level filter shows as.
pub fn level_option(level: &str) -> (r: String)
    ensures
        r@ == (if level@.len() == 0 {
            "all"@
        } else {
            level@
        }),
{
    if level.unicode_len() == 0 {
        String::from_str("all")
    } else {
        String::from_str(level)
    }
}

/// Whether any filter is set, so "Clear filters" is offered.
pub fn filters_set(query: &str, kinds: &Vec<String>, tags: &Vec<String>, level: &str) -> (b: bool)
    ensures
        b == !(query@.len() == 0 && kinds@.len() == 0 && tags@.len() == 0 && level@.len() == 0),
{
    !(query.unicode_len() == 0 && kinds.len() == 0 && tags.len() == 0 && level.unicode_len() == 0)
}

/// The history toggle's words.
pub fn history_label(on: bool) -> (r: &'static str)
    ensures
        r@ == (if on {
            "Hide superseded"@
        } else {
            "Show superseded"@
        }),
{
    if on {
        "Hide superseded"
    } else {
        "Show superseded"
    }
}

// ---------------------------------------------------------------------
// Entries and links
// ---------------------------------------------------------------------

/// How an entry's card reads.
#[derive(Clone, Copy, Debug, PartialEq, Eq, Structural)]
pub enum EntryArm {
    Current,
    Superseded,
    Disputed,
}

/// The arm a state reads as; anything unknown is current.
pub open spec fn arm_of(state: Seq<char>) -> EntryArm {
    if state == "superseded"@ {
        EntryArm::Superseded
    } else if state == "disputed"@ {
        EntryArm::Disputed
    } else {
        EntryArm::Current
    }
}

/// Where an entry is true: a project-level one reads as the project's
/// name, anything else as `level · name`.
pub open spec fn where_text(e: MemoryDto) -> Seq<char> {
    if e.level@ == "project"@ {
        e.subject_name@
    } else {
        e.level@ + " \u{b7} "@ + e.subject_name@
    }
}

/// The facts behind an entry's standing, never one score.
pub open spec fn standing_marks(e: MemoryDto) -> Seq<Seq<char>> {
    let a = if e.confirms > 0 {
        seq![dec_int(e.confirms as int) + " confirmed"@]
    } else {
        Seq::empty()
    };
    let b = if e.disputes > 0 {
        seq![dec_int(e.disputes as int) + " disputed"@]
    } else {
        Seq::empty()
    };
    let c = if e.touches > 0 {
        seq![dec_int(e.touches as int) + " used"@]
    } else {
        Seq::empty()
    };
    a + b + c
}

/// What an entry's card shows besides its text.
#[derive(Debug, PartialEq, Eq)]
pub struct EntryFacts {
    pub kind_label: String,
    pub where_line: String,
    pub arm: EntryArm,
    /// Not current: it shows its state, dimmed.
    pub withdrawn: bool,
    /// `2 confirmed · 1 disputed · 5 used`, or empty.
    pub standing: String,
}

/// How one entry's card reads.
pub fn entry_facts(e: &MemoryDto) -> (r: EntryFacts)
    ensures
        r.kind_label@ == kind_plural(e.kind@),
        r.where_line@ == where_text(*e),
        r.arm == arm_of(e.state@),
        r.withdrawn == (e.state@ != "current"@),
        r.standing@ == joined(standing_marks(*e), " \u{b7} "@),
{
    let where_line = if same_text(e.level.as_str(), "project") {
        e.subject_name.clone()
    } else {
        let mut s = e.level.clone();
        s.append(" \u{b7} ");
        s.append(e.subject_name.as_str());
        s
    };
    let arm = if same_text(e.state.as_str(), "superseded") {
        EntryArm::Superseded
    } else if same_text(e.state.as_str(), "disputed") {
        EntryArm::Disputed
    } else {
        EntryArm::Current
    };
    let mut marks: Vec<String> = Vec::new();
    if e.confirms > 0 {
        let mut m = String::new();
        push_decimal_i64(&mut m, e.confirms);
        m.append(" confirmed");
        marks.push(m);
    }
    let ghost after_a = marks.deep_view();
    if e.disputes > 0 {
        let mut m = String::new();
        push_decimal_i64(&mut m, e.disputes);
        m.append(" disputed");
        marks.push(m);
    }
    let ghost after_b = marks.deep_view();
    if e.touches > 0 {
        let mut m = String::new();
        push_decimal_i64(&mut m, e.touches);
        m.append(" used");
        marks.push(m);
    }
    assert(marks.deep_view() =~= standing_marks(*e));
    EntryFacts {
        kind_label: String::from_str(label_for(e.kind.as_str())),
        where_line,
        arm,
        withdrawn: !same_text(e.state.as_str(), "current"),
        standing: join(&marks, " \u{b7} "),
    }
}

/// A relation's words: snake case spelled out, and an inward link marked
/// with an arrow, since `refines` read outward and inward mean opposite
/// things.
pub open spec fn link_verb_text(kind: Seq<char>, outgoing: bool) -> Seq<char> {
    let words = kind.map_values(|c: char| if c == '_' { ' ' } else { c });
    if outgoing {
        words
    } else {
        words + " \u{2190}"@
    }
}

/// A link's words.
pub fn link_verb(kind: &str, outgoing: bool) -> (r: String)
    ensures
        r@ == link_verb_text(kind@, outgoing),
{
    let n = kind.unicode_len();
    let mut out = String::new();
    let mut k: usize = 0;
    while k < n
        invariant
            n == kind@.len(),
            k <= n,
            out@ == kind@.take(k as int).map_values(|c: char| if c == '_' { ' ' } else { c }),
        decreases n - k,
    {
        let c = kind.get_char(k);
        let ghost before = out@;
        push_char(&mut out, if c == '_' { ' ' } else { c });
        assert(kind@.take(k as int + 1).map_values(|c: char| if c == '_' { ' ' } else { c }) =~= before.push(
            if c == '_' { ' ' } else { c },
        ));
        k = k + 1;
    }
    assert(kind@.take(n as int) =~= kind@);
    if !outgoing {
        out.append(" \u{2190}");
    }
    out
}

/// Whether a link says why it was made.
pub fn has_rationale(rationale: &str) -> (b: bool)
    ensures
        b == (trimmed(rationale@).len() > 0),
{
    trim(rationale).unicode_len() > 0
}

/// An entry nothing links to in either direction: a real answer, said
/// as one.
pub fn isolated(d: &MemoryDetail) -> (b: bool)
    ensures
        b == (d.supersedes@.len() == 0 && d.superseded_by@.len() == 0 && d.relations@.len() == 0
            && d.suggestions@.len() == 0),
{
    d.supersedes.len() == 0 && d.superseded_by.len() == 0 && d.relations.len() == 0 && d.suggestions.len() == 0
}

} // verus!
