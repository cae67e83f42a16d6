//! What the screen's stat rows and the module drawer show, worked out
//! from the cache before anything is drawn.
use vstd::prelude::*;

use crate::cache::{Current, module_read_with};
use crate::model::{Feature, Module, ModuleEvent, Status, done_tasks, module_with};
use crate::seqs::{count, first_where, lemma_count_le, lemma_count_step};
use crate::text::{dec, push_decimal, same_text, trim, trimmed};

verus! {

/// One count in the all-features screen's header.
#[derive(Debug)]
pub struct HeadStatProps {
    /// Stat value.
    pub value: String,
    /// Uppercase label.
    pub label: &'static str,
}

/// One count in the pool's header.
#[derive(Debug)]
pub struct PoolStatProps {
    /// Stat value.
    pub value: String,
    /// Uppercase label.
    pub label: &'static str,
}

/// One cell of the module drawer's stat grid.
#[derive(Debug)]
pub struct StatCellProps {
    /// Uppercase stat label.
    pub label: &'static str,
    /// Stat value.
    pub value: String,
}

/// One line of a module's history.
#[derive(Debug)]
pub struct HistoryRowProps {
    pub title: String,
    pub body: String,
    pub at: String,
    pub from: String,
    /// A claim the server bounced.
    pub gate: bool,
}

fn decimal_of(n: usize) -> (r: String)
    ensures
        r@ == dec(n as nat),
{
    let mut s = String::new();
    push_decimal(&mut s, n as u128);
    s
}

fn count_status(features: &[Feature], status: Status) -> (r: usize)
    ensures
        r == count(features@, |f: Feature| f.status == status),
{
    let mut n: usize = 0;
    let mut i: usize = 0;
    while i < features.len()
        invariant
            i <= features@.len(),
            n == count(features@.take(i as int), |f: Feature| f.status == status),
        decreases features.len() - i,
    {
        proof {
            lemma_count_step(features@, |f: Feature| f.status == status, i as int);
            lemma_count_le(features@.take(i as int), |f: Feature| f.status == status);
        }
        if features[i].status == status {
            n = n + 1;
        }
        i = i + 1;
    }
    assert(features@.take(features.len() as int) =~= features@);
    n
}

/// The all-features screen's header: how many features, how many
/// running, how many complete.
pub fn feature_stats(features: &[Feature]) -> (r: Vec<HeadStatProps>)
    ensures
        r@.len() == 3,
        r@[0].value@ == dec(features@.len()) && r@[0].label@ == "features"@,
        r@[1].value@ == dec(count(features@, |f: Feature| f.status == Status::Running)) && r@[1].label@ == "running"@,
        r@[2].value@ == dec(count(features@, |f: Feature| f.status == Status::Done)) && r@[2].label@ == "complete"@,
{
    let running = count_status(features, Status::Running);
    let done = count_status(features, Status::Done);
    let mut out: Vec<HeadStatProps> = Vec::new();
    out.push(HeadStatProps { value: decimal_of(features.len()), label: "features" });
    out.push(HeadStatProps { value: decimal_of(running), label: "running" });
    out.push(HeadStatProps { value: decimal_of(done), label: "complete" });
    out
}

/// The pool's header: loose, composed and declined wants.
pub fn pool_stats(counts: (usize, usize, usize)) -> (r: Vec<PoolStatProps>)
    ensures
        r@.len() == 3,
        r@[0].value@ == dec(counts.0 as nat) && r@[0].label@ == "loose"@,
        r@[1].value@ == dec(counts.1 as nat) && r@[1].label@ == "composed"@,
        r@[2].value@ == dec(counts.2 as nat) && r@[2].label@ == "declined"@,
{
    let mut out: Vec<PoolStatProps> = Vec::new();
    out.push(PoolStatProps { value: decimal_of(counts.0), label: "loose" });
    out.push(PoolStatProps { value: decimal_of(counts.1), label: "composed" });
    out.push(PoolStatProps { value: decimal_of(counts.2), label: "declined" });
    out
}

/// A history line as the drawer shows it: the server's bounced claims marked.
pub open spec fn history_row(e: ModuleEvent, r: HistoryRowProps) -> bool {
    &&& r.title@ == e.title@
    &&& r.body@ == e.body@
    &&& r.at@ == e.at@
    &&& r.from@ == e.from@
    &&& r.gate == (e.from@ == "server.gate"@)
}

/// A module's history lines, oldest first.
pub fn history_rows(history: &Vec<ModuleEvent>) -> (r: Vec<HistoryRowProps>)
    ensures
        r@.len() == history@.len(),
        forall|i: int| 0 <= i < history@.len() ==> #[trigger] history_row(history@[i], r@[i]),
{
    let mut out: Vec<HistoryRowProps> = Vec::new();
    let mut i: usize = 0;
    while i < history.len()
        invariant
            i <= history@.len(),
            out@.len() == i,
            forall|j: int| 0 <= j < i ==> #[trigger] history_row(history@[j], out@[j]),
        decreases history.len() - i,
    {
        let e = &history[i];
        out.push(HistoryRowProps {
            title: e.title.clone(),
            body: e.body.clone(),
            at: e.at.clone(),
            from: e.from.clone(),
            gate: same_text(e.from.as_str(), "server.gate"),
        });
        i = i + 1;
    }
    out
}

/// How many of a module's tasks an agent added.
pub open spec fn added_tasks(m: Module) -> nat {
    count(m.tasks@, |t: crate::model::Task| t.added)
}

/// The drawer's stat grid: the module's column, when it was spawned,
/// its tasks done, and how many of them an agent added.
pub open spec fn module_cells(m: Module, cells: Seq<StatCellProps>) -> bool {
    &&& cells.len() == 4
    &&& cells[0].label@ == "depth"@ && cells[0].value@ == "column "@ + dec(m.depth as nat)
    &&& cells[1].label@ == "spawned"@ && cells[1].value@ == (if m.spawned@.len() == 0 {
        "not spawned"@
    } else {
        m.spawned@
    })
    &&& cells[2].label@ == "tasks done"@ && cells[2].value@ == dec(done_tasks(m.tasks@)) + " / "@ + dec(m.tasks@.len())
    &&& cells[3].label@ == "agent-added"@ && cells[3].value@ == dec(added_tasks(m))
}

/// What the module drawer shows of a module, before any markup.
pub struct ModulePanelFacts {
    /// `feature  ▸  Module`.
    pub path: String,
    pub name: String,
    pub status: Status,
    pub agent: String,
    /// Trimmed; empty when there is none.
    pub description: String,
    pub cells: Vec<StatCellProps>,
    /// `done of total checked off`.
    pub task_label: String,
    /// Each prerequisite the graph holds, by its place, and whether it
    /// still holds this module back.
    pub prereqs: Vec<(usize, bool)>,
    /// Empty when there is none.
    pub summary: String,
    /// Whether the drawer read has landed; until it has, the handoff
    /// and history sections say so rather than claiming there is
    /// nothing.
    pub detail_loaded: bool,
    pub history: Vec<HistoryRowProps>,
}

/// The prerequisites the graph holds, by place, each with whether it
/// is still waited on.
pub open spec fn prereqs_of(f: Feature, deps: Seq<String>, waiting: Seq<String>) -> Seq<(usize, bool)>
    decreases deps.len(),
{
    if deps.len() == 0 {
        Seq::empty()
    } else {
        let before = prereqs_of(f, deps.drop_last(), waiting);
        match first_where(f.modules@, module_with(deps.last()@)) {
            Some(i) => before.push(
                (
                    i as usize,
                    exists|w: int| 0 <= w < waiting.len() && waiting[w]@ == f.modules@[i].id@,
                ),
            ),
            None => before,
        }
    }
}

fn waits_on(waiting: &Vec<String>, id: &str) -> (r: bool)
    ensures
        r == exists|w: int| 0 <= w < waiting@.len() && waiting@[w]@ == id@,
{
    let mut k: usize = 0;
    while k < waiting.len()
        invariant
            k <= waiting@.len(),
            forall|w: int| 0 <= w < k ==> waiting@[w]@ != id@,
        decreases waiting.len() - k,
    {
        if same_text(waiting[k].as_str(), id) {
            return true;
        }
        k = k + 1;
    }
    false
}

fn count_added(m: &Module) -> (r: usize)
    ensures
        r == added_tasks(*m),
{
    let mut n: usize = 0;
    let mut i: usize = 0;
    while i < m.tasks.len()
        invariant
            i <= m.tasks@.len(),
            n == count(m.tasks@.take(i as int), |t: crate::model::Task| t.added),
        decreases m.tasks.len() - i,
    {
        proof {
            lemma_count_step(m.tasks@, |t: crate::model::Task| t.added, i as int);
            lemma_count_le(m.tasks@.take(i as int), |t: crate::model::Task| t.added);
        }
        if m.tasks[i].added {
            n = n + 1;
        }
        i = i + 1;
    }
    assert(m.tasks@.take(m.tasks.len() as int) =~= m.tasks@);
    n
}

fn count_done(m: &Module) -> (r: usize)
    ensures
        r == done_tasks(m.tasks@),
{
    let mut n: usize = 0;
    let mut i: usize = 0;
    while i < m.tasks.len()
        invariant
            i <= m.tasks@.len(),
            n == done_tasks(m.tasks@.take(i as int)),
            n <= i,
        decreases m.tasks.len() - i,
    {
        proof {
            reveal(Seq::filter);
            assert(m.tasks@.take(i + 1).drop_last() =~= m.tasks@.take(i as int));
        }
        if m.tasks[i].done {
            n = n + 1;
        }
        i = i + 1;
    }
    assert(m.tasks@.take(m.tasks.len() as int) =~= m.tasks@);
    n
}

/// What the drawer shows of the module at `mi` in the feature at `fi`:
/// its path, name, status and holder, its description and summary
/// trimmed, the stat grid, its prerequisites, and its history once the
/// drawer read has landed.
pub fn module_panel(cur: &Current, fi: usize, mi: usize) -> (r: ModulePanelFacts)
    requires
        fi < cur.features@.len(),
        mi < cur.features@[fi as int].modules@.len(),
    ensures
        ({
            let f = cur.features@[fi as int];
            let m = f.modules@[mi as int];
            &&& r.path@ == f.name@ + "  \u{25b8}  Module"@
            &&& r.name@ == m.name@
            &&& r.status == m.status
            &&& r.agent@ == m.agent@
            &&& r.description@ == trimmed(m.description@)
            &&& module_cells(m, r.cells@)
            &&& r.task_label@ == dec(done_tasks(m.tasks@)) + " of "@ + dec(m.tasks@.len()) + " checked off"@
            &&& r.prereqs@ == prereqs_of(f, m.depends_on@, m.waiting_on@)
            &&& r.summary@ == crate::reads::text_or_empty(m.summary)
            &&& r.detail_loaded == (first_where(cur.modules@, module_read_with(m.id@)) is Some)
            &&& match first_where(cur.modules@, module_read_with(m.id@)) {
                Some(k) => {
                    let h = cur.modules@[k].1.history@;
                    &&& r.history@.len() == h.len()
                    &&& forall|i: int| 0 <= i < h.len() ==> #[trigger] history_row(h[i], r.history@[i])
                },
                None => r.history@.len() == 0,
            }
        }),
{
    let f = &cur.features[fi];
    let m = &f.modules[mi];
    let mut path = f.name.clone();
    path.append("  \u{25b8}  Module");
    let done = count_done(m);
    let total = m.tasks.len();
    let added = count_added(m);
    let mut column = String::from_str("column ");
    push_decimal(&mut column, m.depth as u128);
    let spawned = if m.spawned.as_str().is_empty() {
        String::from_str("not spawned")
    } else {
        m.spawned.clone()
    };
    let mut tasks_done = decimal_of(done);
    tasks_done.append(" / ");
    let totals = decimal_of(total);
    tasks_done.append(totals.as_str());
    let mut cells: Vec<StatCellProps> = Vec::new();
    cells.push(StatCellProps { label: "depth", value: column });
    cells.push(StatCellProps { label: "spawned", value: spawned });
    cells.push(StatCellProps { label: "tasks done", value: tasks_done });
    cells.push(StatCellProps { label: "agent-added", value: decimal_of(added) });
    let mut task_label = decimal_of(done);
    task_label.append(" of ");
    task_label.append(totals.as_str());
    task_label.append(" checked off");
    let mut prereqs: Vec<(usize, bool)> = Vec::new();
    let mut i: usize = 0;
    while i < m.depends_on.len()
        invariant
            i <= m.depends_on@.len(),
            prereqs@ == prereqs_of(*f, m.depends_on@.take(i as int), m.waiting_on@),
        decreases m.depends_on.len() - i,
    {
        proof {
            assert(m.depends_on@.take(i + 1).drop_last() =~= m.depends_on@.take(i as int));
        }
        match f.module_index(m.depends_on[i].as_str()) {
            Some(k) => {
                let waiting = waits_on(&m.waiting_on, f.modules[k].id.as_str());
                prereqs.push((k, waiting));
            },
            None => {},
        }
        i = i + 1;
    }
    assert(m.depends_on@.take(m.depends_on.len() as int) =~= m.depends_on@);
    let summary = match &m.summary {
        Some(s) => s.clone(),
        None => String::new(),
    };
    let detail = crate::cache::module_detail(cur, m.id.as_str());
    let (detail_loaded, history) = match detail {
        Some(d) => (true, history_rows(&d.history)),
        None => (false, Vec::new()),
    };
    ModulePanelFacts {
        path,
        name: m.name.clone(),
        status: m.status,
        agent: m.agent.clone(),
        description: trim(m.description.as_str()),
        cells,
        task_label,
        prereqs,
        summary,
        detail_loaded,
        history,
    }
}

} // verus!
