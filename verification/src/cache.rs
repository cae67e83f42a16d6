//! The live cache: what the console has read, and what it rebuilds for
//! the screen after each read lands. Every write is guarded by a
//! comparison with what is held, so a poll that returns the same data
//! changes nothing.
use std::rc::Rc;
use vstd::prelude::*;

use crate::feed::{fresh_feed, merge_page, merged_events, merged_exhausted, feed_differs, newest_first};
use crate::model::{
    Attachment, AgentRow, Comment, Document, EventItem, Feature, Feed, Module, Question, RoadEdge,
    Roadmap, Status, TagRow, Want, WantSource, Word, clone_event, first_open_of, share, same_want,
};
use crate::reads::{
    count, count_of, map_agents, map_attachments, map_comments, map_events, map_histories,
    map_modules, map_opt_document, map_opt_edge, map_opt_word, map_questions, map_road_features,
    map_road_items, map_sources, map_tags, map_want, map_wants, map_edges, maps_agents,
    maps_attachments, maps_comments, maps_edges, maps_events, maps_histories, maps_modules,
    maps_opt_document, maps_opt_edge, maps_opt_word, maps_questions, maps_road_features,
    maps_road_items, maps_sources, maps_tags, maps_want, maps_wants,
};
use crate::seqs::{
    first_where, is_first, lemma_first_found, lemma_first_is_first, lemma_found_where_stored,
    lemma_none_found, store_place, stored_at,
};
use crate::text::{dec, joined, join, push_decimal, same_text};
use crate::wire::{
    AttentionDto, Board, CommentPage, EventPage, FeatureDetail, FeatureRollupDto, RoadmapDto,
    WantDto, WantPage, eq_board, eq_comment_page, eq_feature_detail, eq_module_detail,
    eq_roadmap_dto, eq_want_dto, eq_want_page, same_board, same_comment_page,
    same_feature_detail, same_module_detail, same_roadmap_dto, same_want_dto, same_want_page,
};
use crate::model;
use crate::wire;

verus! {

// ---------------------------------------------------------------------
// What is held
// ---------------------------------------------------------------------

/// One feature's detail as mapped from the wire, shared by reference
/// into every [`Feature`] rebuilt from the board.
pub struct Detail {
    pub raw: FeatureDetail,
    pub description: String,
    pub modules: Rc<Vec<Module>>,
    pub whitepaper: Option<Rc<Document>>,
    pub sources: Rc<Vec<WantSource>>,
    pub attachments: Rc<Vec<Attachment>>,
    pub open_questions: Rc<Vec<Question>>,
}

/// Where an [`Attention`] row goes when it is opened.
#[derive(Clone, Debug, PartialEq, Eq, Default)]
pub enum AttentionTarget {
    /// A module drawer: `(feature index, module id)`. The module is
    /// addressed by id because its feature's graph may not be loaded
    /// yet when the row is pressed.
    Module(usize, String),
    /// The want pool screen.
    #[default]
    Pool,
    /// An open question: `(level, subject id, feature id)`.
    Question(String, String, String),
}

/// One row on the overview's attention list: a current condition —
/// a claim still bouncing off a gate, a module still waiting on its
/// manager, a question still owed, ideas still uncomposed — never the
/// memory of one that has since cleared.
#[derive(Debug, Default)]
pub struct Attention {
    /// Short kind word for the row's pill.
    pub kind: &'static str,
    /// Status whose tone colors the row.
    pub status: Status,
    /// What is stuck, in one line.
    pub title: String,
    /// Where it is stuck — the feature's name, or the pool's.
    pub place: String,
    /// What opening the row goes to.
    pub target: AttentionTarget,
}

/// Everything the console has read, and the rows rebuilt from it.
pub struct Current {
    /// The newest board, its clock taken off.
    pub board: Option<Board>,
    /// The server's clock minus this process's, in seconds, from the
    /// newest board. Every liveness reading is taken against the
    /// server's idea of now.
    pub clock_offset: Option<i64>,
    pub project_name: String,
    pub features: Rc<Vec<Feature>>,
    pub agents: Rc<Vec<AgentRow>>,
    pub tags: Rc<Vec<TagRow>>,
    pub attention: Rc<Vec<Attention>>,
    pub recent: Rc<Vec<EventItem>>,
    /// `(loose, composed, declined)`.
    pub want_counts: (usize, usize, usize),
    /// Feature details, keyed by the read's id.
    pub details: Vec<Detail>,
    /// Module drawer reads, keyed by the read's id.
    pub modules: Vec<(wire::ModuleDetail, Rc<model::ModuleDetail>)>,
    /// Feeds, keyed by feature id.
    pub feeds: Vec<(String, Rc<Feed>)>,
    /// The page of the pool the wants screen is showing.
    pub want_page: Option<WantPage>,
    pub wants: Rc<Vec<Want>>,
    pub want_total: usize,
    /// The idea whose drawer is open, whatever page it is on.
    pub open_want: Option<(WantDto, Want)>,
    /// Discussions, keyed by the page's subject id.
    pub threads: Vec<(CommentPage, Rc<Vec<Comment>>)>,
    /// Every open question in the project, oldest first.
    pub questions: Rc<Vec<Question>>,
    /// The name this console's writes are recorded under.
    pub you: String,
    /// The roadmap, as far as it has been read.
    pub roadmap_raw: Option<RoadmapDto>,
    pub roadmap: Rc<Roadmap>,
    /// Whether the board has arrived at least once.
    pub loaded: bool,
}

/// Without a board the cache holds no feature rows and no attention
/// rows: rows are only ever built over a board.
pub open spec fn rows_need_board(c: Current) -> bool {
    c.board is None ==> c.features@.len() == 0 && c.attention@.len() == 0
}

impl Current {
    /// Nothing read yet.
    pub fn new() -> (r: Current)
        ensures
            r.board is None,
            r.clock_offset is None,
            r.project_name@ == "control-center"@,
            r.features@.len() == 0,
            r.agents@.len() == 0,
            r.tags@.len() == 0,
            r.attention@.len() == 0,
            r.recent@.len() == 0,
            r.want_counts == (0usize, 0usize, 0usize),
            r.details@.len() == 0,
            r.modules@.len() == 0,
            r.feeds@.len() == 0,
            r.want_page is None,
            r.wants@.len() == 0,
            r.want_total == 0,
            r.open_want is None,
            r.threads@.len() == 0,
            r.questions@.len() == 0,
            r.you@.len() == 0,
            r.roadmap_raw is None,
            r.roadmap.items@.len() == 0,
            r.roadmap.loose_features@.len() == 0,
            !r.loaded,
            rows_need_board(r),
    {
        Current {
            board: None,
            clock_offset: None,
            project_name: String::from_str("control-center"),
            features: Rc::new(Vec::new()),
            agents: Rc::new(Vec::new()),
            tags: Rc::new(Vec::new()),
            attention: Rc::new(Vec::new()),
            recent: Rc::new(Vec::new()),
            want_counts: (0, 0, 0),
            details: Vec::new(),
            modules: Vec::new(),
            feeds: Vec::new(),
            want_page: None,
            wants: Rc::new(Vec::new()),
            want_total: 0,
            open_want: None,
            threads: Vec::new(),
            questions: Rc::new(Vec::new()),
            you: String::new(),
            roadmap_raw: None,
            roadmap: Rc::new(Roadmap { items: Vec::new(), loose_features: Vec::new() }),
            loaded: false,
        }
    }
}

// ---------------------------------------------------------------------
// Keys
// ---------------------------------------------------------------------

/// The feature with this id.
pub open spec fn feature_with(id: Seq<char>) -> spec_fn(Feature) -> bool {
    |f: Feature| f.id@ == id
}

/// The detail read for this feature id.
pub open spec fn detail_with(id: Seq<char>) -> spec_fn(Detail) -> bool {
    |d: Detail| d.raw.id@ == id
}

/// The drawer read for this module id.
pub open spec fn module_read_with(id: Seq<char>) -> spec_fn(
    (wire::ModuleDetail, Rc<model::ModuleDetail>),
) -> bool {
    |e: (wire::ModuleDetail, Rc<model::ModuleDetail>)| e.0.id@ == id
}

/// The feed of this feature id.
pub open spec fn feed_with(id: Seq<char>) -> spec_fn((String, Rc<Feed>)) -> bool {
    |e: (String, Rc<Feed>)| e.0@ == id
}

/// The discussion of this subject id.
pub open spec fn thread_with(id: Seq<char>) -> spec_fn((CommentPage, Rc<Vec<Comment>>)) -> bool {
    |e: (CommentPage, Rc<Vec<Comment>>)| e.0.subject_id@ == id
}

/// The detail held for a feature id, if any.
pub open spec fn detail_for(ds: Seq<Detail>, id: Seq<char>) -> Option<Detail> {
    match first_where(ds, detail_with(id)) {
        Some(k) => Some(ds[k]),
        None => None,
    }
}

fn find_detail(ds: &Vec<Detail>, id: &str) -> (r: Option<usize>)
    ensures
        match first_where(ds@, detail_with(id@)) {
            Some(k) => r is Some && r->0 == k,
            None => r is None,
        },
{
    let mut k: usize = 0;
    while k < ds.len()
        invariant
            k <= ds@.len(),
            forall|j: int| 0 <= j < k ==> !(#[trigger] detail_with(id@)(ds@[j])),
        decreases ds.len() - k,
    {
        if same_text(ds[k].raw.id.as_str(), id) {
            proof {
                lemma_first_found(ds@, detail_with(id@), k as int);
            }
            return Some(k);
        }
        k = k + 1;
    }
    proof {
        lemma_none_found(ds@, detail_with(id@));
    }
    None
}

fn find_module_read(ms: &Vec<(wire::ModuleDetail, Rc<model::ModuleDetail>)>, id: &str) -> (r: Option<usize>)
    ensures
        match first_where(ms@, module_read_with(id@)) {
            Some(k) => r is Some && r->0 == k,
            None => r is None,
        },
{
    let mut k: usize = 0;
    while k < ms.len()
        invariant
            k <= ms@.len(),
            forall|j: int| 0 <= j < k ==> !(#[trigger] module_read_with(id@)(ms@[j])),
        decreases ms.len() - k,
    {
        if same_text(ms[k].0.id.as_str(), id) {
            proof {
                lemma_first_found(ms@, module_read_with(id@), k as int);
            }
            return Some(k);
        }
        k = k + 1;
    }
    proof {
        lemma_none_found(ms@, module_read_with(id@));
    }
    None
}

fn find_feed(fs: &Vec<(String, Rc<Feed>)>, id: &str) -> (r: Option<usize>)
    ensures
        match first_where(fs@, feed_with(id@)) {
            Some(k) => r is Some && r->0 == k,
            None => r is None,
        },
{
    let mut k: usize = 0;
    while k < fs.len()
        invariant
            k <= fs@.len(),
            forall|j: int| 0 <= j < k ==> !(#[trigger] feed_with(id@)(fs@[j])),
        decreases fs.len() - k,
    {
        if same_text(fs[k].0.as_str(), id) {
            proof {
                lemma_first_found(fs@, feed_with(id@), k as int);
            }
            return Some(k);
        }
        k = k + 1;
    }
    proof {
        lemma_none_found(fs@, feed_with(id@));
    }
    None
}

fn find_thread(ts: &Vec<(CommentPage, Rc<Vec<Comment>>)>, id: &str) -> (r: Option<usize>)
    ensures
        match first_where(ts@, thread_with(id@)) {
            Some(k) => r is Some && r->0 == k,
            None => r is None,
        },
{
    let mut k: usize = 0;
    while k < ts.len()
        invariant
            k <= ts@.len(),
            forall|j: int| 0 <= j < k ==> !(#[trigger] thread_with(id@)(ts@[j])),
        decreases ts.len() - k,
    {
        if same_text(ts[k].0.subject_id.as_str(), id) {
            proof {
                lemma_first_found(ts@, thread_with(id@), k as int);
            }
            return Some(k);
        }
        k = k + 1;
    }
    proof {
        lemma_none_found(ts@, thread_with(id@));
    }
    None
}

fn find_feature(fs: &Vec<Feature>, id: &str) -> (r: Option<usize>)
    ensures
        match first_where(fs@, feature_with(id@)) {
            Some(k) => r is Some && r->0 == k,
            None => r is None,
        },
{
    let mut k: usize = 0;
    while k < fs.len()
        invariant
            k <= fs@.len(),
            forall|j: int| 0 <= j < k ==> !(#[trigger] feature_with(id@)(fs@[j])),
        decreases fs.len() - k,
    {
        if same_text(fs[k].id.as_str(), id) {
            proof {
                lemma_first_found(fs@, feature_with(id@), k as int);
            }
            return Some(k);
        }
        k = k + 1;
    }
    proof {
        lemma_none_found(fs@, feature_with(id@));
    }
    None
}

// ---------------------------------------------------------------------
// Reading the cache
// ---------------------------------------------------------------------

/// Every feature, oldest first, with its graph once visited.
pub fn features(cur: &Current) -> (r: Rc<Vec<Feature>>)
    ensures
        r == cur.features,
{
    share(&cur.features)
}

/// Now, as Unix seconds on the SERVER's clock: this process's clock
/// (`local`) plus the offset the newest board established. Before any
/// board has arrived the local clock stands in.
pub fn now_secs(cur: &Current, local: i64) -> (r: i64)
    requires
        i64::MIN <= local + match cur.clock_offset {
            Some(o) => o as int,
            None => 0,
        } <= i64::MAX,
    ensures
        r == local + match cur.clock_offset {
            Some(o) => o as int,
            None => 0,
        },
{
    match cur.clock_offset {
        Some(o) => local + o,
        None => local,
    }
}

/// The feature at `index`'s id, or `None` past the end.
pub fn feature_id_at(cur: &Current, index: usize) -> (r: Option<String>)
    ensures
        index < cur.features@.len() ==> r is Some && r->0@ == cur.features@[index as int].id@,
        index >= cur.features@.len() ==> r is None,
{
    if index < cur.features.len() {
        Some(cur.features[index].id.clone())
    } else {
        None
    }
}

/// Whether a feature's detail has been read.
pub fn has_detail(cur: &Current, feature_id: &str) -> (r: bool)
    ensures
        r == (first_where(cur.details@, detail_with(feature_id@)) is Some),
{
    find_detail(&cur.details, feature_id).is_some()
}

/// A module's drawer contents, once [`apply_module`] has landed them.
pub fn module_detail(cur: &Current, module_id: &str) -> (r: Option<Rc<model::ModuleDetail>>)
    ensures
        match first_where(cur.modules@, module_read_with(module_id@)) {
            Some(k) => r == Some(cur.modules@[k].1),
            None => r is None,
        },
{
    match find_module_read(&cur.modules, module_id) {
        Some(k) => Some(share(&cur.modules[k].1)),
        None => None,
    }
}

/// Whether a subject's discussion has been read at all.
pub fn has_thread(cur: &Current, subject_id: &str) -> (r: bool)
    ensures
        r == (first_where(cur.threads@, thread_with(subject_id@)) is Some),
{
    find_thread(&cur.threads, subject_id).is_some()
}

/// A comment with this id is in one of the discussions held.
pub open spec fn comment_held(threads: Seq<(CommentPage, Rc<Vec<Comment>>)>, id: Seq<char>) -> bool {
    exists|t: int, j: int|
        0 <= t < threads.len() && 0 <= j < threads[t].1@.len() && (#[trigger] threads[t].1@[j]).id@
            == id
}

/// The comment at place `j` of discussion `t` is the first with this id,
/// taking the discussions in the order they are held.
pub open spec fn first_comment_at(threads: Seq<(CommentPage, Rc<Vec<Comment>>)>, id: Seq<char>, t: int, j: int) -> bool {
    &&& 0 <= t < threads.len()
    &&& 0 <= j < threads[t].1@.len()
    &&& threads[t].1@[j].id@ == id
    &&& forall|a: int, q: int|
        0 <= a < threads.len() && 0 <= q < threads[a].1@.len() && (a < t || (a == t && q < j)) ==> (
        #[trigger] threads[a].1@[q]).id@ != id
}

/// One comment by id, from the discussions on screen: the first one
/// held, when two discussions hold the same id.
pub fn comment_by_id(cur: &Current, id: &str) -> (r: Option<Comment>)
    ensures
        r is None <==> !comment_held(cur.threads@, id@),
        r matches Some(c) ==> c.id@ == id@ && exists|t: int, j: int|
            first_comment_at(cur.threads@, id@, t, j) && model::same_comment(c, #[trigger] cur.threads@[t].1@[j]),
{
    let mut t: usize = 0;
    while t < cur.threads.len()
        invariant
            t <= cur.threads@.len(),
            forall|a: int, j: int|
                0 <= a < t && 0 <= j < cur.threads@[a].1@.len() ==> (
                #[trigger] cur.threads@[a].1@[j]).id@ != id@,
        decreases cur.threads.len() - t,
    {
        let list: &Vec<Comment> = &*cur.threads[t].1;
        let mut j: usize = 0;
        while j < list.len()
            invariant
                *list == *cur.threads@[t as int].1,
                t < cur.threads@.len(),
                j <= list@.len(),
                forall|q: int| 0 <= q < j ==> (#[trigger] list@[q]).id@ != id@,
                forall|a: int, q: int|
                    0 <= a < t && 0 <= q < cur.threads@[a].1@.len() ==> (
                    #[trigger] cur.threads@[a].1@[q]).id@ != id@,
            decreases list.len() - j,
        {
            if same_text(list[j].id.as_str(), id) {
                let c = list[j].clone();
                assert(model::same_comment(c, cur.threads@[t as int].1@[j as int]));
                assert(first_comment_at(cur.threads@, id@, t as int, j as int));
                return Some(c);
            }
            j = j + 1;
        }
        t = t + 1;
    }
    None
}

/// The name this console's writes are recorded under.
pub fn you(cur: &Current) -> (r: String)
    ensures
        r@ == cur.you@,
{
    cur.you.clone()
}

/// A feature's ledger as far as it has been read.
pub fn feed(cur: &Current, feature_id: &str) -> (r: Option<Rc<Feed>>)
    ensures
        match first_where(cur.feeds@, feed_with(feature_id@)) {
            Some(k) => r == Some(cur.feeds@[k].1),
            None => r is None,
        },
{
    match find_feed(&cur.feeds, feature_id) {
        Some(k) => Some(share(&cur.feeds[k].1)),
        None => None,
    }
}

/// The first feature still in play, for the console to land on.
/// Without it the console would open on the oldest feature, almost
/// certainly a finished one.
pub fn first_open_feature(cur: &Current) -> (r: Option<usize>)
    ensures
        match first_where(cur.features@, |f: Feature| model::in_play(f)) {
            Some(k) => r is Some && r->0 == k,
            None => r is None,
        },
{
    first_open_of(cur.features.as_slice())
}

/// The page of the pool the wants screen is showing.
pub fn wants(cur: &Current) -> (r: Rc<Vec<Want>>)
    ensures
        r == cur.wants,
{
    share(&cur.wants)
}

/// The want with this id.
pub open spec fn want_with(id: Seq<char>) -> spec_fn(Want) -> bool {
    |w: Want| w.id@ == id
}

/// The want a lookup by id finds: the open one when it is the one,
/// else the first on the page on screen.
pub open spec fn want_shown(c: Current, id: Seq<char>) -> Option<Want> {
    match c.open_want {
        Some(o) => if o.1.id@ == id {
            Some(o.1)
        } else {
            page_want(c.wants@, id)
        },
        None => page_want(c.wants@, id),
    }
}

/// The first want with the id on the page.
pub open spec fn page_want(ws: Seq<Want>, id: Seq<char>) -> Option<Want> {
    match first_where(ws, want_with(id)) {
        Some(k) => Some(ws[k]),
        None => None,
    }
}

/// What a lookup on the page on screen gives: a copy of the first want
/// with the id, if any.
pub open spec fn found_on_page(ws: Seq<Want>, id: Seq<char>, r: Option<Want>) -> bool {
    match first_where(ws, want_with(id)) {
        Some(k) => r matches Some(w) && same_want(w, ws[k]),
        None => r is None,
    }
}

/// One idea by id: the one whose drawer is open, else from the page on
/// screen. The open one first because it is the fuller read — it
/// carries the want's files — and because an origin list can open onto
/// an idea no loaded page holds.
pub fn want_by_id(cur: &Current, id: &str) -> (r: Option<Want>)
    ensures
        match cur.open_want {
            Some(o) => if o.1.id@ == id@ {
                r matches Some(w) && same_want(w, o.1)
            } else {
                found_on_page(cur.wants@, id@, r)
            },
            None => found_on_page(cur.wants@, id@, r),
        },
{
    if let Some(o) = &cur.open_want {
        if same_text(o.1.id.as_str(), id) {
            return Some(o.1.clone());
        }
    }
    let ws: &Vec<Want> = &*cur.wants;
    let mut k: usize = 0;
    while k < ws.len()
        invariant
            *ws == *cur.wants,
            k <= ws@.len(),
            match cur.open_want {
                Some(o) => o.1.id@ != id@,
                None => true,
            },
            forall|j: int| 0 <= j < k ==> !(#[trigger] want_with(id@)(ws@[j])),
        decreases ws.len() - k,
    {
        if same_text(ws[k].id.as_str(), id) {
            proof {
                lemma_first_found(ws@, want_with(id@), k as int);
            }
            return Some(ws[k].clone());
        }
        k = k + 1;
    }
    proof {
        lemma_none_found(ws@, want_with(id@));
    }
    None
}

/// The attachment with this id.
pub open spec fn attachment_with(id: Seq<char>) -> spec_fn(Attachment) -> bool {
    |a: Attachment| a.id@ == id
}

/// The first attachment with this id on the features' lists, in order.
pub open spec fn first_feature_attachment(fs: Seq<Feature>, id: Seq<char>) -> Option<Attachment>
    decreases fs.len(),
{
    if fs.len() == 0 {
        None
    } else {
        match first_feature_attachment(fs.drop_last(), id) {
            Some(a) => Some(a),
            None => match first_where(fs.last().attachments@, attachment_with(id)) {
                Some(k) => Some(fs.last().attachments@[k]),
                None => None,
            },
        }
    }
}

/// One attachment by id, wherever it is on screen: on a feature's list
/// (its own or a source want's), else on the open want.
pub fn attachment_by_id(cur: &Current, id: &str) -> (r: Option<Attachment>)
    ensures
        match first_feature_attachment(cur.features@, id@) {
            Some(a) => r == Some(a),
            None => match cur.open_want {
                Some(o) => match first_where(o.1.attachments@, attachment_with(id@)) {
                    Some(k) => r == Some(o.1.attachments@[k]),
                    None => r is None,
                },
                None => r is None,
            },
        },
{
    let fs: &Vec<Feature> = &*cur.features;
    let mut i: usize = 0;
    while i < fs.len()
        invariant
            *fs == *cur.features,
            i <= fs@.len(),
            first_feature_attachment(fs@.take(i as int), id@) is None,
        decreases fs.len() - i,
    {
        assert(fs@.take(i + 1).drop_last() =~= fs@.take(i as int));
        let list: &Vec<Attachment> = &*fs[i].attachments;
        let mut k: usize = 0;
        while k < list.len()
            invariant
                *list == *fs@[i as int].attachments,
                *fs == *cur.features,
                i < fs@.len(),
                first_feature_attachment(fs@.take(i as int), id@) is None,
                k <= list@.len(),
                forall|j: int| 0 <= j < k ==> !(#[trigger] attachment_with(id@)(list@[j])),
            decreases list.len() - k,
        {
            if same_text(list[k].id.as_str(), id) {
                proof {
                    lemma_first_found(list@, attachment_with(id@), k as int);
                    assert(fs@.take(i + 1).drop_last() =~= fs@.take(i as int));
                    assert(fs@.take(i + 1).last() == fs@[i as int]);
                    assert(first_feature_attachment(fs@.take(i + 1), id@) == Some(list@[k as int]));
                    lemma_first_feature_attachment_prefix(fs@, id@, i + 1);
                }
                let a = list[k].clone();
                assert(a == list@[k as int]);
                return Some(a);
            }
            k = k + 1;
        }
        proof {
            lemma_none_found(list@, attachment_with(id@));
        }
        i = i + 1;
    }
    assert(fs@.take(fs.len() as int) =~= fs@);
    match &cur.open_want {
        Some(o) => {
            let list = &o.1.attachments;
            let mut k: usize = 0;
            while k < list.len()
                invariant
                    k <= list@.len(),
                    cur.open_want == Some(*o),
                    *list == o.1.attachments,
                    first_feature_attachment(cur.features@, id@) is None,
                    forall|j: int| 0 <= j < k ==> !(#[trigger] attachment_with(id@)(list@[j])),
                decreases list.len() - k,
            {
                if same_text(list[k].id.as_str(), id) {
                    proof {
                        lemma_first_found(list@, attachment_with(id@), k as int);
                    }
                    let a = list[k].clone();
                    assert(a == list@[k as int]);
                    return Some(a);
                }
                k = k + 1;
            }
            proof {
                lemma_none_found(list@, attachment_with(id@));
            }
            None
        },
        None => None,
    }
}

/// The attachment a lookup by id finds: the first on the features'
/// lists, else the first on the open want.
pub open spec fn attachment_shown(c: Current, id: Seq<char>) -> Option<Attachment> {
    match first_feature_attachment(c.features@, id) {
        Some(a) => Some(a),
        None => match c.open_want {
            Some(o) => match first_where(o.1.attachments@, attachment_with(id)) {
                Some(k) => Some(o.1.attachments@[k]),
                None => None,
            },
            None => None,
        },
    }
}

/// A match in a prefix is the match of the whole list.
proof fn lemma_first_feature_attachment_prefix(fs: Seq<Feature>, id: Seq<char>, n: int)
    requires
        0 <= n <= fs.len(),
        first_feature_attachment(fs.take(n), id) is Some,
    ensures
        first_feature_attachment(fs, id) == first_feature_attachment(fs.take(n), id),
    decreases fs.len() - n,
{
    if n < fs.len() {
        assert(fs.take(n + 1).drop_last() =~= fs.take(n));
        lemma_first_feature_attachment_prefix(fs, id, n + 1);
    } else {
        assert(fs.take(n) =~= fs);
    }
}

/// The tag registry, most-used first.
pub fn tags(cur: &Current) -> (r: Rc<Vec<TagRow>>)
    ensures
        r == cur.tags,
{
    share(&cur.tags)
}

/// Just the slugs — what `#tag` completion and highlighting match on.
pub fn tag_names(cur: &Current) -> (r: Vec<String>)
    ensures
        r.deep_view() == cur.tags@.map_values(|t: TagRow| t.name@),
{
    let ts: &Vec<TagRow> = &*cur.tags;
    let mut out: Vec<String> = Vec::new();
    let mut i: usize = 0;
    while i < ts.len()
        invariant
            *ts == *cur.tags,
            i <= ts@.len(),
            out.deep_view() == ts@.take(i as int).map_values(|t: TagRow| t.name@),
        decreases ts.len() - i,
    {
        let ghost before = out.deep_view();
        out.push(ts[i].name.clone());
        assert(out.deep_view() =~= before.push(ts@[i as int].name@));
        assert(out.deep_view() =~= ts@.take(i + 1).map_values(|t: TagRow| t.name@));
        i = i + 1;
    }
    assert(ts@.take(ts.len() as int) =~= ts@);
    out
}

/// Whether the board has arrived at least once (distinguishes
/// "connecting" from "the project genuinely has no features yet").
pub fn loaded(cur: &Current) -> (r: bool)
    ensures
        r == cur.loaded,
{
    cur.loaded
}

/// The roadmap as last read.
pub fn roadmap(cur: &Current) -> (r: Rc<Roadmap>)
    ensures
        r == cur.roadmap,
{
    share(&cur.roadmap)
}

// ---------------------------------------------------------------------
// Rebuilding the screen's rows
// ---------------------------------------------------------------------

/// A feature's status word on the board.
pub open spec fn feature_status_of(s: Seq<char>) -> Status {
    if s == "done"@ {
        Status::Done
    } else if s == "in_progress"@ {
        Status::Running
    } else if s == "shelved"@ {
        Status::Queued
    } else {
        Status::Planning
    }
}

/// When a feature ran: a dash before it started, one stamp while the
/// two agree or the second is missing, else `start → last`.
pub open spec fn elapsed_text(started: Seq<char>, last: Seq<char>) -> Seq<char> {
    if started.len() == 0 {
        "\u{2014}"@
    } else if started == last || last.len() == 0 {
        started
    } else {
        started + " \u{2192} "@ + last
    }
}

/// A feature's row: the board's rollup, with its detail once read. The
/// counts come from the board and not from the module list, so a row
/// is right before its detail has loaded.
pub open spec fn feature_row(r: FeatureRollupDto, d: Option<Detail>, f: Feature) -> bool {
    &&& f.id@ == r.id@
    &&& f.name@ == r.name@
    &&& f.status == feature_status_of(r.status@)
    &&& f.shelved == (r.status@ == "shelved"@)
    &&& f.agent@ == (match r.created_by {
        Some(a) => a@,
        None => "\u{2014}"@,
    })
    &&& f.elapsed@ == elapsed_text(r.started@, r.last_activity@)
    &&& f.modules_done == count_of(r.modules_done)
    &&& f.modules_total == count_of(r.modules_total)
    &&& f.modules_ready == count_of(r.modules_ready)
    &&& f.tasks_done == count_of(r.tasks_done)
    &&& f.tasks_total == count_of(r.tasks_total)
    &&& f.tasks_added == count_of(r.tasks_added)
    &&& maps_opt_word(r.last_word, f.last_word)
    &&& f.modules_running == count_of(r.modules_running)
    &&& f.last_heard == r.last_heard
    &&& maps_opt_edge(r.roadmap_item, f.roadmap_item)
    &&& f.released@ == r.released@
    &&& maps_edges(r.held_by@, f.held_by@)
    &&& match d {
        Some(x) => {
            &&& f.detail_loaded
            &&& f.description@ == x.description@
            &&& f.modules == x.modules
            &&& f.whitepaper == x.whitepaper
            &&& f.sources == x.sources
            &&& f.attachments == x.attachments
            &&& f.open_questions == x.open_questions
        },
        None => {
            &&& !f.detail_loaded
            &&& f.description@.len() == 0
            &&& f.modules@.len() == 0
            &&& f.whitepaper is None
            &&& f.sources@.len() == 0
            &&& f.attachments@.len() == 0
            &&& f.open_questions@.len() == 0
        },
    }
}

/// The feature list: one row per board rollup, in the board's order.
pub open spec fn features_of(rows: Seq<FeatureRollupDto>, ds: Seq<Detail>, fs: Seq<Feature>) -> bool {
    &&& fs.len() == rows.len()
    &&& forall|i: int|
        0 <= i < rows.len() ==> #[trigger] feature_row(rows[i], detail_for(ds, rows[i].id@), fs[i])
}

fn elapsed_of(started: &String, last: &String) -> (r: String)
    ensures
        r@ == elapsed_text(started@, last@),
{
    if started.as_str().is_empty() {
        String::from_str("\u{2014}")
    } else if same_text(started.as_str(), last.as_str()) || last.as_str().is_empty() {
        started.clone()
    } else {
        let mut out = started.clone();
        out.append(" \u{2192} ");
        out.append(last.as_str());
        out
    }
}

fn feature_from(r: &FeatureRollupDto, ds: &Vec<Detail>) -> (f: Feature)
    ensures
        feature_row(*r, detail_for(ds@, r.id@), f),
{
    let found = find_detail(ds, r.id.as_str());
    let status = if same_text(r.status.as_str(), "done") {
        Status::Done
    } else if same_text(r.status.as_str(), "in_progress") {
        Status::Running
    } else if same_text(r.status.as_str(), "shelved") {
        Status::Queued
    } else {
        Status::Planning
    };
    let agent = match &r.created_by {
        Some(a) => a.clone(),
        None => String::from_str("\u{2014}"),
    };
    let (description, detail_loaded, modules, whitepaper, sources, attachments, open_questions) =
        match found {
        Some(k) => {
            let d = &ds[k];
            (
                d.description.clone(),
                true,
                share(&d.modules),
                match &d.whitepaper {
                    Some(w) => Some(share(w)),
                    None => None,
                },
                share(&d.sources),
                share(&d.attachments),
                share(&d.open_questions),
            )
        },
        None => (
            String::new(),
            false,
            Rc::new(Vec::new()),
            None,
            Rc::new(Vec::new()),
            Rc::new(Vec::new()),
            Rc::new(Vec::new()),
        ),
    };
    Feature {
        id: r.id.clone(),
        name: r.name.clone(),
        description,
        status,
        shelved: same_text(r.status.as_str(), "shelved"),
        agent,
        elapsed: elapsed_of(&r.started, &r.last_activity),
        modules_done: count(r.modules_done),
        modules_total: count(r.modules_total),
        modules_ready: count(r.modules_ready),
        tasks_done: count(r.tasks_done),
        tasks_total: count(r.tasks_total),
        tasks_added: count(r.tasks_added),
        detail_loaded,
        modules,
        whitepaper,
        sources,
        attachments,
        open_questions,
        last_word: map_opt_word(&r.last_word),
        modules_running: count(r.modules_running),
        last_heard: r.last_heard,
        roadmap_item: map_opt_edge(&r.roadmap_item),
        released: r.released.clone(),
        held_by: map_edges(&r.held_by),
    }
}

/// The flagged rows whose feature is on the board, each with that
/// feature's place.
pub open spec fn placed(rows: Seq<AttentionDto>, fs: Seq<Feature>) -> Seq<(AttentionDto, int)>
    decreases rows.len(),
{
    if rows.len() == 0 {
        Seq::empty()
    } else {
        let before = placed(rows.drop_last(), fs);
        match first_where(fs, feature_with(rows.last().feature_id@)) {
            Some(k) => before.push((rows.last(), k)),
            None => before,
        }
    }
}

/// What a flagged module row says: a claim the server bounced, or a
/// module waiting on its manager.
pub open spec fn flag_title(a: AttentionDto) -> Seq<char> {
    if a.kind@ == "rejected"@ {
        "Claim on "@ + a.module_name@ + " denied \u{2014} "@ + if a.waiting_on@.len() == 0 {
            "its prerequisites are done now"@
        } else {
            "waiting on "@ + joined(a.waiting_on.deep_view(), ", "@)
        }
    } else {
        a.module_name@ + " is blocked, waiting on the manager"@
    }
}

/// A flagged module as an attention row, opening its drawer.
pub open spec fn flag_row(a: AttentionDto, k: int, row: Attention) -> bool {
    &&& row.kind@ == (if a.kind@ == "rejected"@ {
        "gate"@
    } else {
        "blocked"@
    })
    &&& row.status == (if a.kind@ == "rejected"@ {
        Status::Violation
    } else {
        Status::Blocked
    })
    &&& row.title@ == flag_title(a)
    &&& row.place@ == a.feature_name@
    &&& row.target matches AttentionTarget::Module(fi, mid) && fi == k && mid@ == a.module_id@
}

/// An open question as an attention row: somebody is waiting on it.
pub open spec fn question_row(q: Question, row: Attention) -> bool {
    &&& row.kind@ == "question"@
    &&& row.status == Status::Blocked
    &&& row.title@ == q.author@ + " asked on "@ + q.subject_name@ + ": "@ + q.body@
    &&& row.place@ == "owed by "@ + (if q.assigned_to@.len() == 0 {
        "anyone"@
    } else {
        q.assigned_to@
    })
    &&& row.target matches AttentionTarget::Question(l, s, f) && l@ == q.level@ && s@
        == q.subject_id@ && f@ == q.feature_id@
}

/// The nudge about ideas nobody has composed or declined.
pub open spec fn triage_row(loose: usize, row: Attention) -> bool {
    &&& row.kind@ == "triage"@
    &&& row.status == Status::Planning
    &&& row.title@ == dec(loose as nat) + " loose ideas have never been composed or declined"@
    &&& row.place@ == "Want pool"@
    &&& row.target == AttentionTarget::Pool
}

/// The attention list: flagged modules whose feature is on the board,
/// then every open question oldest first, then the triage nudge when
/// there are loose ideas.
pub open spec fn attention_of(
    rows: Seq<AttentionDto>,
    fs: Seq<Feature>,
    qs: Seq<Question>,
    loose: usize,
    att: Seq<Attention>,
) -> bool {
    let p = placed(rows, fs);
    &&& att.len() == p.len() + qs.len() + (if loose > 0 {
        1int
    } else {
        0int
    })
    &&& forall|i: int| 0 <= i < p.len() ==> #[trigger] flag_row(p[i].0, p[i].1, att[i])
    &&& forall|j: int| 0 <= j < qs.len() ==> #[trigger] question_row(qs[j], att[p.len() + j])
    &&& loose > 0 ==> triage_row(loose, att[(p.len() + qs.len()) as int])
}

/// The screen's rows agree with what is held: the feature list with
/// the board and the details, the attention list with the board, the
/// questions and the want counts.
pub open spec fn rebuilt(c: Current) -> bool {
    match c.board {
        Some(b) => {
            &&& features_of(b.features@, c.details@, c.features@)
            &&& attention_of(b.attention@, c.features@, c.questions@, c.want_counts.0, c.attention@)
        },
        None => true,
    }
}

fn flag_of(a: &AttentionDto, k: usize) -> (row: Attention)
    ensures
        flag_row(*a, k as int, row),
{
    let rejected = same_text(a.kind.as_str(), "rejected");
    if rejected {
        let mut title = String::from_str("Claim on ");
        title.append(a.module_name.as_str());
        title.append(" denied \u{2014} ");
        if a.waiting_on.len() == 0 {
            title.append("its prerequisites are done now");
        } else {
            title.append("waiting on ");
            let names = join(&a.waiting_on, ", ");
            title.append(names.as_str());
        }
        assert(title@ =~= flag_title(*a));
        Attention {
            kind: "gate",
            status: Status::Violation,
            title,
            place: a.feature_name.clone(),
            target: AttentionTarget::Module(k, a.module_id.clone()),
        }
    } else {
        let mut title = a.module_name.clone();
        title.append(" is blocked, waiting on the manager");
        Attention {
            kind: "blocked",
            status: Status::Blocked,
            title,
            place: a.feature_name.clone(),
            target: AttentionTarget::Module(k, a.module_id.clone()),
        }
    }
}

fn question_of(q: &Question) -> (row: Attention)
    ensures
        question_row(*q, row),
{
    let mut title = q.author.clone();
    title.append(" asked on ");
    title.append(q.subject_name.as_str());
    title.append(": ");
    title.append(q.body.as_str());
    let mut place = String::from_str("owed by ");
    if q.assigned_to.as_str().is_empty() {
        place.append("anyone");
    } else {
        place.append(q.assigned_to.as_str());
    }
    Attention {
        kind: "question",
        status: Status::Blocked,
        title,
        place,
        target: AttentionTarget::Question(
            q.level.clone(),
            q.subject_id.clone(),
            q.feature_id.clone(),
        ),
    }
}

fn triage_of(loose: usize) -> (row: Attention)
    ensures
        triage_row(loose, row),
{
    let mut title = String::new();
    push_decimal(&mut title, loose as u128);
    title.append(" loose ideas have never been composed or declined");
    Attention {
        kind: "triage",
        status: Status::Planning,
        title,
        place: String::from_str("Want pool"),
        target: AttentionTarget::Pool,
    }
}

/// The attention list built from the board's flags, the open questions
/// and the loose-idea count, over the feature list given.
fn attention_from(
    rows: &Vec<AttentionDto>,
    fs: &Vec<Feature>,
    qs: &Vec<Question>,
    loose: usize,
) -> (att: Vec<Attention>)
    ensures
        attention_of(rows@, fs@, qs@, loose, att@),
{
    let mut att: Vec<Attention> = Vec::new();
    let mut i: usize = 0;
    while i < rows.len()
        invariant
            i <= rows@.len(),
            att@.len() == placed(rows@.take(i as int), fs@).len(),
            forall|m: int|
                0 <= m < att@.len() ==> #[trigger] flag_row(
                    placed(rows@.take(i as int), fs@)[m].0,
                    placed(rows@.take(i as int), fs@)[m].1,
                    att@[m],
                ),
        decreases rows.len() - i,
    {
        proof {
            assert(rows@.take(i + 1).drop_last() =~= rows@.take(i as int));
            assert(rows@.take(i + 1).last() == rows@[i as int]);
        }
        let ghost before = placed(rows@.take(i as int), fs@);
        match find_feature(fs, rows[i].feature_id.as_str()) {
            Some(k) => {
                let row = flag_of(&rows[i], k);
                att.push(row);
                proof {
                    let now = placed(rows@.take(i + 1), fs@);
                    assert(now == before.push((rows@[i as int], k as int)));
                    assert forall|m: int| 0 <= m < att@.len() implies #[trigger] flag_row(
                        now[m].0,
                        now[m].1,
                        att@[m],
                    ) by {
                        if m < before.len() {
                            assert(now[m] == before[m]);
                        }
                    }
                }
            },
            None => {
                assert(placed(rows@.take(i + 1), fs@) == before);
            },
        }
        i = i + 1;
    }
    assert(rows@.take(rows.len() as int) =~= rows@);
    let ghost p = placed(rows@, fs@);
    let mut j: usize = 0;
    while j < qs.len()
        invariant
            p == placed(rows@, fs@),
            j <= qs@.len(),
            att@.len() == p.len() + j,
            forall|m: int| 0 <= m < p.len() ==> #[trigger] flag_row(p[m].0, p[m].1, att@[m]),
            forall|m: int| 0 <= m < j ==> #[trigger] question_row(qs@[m], att@[p.len() + m]),
        decreases qs.len() - j,
    {
        let row = question_of(&qs[j]);
        att.push(row);
        j = j + 1;
    }
    if loose > 0 {
        att.push(triage_of(loose));
    }
    att
}

/// Recomposes the feature list from the board and the detail cache,
/// and the attention list from the board, the questions and the want
/// counts. Nothing else changes; with no board yet, nothing at all.
pub fn rebuild(cur: &mut Current)
    ensures
        rows_need_board(*old(cur)) ==> rows_need_board(*final(cur)),
        rebuilt(*final(cur)),
        old(cur).board is None ==> *final(cur) == *old(cur),
        final(cur).board == old(cur).board,
        final(cur).clock_offset == old(cur).clock_offset,
        final(cur).project_name == old(cur).project_name,
        final(cur).agents == old(cur).agents,
        final(cur).tags == old(cur).tags,
        final(cur).recent == old(cur).recent,
        final(cur).want_counts == old(cur).want_counts,
        final(cur).details == old(cur).details,
        final(cur).modules == old(cur).modules,
        final(cur).feeds == old(cur).feeds,
        final(cur).want_page == old(cur).want_page,
        final(cur).wants == old(cur).wants,
        final(cur).want_total == old(cur).want_total,
        final(cur).open_want == old(cur).open_want,
        final(cur).threads == old(cur).threads,
        final(cur).questions == old(cur).questions,
        final(cur).you == old(cur).you,
        final(cur).roadmap_raw == old(cur).roadmap_raw,
        final(cur).roadmap == old(cur).roadmap,
        final(cur).loaded == old(cur).loaded,
{
    let (features, attention) = match &cur.board {
        Some(board) => {
            let mut features: Vec<Feature> = Vec::new();
            let mut i: usize = 0;
            while i < board.features.len()
                invariant
                    i <= board.features@.len(),
                    features@.len() == i,
                    forall|m: int|
                        0 <= m < i ==> #[trigger] feature_row(
                            board.features@[m],
                            detail_for(cur.details@, board.features@[m].id@),
                            features@[m],
                        ),
                decreases board.features.len() - i,
            {
                let f = feature_from(&board.features[i], &cur.details);
                features.push(f);
                i = i + 1;
            }
            let attention = attention_from(
                &board.attention,
                &features,
                &*cur.questions,
                cur.want_counts.0,
            );
            (features, attention)
        },
        None => {
            return ;
        },
    };
    cur.features = Rc::new(features);
    cur.attention = Rc::new(attention);
}

// ---------------------------------------------------------------------
// Applying reads
// ---------------------------------------------------------------------

/// The parts of the cache a board read writes.
pub open spec fn same_board_part(a: Current, b: Current) -> bool {
    &&& a.board == b.board
    &&& a.project_name == b.project_name
    &&& a.agents == b.agents
    &&& a.tags == b.tags
    &&& a.recent == b.recent
    &&& a.want_counts == b.want_counts
    &&& a.questions == b.questions
    &&& a.you == b.you
    &&& a.loaded == b.loaded
}

/// The rows rebuilt for the screen.
pub open spec fn same_rows(a: Current, b: Current) -> bool {
    a.features == b.features && a.attention == b.attention
}

/// Everything but the board's part, the rebuilt rows and the details.
pub open spec fn same_other_reads(a: Current, b: Current) -> bool {
    &&& a.modules == b.modules
    &&& a.feeds == b.feeds
    &&& a.want_page == b.want_page
    &&& a.wants == b.wants
    &&& a.want_total == b.want_total
    &&& a.open_want == b.open_want
    &&& a.threads == b.threads
    &&& a.roadmap_raw == b.roadmap_raw
    &&& a.roadmap == b.roadmap
}

/// A board with its clock taken off: the one field that differs on
/// every read.
pub open spec fn unclocked(b: Board) -> Board {
    Board { now: 0, ..b }
}

/// Whether a board read says something the cache does not hold yet.
pub open spec fn board_is_news(c: Current, board: Board) -> bool {
    !c.loaded || !(c.board matches Some(b) && same_board(b, unclocked(board)))
}

/// Whether the cache holds a board read that says what this one says,
/// its clock aside.
pub open spec fn holds_board(c: Current, board: Board) -> bool {
    c.loaded && (c.board matches Some(b) && same_board(b, unclocked(board)))
}

/// What storing a board read at `local` does to the cache, and what it
/// returns.
pub open spec fn board_applied(before: Current, after: Current, board: Board, local: i64, r: bool) -> bool {
    &&& after.clock_offset == (if board.now > 0 {
        Some((board.now - local) as i64)
    } else {
        before.clock_offset
    })
    &&& r == board_is_news(before, board)
    &&& holds_board(after, board)
    &&& !r ==> same_board_part(after, before) && same_rows(after, before)
    &&& r ==> {
        &&& after.board == Some(unclocked(board))
        &&& after.project_name@ == board.project.name@
        &&& maps_agents(board.agents@, after.agents@)
        &&& maps_tags(board.tags@, after.tags@)
        &&& maps_events(board.recent@, after.recent@)
        &&& maps_questions(board.questions@, after.questions@)
        &&& after.you@ == board.you@
        &&& after.want_counts == (
            count_of(board.wants.open),
            count_of(board.wants.promoted),
            count_of(board.wants.declined),
        )
        &&& after.loaded
        &&& rebuilt(after)
    }
    &&& after.details == before.details
    &&& same_other_reads(after, before)
}

/// Stores the board read at `local` seconds on this process's clock.
/// Returns whether the data changed. The server's clock becomes the
/// offset every liveness reading is taken against, and is left out of
/// the comparison so an idle poll changes nothing else.
pub fn apply_board(cur: &mut Current, board: Board, local: i64) -> (r: bool)
    requires
        board.now > 0 ==> i64::MIN <= board.now - local <= i64::MAX,
    ensures
        rows_need_board(*old(cur)) ==> rows_need_board(*final(cur)),
        final(cur).clock_offset == (if board.now > 0 {
            Some((board.now - local) as i64)
        } else {
            old(cur).clock_offset
        }),
        r == board_is_news(*old(cur), board),
        holds_board(*final(cur), board),
        !r ==> same_board_part(*final(cur), *old(cur)) && same_rows(*final(cur), *old(cur)),
        r ==> {
            &&& final(cur).board == Some(unclocked(board))
            &&& final(cur).project_name@ == board.project.name@
            &&& maps_agents(board.agents@, final(cur).agents@)
            &&& maps_tags(board.tags@, final(cur).tags@)
            &&& maps_events(board.recent@, final(cur).recent@)
            &&& maps_questions(board.questions@, final(cur).questions@)
            &&& final(cur).you@ == board.you@
            &&& final(cur).want_counts == (
                count_of(board.wants.open),
                count_of(board.wants.promoted),
                count_of(board.wants.declined),
            )
            &&& final(cur).loaded
            &&& rebuilt(*final(cur))
        },
        final(cur).details == old(cur).details,
        same_other_reads(*final(cur), *old(cur)),
        board_applied(*old(cur), *final(cur), board, local, r),
{
    let mut board = board;
    if board.now > 0 {
        cur.clock_offset = Some(board.now - local);
    }
    board.now = 0;
    let same = match &cur.board {
        Some(b) => eq_board(b, &board),
        None => false,
    };
    let changed = !same || !cur.loaded;
    if changed {
        cur.project_name = board.project.name.clone();
        cur.agents = Rc::new(map_agents(&board.agents));
        cur.tags = Rc::new(map_tags(&board.tags));
        cur.recent = Rc::new(map_events(&board.recent));
        cur.questions = Rc::new(map_questions(&board.questions));
        cur.you = board.you.clone();
        cur.want_counts = (
            count(board.wants.open),
            count(board.wants.promoted),
            count(board.wants.declined),
        );
        cur.board = Some(board);
        cur.loaded = true;
        rebuild(cur);
        proof {
            crate::wire::lemma_same_board_refl(unclocked(board));
        }
    }
    changed
}

/// A detail as mapped from its read.
pub open spec fn detail_of(d: FeatureDetail, x: Detail) -> bool {
    &&& x.raw == d
    &&& x.description@ == d.description@
    &&& maps_modules(d.modules@, x.modules@)
    &&& match (d.whitepaper, x.whitepaper) {
        (Some(w), Some(v)) => crate::reads::maps_document(w, *v),
        (None, None) => true,
        _ => false,
    }
    &&& maps_sources(d.sources@, x.sources@)
    &&& maps_attachments(d.attachments@, x.attachments@)
    &&& maps_questions(d.open_questions@, x.open_questions@)
}

/// Whether a detail read says something the cache does not hold yet.
pub open spec fn detail_is_news(c: Current, d: FeatureDetail) -> bool {
    !(first_where(c.details@, detail_with(d.id@)) matches Some(k) && same_feature_detail(
        c.details@[k].raw,
        d,
    ))
}

/// Whether the cache holds a detail read that says what this one says.
pub open spec fn holds_detail(c: Current, d: FeatureDetail) -> bool {
    first_where(c.details@, detail_with(d.id@)) matches Some(k) && same_feature_detail(
        c.details@[k].raw,
        d,
    )
}

/// Stores one feature's detail and rebuilds the rows over it. Returns
/// whether it changed.
pub fn apply_feature(cur: &mut Current, detail: FeatureDetail) -> (r: bool)
    ensures
        old(cur).board is None ==> same_rows(*final(cur), *old(cur)),
        rows_need_board(*old(cur)) ==> rows_need_board(*final(cur)),
        r == detail_is_news(*old(cur), detail),
        holds_detail(*final(cur), detail),
        !r ==> *final(cur) == *old(cur),
        r ==> {
            let at = first_where(old(cur).details@, detail_with(detail.id@));
            &&& stored_at(old(cur).details@, final(cur).details@, at)
            &&& detail_of(detail, match at {
                Some(k) => final(cur).details@[k],
                None => final(cur).details@.last(),
            })
            &&& rebuilt(*final(cur))
        },
        same_board_part(*final(cur), *old(cur)),
        final(cur).clock_offset == old(cur).clock_offset,
        same_other_reads(*final(cur), *old(cur)),
{
    let found = find_detail(&cur.details, detail.id.as_str());
    if let Some(k) = found {
        if eq_feature_detail(&cur.details[k].raw, &detail) {
            return false;
        }
    }
    proof {
        lemma_first_is_first(cur.details@, detail_with(detail.id@));
    }
    let whitepaper = match map_opt_document(&detail.whitepaper) {
        Some(w) => Some(Rc::new(w)),
        None => None,
    };
    let mapped = Detail {
        description: detail.description.clone(),
        modules: Rc::new(map_modules(&detail.modules)),
        whitepaper,
        sources: Rc::new(map_sources(&detail.sources)),
        attachments: Rc::new(map_attachments(&detail.attachments)),
        open_questions: Rc::new(map_questions(&detail.open_questions)),
        raw: detail,
    };
    let ghost key = detail.id@;
    let ghost held = mapped.raw;
    match found {
        Some(k) => {
            cur.details.set(k, mapped);
        },
        None => {
            cur.details.push(mapped);
        },
    }
    proof {
        lemma_found_where_stored(old(cur).details@, cur.details@, detail_with(key));
        crate::wire::lemma_same_feature_detail_refl(held);
    }
    rebuild(cur);
    true
}

/// Everything but the roadmap.
pub open spec fn same_but_roadmap(a: Current, b: Current) -> bool {
    &&& same_board_part(a, b)
    &&& a.clock_offset == b.clock_offset
    &&& same_rows(a, b)
    &&& a.details == b.details
    &&& a.modules == b.modules
    &&& a.feeds == b.feeds
    &&& a.want_page == b.want_page
    &&& a.wants == b.wants
    &&& a.want_total == b.want_total
    &&& a.open_want == b.open_want
    &&& a.threads == b.threads
}

/// Whether a roadmap read says something the cache does not hold yet.
pub open spec fn roadmap_is_news(c: Current, road: RoadmapDto) -> bool {
    !(c.roadmap_raw matches Some(held) && same_roadmap_dto(held, road))
}

/// Whether the cache holds a roadmap read that says what this one says.
pub open spec fn holds_roadmap(c: Current, road: RoadmapDto) -> bool {
    c.roadmap_raw matches Some(held) && same_roadmap_dto(held, road)
}

/// Stores the roadmap. Returns whether it changed — an idle poll
/// returns an identical read and nothing on screen is rebuilt for it.
pub fn apply_roadmap(cur: &mut Current, road: RoadmapDto) -> (r: bool)
    ensures
        rows_need_board(*old(cur)) ==> rows_need_board(*final(cur)),
        r == roadmap_is_news(*old(cur), road),
        holds_roadmap(*final(cur), road),
        !r ==> *final(cur) == *old(cur),
        r ==> {
            &&& final(cur).roadmap_raw == Some(road)
            &&& maps_road_items(road.items@, final(cur).roadmap.items@)
            &&& maps_road_features(road.loose_features@, final(cur).roadmap.loose_features@)
        },
        same_but_roadmap(*final(cur), *old(cur)),
{
    if let Some(held) = &cur.roadmap_raw {
        if eq_roadmap_dto(held, &road) {
            return false;
        }
    }
    cur.roadmap = Rc::new(
        Roadmap {
            items: map_road_items(&road.items),
            loose_features: map_road_features(&road.loose_features),
        },
    );
    proof {
        crate::wire::lemma_same_roadmap_dto_refl(road);
    }
    cur.roadmap_raw = Some(road);
    true
}

/// Everything but the module drawer reads.
pub open spec fn same_but_module_reads(a: Current, b: Current) -> bool {
    &&& same_board_part(a, b)
    &&& a.clock_offset == b.clock_offset
    &&& same_rows(a, b)
    &&& a.details == b.details
    &&& a.feeds == b.feeds
    &&& a.want_page == b.want_page
    &&& a.wants == b.wants
    &&& a.want_total == b.want_total
    &&& a.open_want == b.open_want
    &&& a.threads == b.threads
    &&& a.roadmap_raw == b.roadmap_raw
    &&& a.roadmap == b.roadmap
}

/// Whether a module drawer read says something the cache does not hold
/// yet.
pub open spec fn module_is_news(c: Current, d: wire::ModuleDetail) -> bool {
    !(first_where(c.modules@, module_read_with(d.id@)) matches Some(k) && same_module_detail(
        c.modules@[k].0,
        d,
    ))
}

/// A drawer's contents as mapped from its read.
pub open spec fn drawer_of(d: wire::ModuleDetail, x: model::ModuleDetail) -> bool {
    &&& maps_opt_document(d.handoff, x.handoff)
    &&& maps_histories(d.history@, x.history@)
}

/// Whether the cache holds a drawer read that says what this one says.
pub open spec fn holds_module(c: Current, d: wire::ModuleDetail) -> bool {
    first_where(c.modules@, module_read_with(d.id@)) matches Some(k) && same_module_detail(
        c.modules@[k].0,
        d,
    )
}

/// Stores one module's drawer contents. Returns whether they changed.
pub fn apply_module(cur: &mut Current, detail: wire::ModuleDetail) -> (r: bool)
    ensures
        rows_need_board(*old(cur)) ==> rows_need_board(*final(cur)),
        r == module_is_news(*old(cur), detail),
        holds_module(*final(cur), detail),
        !r ==> *final(cur) == *old(cur),
        r ==> {
            let at = first_where(old(cur).modules@, module_read_with(detail.id@));
            let entry = match at {
                Some(k) => final(cur).modules@[k],
                None => final(cur).modules@.last(),
            };
            &&& stored_at(old(cur).modules@, final(cur).modules@, at)
            &&& entry.0 == detail
            &&& drawer_of(detail, *entry.1)
        },
        same_but_module_reads(*final(cur), *old(cur)),
{
    let found = find_module_read(&cur.modules, detail.id.as_str());
    if let Some(k) = found {
        if eq_module_detail(&cur.modules[k].0, &detail) {
            return false;
        }
    }
    proof {
        lemma_first_is_first(cur.modules@, module_read_with(detail.id@));
    }
    let mapped = model::ModuleDetail {
        handoff: map_opt_document(&detail.handoff),
        history: map_histories(&detail.history),
    };
    let ghost key = detail.id@;
    let ghost held = detail;
    let entry = (detail, Rc::new(mapped));
    match found {
        Some(k) => {
            cur.modules.set(k, entry);
        },
        None => {
            cur.modules.push(entry);
        },
    }
    proof {
        lemma_found_where_stored(old(cur).modules@, cur.modules@, module_read_with(key));
        crate::wire::lemma_same_module_detail_refl(held);
    }
    true
}

/// Everything but the feeds.
pub open spec fn same_but_feeds(a: Current, b: Current) -> bool {
    &&& same_board_part(a, b)
    &&& a.clock_offset == b.clock_offset
    &&& same_rows(a, b)
    &&& a.details == b.details
    &&& a.modules == b.modules
    &&& a.want_page == b.want_page
    &&& a.wants == b.wants
    &&& a.want_total == b.want_total
    &&& a.open_want == b.open_want
    &&& a.threads == b.threads
    &&& a.roadmap_raw == b.roadmap_raw
    &&& a.roadmap == b.roadmap
}

/// The feed a page lands in, and whether it differs from what was held.
/// With nothing held the page's rows, sorted, are the feed.
pub open spec fn page_lands(held: Option<Feed>, incoming: Seq<EventItem>, more: bool, feed: Feed, changed: bool) -> bool {
    match held {
        Some(f) => {
            &&& feed.events@ == merged_events(f.events@, incoming)
            &&& feed.exhausted == merged_exhausted(f.events@, f.exhausted, incoming, more)
            &&& changed == feed_differs(f.events@, f.exhausted, feed.events@, feed.exhausted)
        },
        None => {
            &&& feed.events@ == newest_first(incoming)
            &&& feed.exhausted == !more
            &&& changed
        },
    }
}

/// The feed held for a feature id.
pub open spec fn feed_for(fs: Seq<(String, Rc<Feed>)>, id: Seq<char>) -> Option<Feed> {
    match first_where(fs, feed_with(id)) {
        Some(k) => Some(*fs[k].1),
        None => None,
    }
}

/// Merges one page of a feature's ledger into its feed. Returns whether
/// the feed changed.
///
/// A page is either the newest page (a refresh, or the first read) or
/// an older one (the reader paged back). Both are merged on `seq`, so
/// a refresh that overlaps what is held adds only the new rows. A
/// newest page that does NOT overlap — more landed since the last read
/// than fit in a page — replaces the feed rather than being stitched
/// onto it with a gap the reader cannot see.
pub fn apply_events(cur: &mut Current, page: EventPage) -> (r: bool)
    ensures
        rows_need_board(*old(cur)) ==> rows_need_board(*final(cur)),
        exists|incoming: Seq<EventItem>, feed: Feed|
            {
                &&& maps_events(page.events@, incoming)
                &&& crate::feed::is_newest_first(feed.events@)
                &&& page_lands(feed_for(old(cur).feeds@, page.feature_id@), incoming, page.more, feed, r)
                &&& r ==> {
                    let at = first_where(old(cur).feeds@, feed_with(page.feature_id@));
                    let entry = match at {
                        Some(k) => final(cur).feeds@[k],
                        None => final(cur).feeds@.last(),
                    };
                    &&& stored_at(old(cur).feeds@, final(cur).feeds@, at)
                    &&& entry.0@ == page.feature_id@
                    &&& *entry.1 == feed
                }
            },
        !r ==> *final(cur) == *old(cur),
        same_but_feeds(*final(cur), *old(cur)),
{
    let incoming = map_events(&page.events);
    let ghost inc = incoming@;
    let found = find_feed(&cur.feeds, page.feature_id.as_str());
    proof {
        lemma_first_is_first(cur.feeds@, feed_with(page.feature_id@));
    }
    let (feed, changed) = match found {
        Some(k) => merge_page(&*cur.feeds[k].1, incoming, page.more),
        None => (fresh_feed(incoming, page.more), true),
    };
    let ghost landed = feed;
    proof {
        match found {
            Some(k) => crate::feed::law_feed_newest_first(cur.feeds@[k as int].1.events@, inc),
            None => crate::feed::lemma_newest_first(inc),
        }
    }
    assert(page_lands(feed_for(cur.feeds@, page.feature_id@), inc, page.more, landed, changed));
    if changed {
        let entry = (page.feature_id, Rc::new(feed));
        match found {
            Some(k) => {
                cur.feeds.set(k, entry);
            },
            None => {
                cur.feeds.push(entry);
            },
        }
    }
    changed
}

/// Everything but the discussions.
pub open spec fn same_but_threads(a: Current, b: Current) -> bool {
    &&& same_board_part(a, b)
    &&& a.clock_offset == b.clock_offset
    &&& same_rows(a, b)
    &&& a.details == b.details
    &&& a.modules == b.modules
    &&& a.feeds == b.feeds
    &&& a.want_page == b.want_page
    &&& a.wants == b.wants
    &&& a.want_total == b.want_total
    &&& a.open_want == b.open_want
    &&& a.roadmap_raw == b.roadmap_raw
    &&& a.roadmap == b.roadmap
}

/// Whether a discussion read says something the cache does not hold
/// yet.
pub open spec fn thread_is_news(c: Current, page: CommentPage) -> bool {
    !(first_where(c.threads@, thread_with(page.subject_id@)) matches Some(k) && same_comment_page(
        c.threads@[k].0,
        page,
    ))
}

/// Whether the cache holds a discussion read that says what this one
/// says.
pub open spec fn holds_thread(c: Current, page: CommentPage) -> bool {
    first_where(c.threads@, thread_with(page.subject_id@)) matches Some(k) && same_comment_page(
        c.threads@[k].0,
        page,
    )
}

/// Stores one subject's discussion. Returns whether it changed.
pub fn apply_comments(cur: &mut Current, page: CommentPage) -> (r: bool)
    ensures
        rows_need_board(*old(cur)) ==> rows_need_board(*final(cur)),
        r == thread_is_news(*old(cur), page),
        holds_thread(*final(cur), page),
        !r ==> *final(cur) == *old(cur),
        r ==> {
            let at = first_where(old(cur).threads@, thread_with(page.subject_id@));
            let entry = match at {
                Some(k) => final(cur).threads@[k],
                None => final(cur).threads@.last(),
            };
            &&& stored_at(old(cur).threads@, final(cur).threads@, at)
            &&& entry.0 == page
            &&& maps_comments(page.comments@, entry.1@)
        },
        same_but_threads(*final(cur), *old(cur)),
{
    let found = find_thread(&cur.threads, page.subject_id.as_str());
    if let Some(k) = found {
        if eq_comment_page(&cur.threads[k].0, &page) {
            return false;
        }
    }
    proof {
        lemma_first_is_first(cur.threads@, thread_with(page.subject_id@));
    }
    let mapped = Rc::new(map_comments(&page.comments));
    let ghost key = page.subject_id@;
    let ghost held = page;
    let entry = (page, mapped);
    match found {
        Some(k) => {
            cur.threads.set(k, entry);
        },
        None => {
            cur.threads.push(entry);
        },
    }
    proof {
        lemma_found_where_stored(old(cur).threads@, cur.threads@, thread_with(key));
        crate::wire::lemma_same_comment_page_refl(held);
    }
    true
}

/// Everything but the page of the pool on screen.
pub open spec fn same_but_want_page(a: Current, b: Current) -> bool {
    &&& same_board_part(a, b)
    &&& a.clock_offset == b.clock_offset
    &&& same_rows(a, b)
    &&& a.details == b.details
    &&& a.modules == b.modules
    &&& a.feeds == b.feeds
    &&& a.open_want == b.open_want
    &&& a.threads == b.threads
    &&& a.roadmap_raw == b.roadmap_raw
    &&& a.roadmap == b.roadmap
}

/// Whether a page of the pool says something the cache does not hold
/// yet.
pub open spec fn want_page_is_news(c: Current, page: WantPage) -> bool {
    !(c.want_page matches Some(held) && same_want_page(held, page))
}

/// Whether the cache holds a page of the pool that says what this one
/// says.
pub open spec fn holds_want_page(c: Current, page: WantPage) -> bool {
    c.want_page matches Some(held) && same_want_page(held, page)
}

/// Stores the page of the pool the wants screen asked for. Returns
/// whether it changed.
pub fn set_want_page(cur: &mut Current, page: WantPage) -> (r: bool)
    ensures
        rows_need_board(*old(cur)) ==> rows_need_board(*final(cur)),
        r == want_page_is_news(*old(cur), page),
        holds_want_page(*final(cur), page),
        !r ==> *final(cur) == *old(cur),
        r ==> {
            &&& final(cur).want_page == Some(page)
            &&& maps_wants(page.wants@, final(cur).wants@)
            &&& final(cur).want_total == count_of(page.total)
        },
        same_but_want_page(*final(cur), *old(cur)),
{
    if let Some(held) = &cur.want_page {
        if eq_want_page(held, &page) {
            return false;
        }
    }
    cur.wants = Rc::new(map_wants(&page.wants));
    cur.want_total = count(page.total);
    proof {
        crate::wire::lemma_same_want_page_refl(page);
    }
    cur.want_page = Some(page);
    true
}

/// Everything but the open want.
pub open spec fn same_but_open_want(a: Current, b: Current) -> bool {
    &&& same_board_part(a, b)
    &&& a.clock_offset == b.clock_offset
    &&& same_rows(a, b)
    &&& a.details == b.details
    &&& a.modules == b.modules
    &&& a.feeds == b.feeds
    &&& a.want_page == b.want_page
    &&& a.wants == b.wants
    &&& a.want_total == b.want_total
    &&& a.threads == b.threads
    &&& a.roadmap_raw == b.roadmap_raw
    &&& a.roadmap == b.roadmap
}

/// Whether a want read says something the cache does not hold yet.
pub open spec fn open_want_is_news(c: Current, want: WantDto) -> bool {
    !(c.open_want matches Some(held) && same_want_dto(held.0, want))
}

/// Whether the cache holds, as the open want, a read that says what this
/// one says.
pub open spec fn holds_open_want(c: Current, want: WantDto) -> bool {
    c.open_want matches Some(held) && same_want_dto(held.0, want)
}

/// Stores the idea whose drawer is open. Returns whether it changed.
pub fn set_open_want(cur: &mut Current, want: WantDto) -> (r: bool)
    ensures
        rows_need_board(*old(cur)) ==> rows_need_board(*final(cur)),
        r == open_want_is_news(*old(cur), want),
        holds_open_want(*final(cur), want),
        !r ==> *final(cur) == *old(cur),
        r ==> (final(cur).open_want matches Some(held) && held.0 == want && maps_want(want, held.1)),
        same_but_open_want(*final(cur), *old(cur)),
{
    if let Some(held) = &cur.open_want {
        if eq_want_dto(&held.0, &want) {
            return false;
        }
    }
    let mapped = map_want(&want);
    proof {
        crate::wire::lemma_same_want_dto_refl(want);
    }
    cur.open_want = Some((want, mapped));
    true
}

// ---------------------------------------------------------------------
// Reading the same thing again
// ---------------------------------------------------------------------

/// A board poll that says what the held board says, its clock aside, is
/// no news: an idle poll changes nothing.
pub proof fn law_board_read_twice(c: Current, first: Board, again: Board)
    requires
        holds_board(c, first),
        same_board(unclocked(first), unclocked(again)),
    ensures
        !board_is_news(c, again),
{
    crate::wire::lemma_same_board_trans(c.board->0, unclocked(first), unclocked(again));
}

/// A board read again that differs only in its clock is no news: it
/// changes nothing but the clock offset, which follows the new clock.
pub proof fn law_replayed_board(
    c0: Current,
    c1: Current,
    c2: Current,
    first: Board,
    again: Board,
    l1: i64,
    l2: i64,
    r1: bool,
    r2: bool,
)
    requires
        board_applied(c0, c1, first, l1, r1),
        board_applied(c1, c2, again, l2, r2),
        again == (Board { now: again.now, ..first }),
    ensures
        !r2,
        same_board_part(c2, c1),
        same_rows(c2, c1),
        c2.details == c1.details,
        same_other_reads(c2, c1),
        c2.clock_offset == (if again.now > 0 {
            Some((again.now - l2) as i64)
        } else {
            c1.clock_offset
        }),
{
    assert(unclocked(first) == unclocked(again));
    crate::wire::lemma_same_board_refl(unclocked(first));
    law_board_read_twice(c1, first, again);
}

/// A feature's detail read again, saying the same, is no news.
pub proof fn law_detail_read_twice(c: Current, first: FeatureDetail, again: FeatureDetail)
    requires
        holds_detail(c, first),
        same_feature_detail(first, again),
    ensures
        !detail_is_news(c, again),
{
    let k = first_where(c.details@, detail_with(first.id@))->0;
    crate::wire::lemma_same_feature_detail_trans(c.details@[k].raw, first, again);
}

/// The roadmap read again, saying the same, is no news.
pub proof fn law_roadmap_read_twice(c: Current, first: RoadmapDto, again: RoadmapDto)
    requires
        holds_roadmap(c, first),
        same_roadmap_dto(first, again),
    ensures
        !roadmap_is_news(c, again),
{
    crate::wire::lemma_same_roadmap_dto_trans(c.roadmap_raw->0, first, again);
}

/// A module's drawer read again, saying the same, is no news.
pub proof fn law_module_read_twice(c: Current, first: wire::ModuleDetail, again: wire::ModuleDetail)
    requires
        holds_module(c, first),
        same_module_detail(first, again),
    ensures
        !module_is_news(c, again),
{
    let k = first_where(c.modules@, module_read_with(first.id@))->0;
    crate::wire::lemma_same_module_detail_trans(c.modules@[k].0, first, again);
}

/// A discussion read again, saying the same, is no news.
pub proof fn law_thread_read_twice(c: Current, first: CommentPage, again: CommentPage)
    requires
        holds_thread(c, first),
        same_comment_page(first, again),
    ensures
        !thread_is_news(c, again),
{
    let k = first_where(c.threads@, thread_with(first.subject_id@))->0;
    crate::wire::lemma_same_comment_page_trans(c.threads@[k].0, first, again);
}

/// A page of the pool read again, saying the same, is no news.
pub proof fn law_want_page_read_twice(c: Current, first: WantPage, again: WantPage)
    requires
        holds_want_page(c, first),
        same_want_page(first, again),
    ensures
        !want_page_is_news(c, again),
{
    crate::wire::lemma_same_want_page_trans(c.want_page->0, first, again);
}

/// The open want read again, saying the same, is no news.
pub proof fn law_open_want_read_twice(c: Current, first: WantDto, again: WantDto)
    requires
        holds_open_want(c, first),
        same_want_dto(first, again),
    ensures
        !open_want_is_news(c, again),
{
    let held = c.open_want->0;
    crate::wire::lemma_same_want_dto_trans(held.0, first, again);
}

} // verus!
