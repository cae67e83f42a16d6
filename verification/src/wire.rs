//! The reads the server sends, as the console receives them, and when
//! two of them say the same thing. Change detection compares these,
//! field by field, before anything on screen is rebuilt.
use vstd::prelude::*;

use crate::text::same_text;

verus! {

/// A text field that may be absent, by its characters.
pub open spec fn opt_text(o: Option<String>) -> Option<Seq<char>> {
    match o {
        Some(s) => Some(s@),
        None => None,
    }
}

/// Whether two optional texts are the same.
pub fn eq_opt_text(a: &Option<String>, b: &Option<String>) -> (r: bool)
    ensures
        r == (opt_text(*a) == opt_text(*b)),
{
    match (a, b) {
        (Some(x), Some(y)) => same_text(x.as_str(), y.as_str()),
        (None, None) => true,
        _ => false,
    }
}

/// Whether two lists of texts are the same, item for item.
pub fn eq_texts(a: &Vec<String>, b: &Vec<String>) -> (r: bool)
    ensures
        r == (a.deep_view() == b.deep_view()),
{
    if a.len() != b.len() {
        assert(a.deep_view().len() != b.deep_view().len());
        return false;
    }
    let mut i: usize = 0;
    while i < a.len()
        invariant
            a.len() == b.len(),
            i <= a.len(),
            forall|j: int| 0 <= j < i ==> a@[j]@ == b@[j]@,
        decreases a.len() - i,
    {
        if !same_text(a[i].as_str(), b[i].as_str()) {
            assert(a.deep_view()[i as int] != b.deep_view()[i as int]);
            return false;
        }
        i = i + 1;
    }
    assert(a.deep_view() =~= b.deep_view());
    true
}

/// The project a board belongs to.
#[derive(Debug, Default)]
pub struct ProjectDto {
    pub name: String,
}

/// Two project dto reads that say the same thing.
pub open spec fn same_project_dto(a: ProjectDto, b: ProjectDto) -> bool {
    &&& a.name@ == b.name@
}

/// Whether two project dto reads say the same thing.
pub fn eq_project_dto(a: &ProjectDto, b: &ProjectDto) -> (r: bool)
    ensures
        r == same_project_dto(*a, *b),
{
    same_text(a.name.as_str(), b.name.as_str())
}

/// Every read says the same thing as itself.
pub proof fn lemma_same_project_dto_refl(a: ProjectDto)
    ensures
        same_project_dto(a, a),
{
}

/// Two reads that say the same as a third say the same as each other.
pub proof fn lemma_same_project_dto_trans(a: ProjectDto, b: ProjectDto, c: ProjectDto)
    requires
        same_project_dto(a, b),
        same_project_dto(b, c),
    ensures
        same_project_dto(a, c),
{
}

/// How many wants sit in each state.
#[derive(Debug, Default)]
pub struct WantCountsDto {
    pub open: i64,
    pub promoted: i64,
    pub declined: i64,
}

/// Two want counts dto reads that say the same thing.
pub open spec fn same_want_counts_dto(a: WantCountsDto, b: WantCountsDto) -> bool {
    &&& a.open == b.open
    &&& a.promoted == b.promoted
    &&& a.declined == b.declined
}

/// Whether two want counts dto reads say the same thing.
pub fn eq_want_counts_dto(a: &WantCountsDto, b: &WantCountsDto) -> (r: bool)
    ensures
        r == same_want_counts_dto(*a, *b),
{
    a.open == b.open
        && a.promoted == b.promoted
        && a.declined == b.declined
}

/// Every read says the same thing as itself.
pub proof fn lemma_same_want_counts_dto_refl(a: WantCountsDto)
    ensures
        same_want_counts_dto(a, a),
{
}

/// Two reads that say the same as a third say the same as each other.
pub proof fn lemma_same_want_counts_dto_trans(a: WantCountsDto, b: WantCountsDto, c: WantCountsDto)
    requires
        same_want_counts_dto(a, b),
        same_want_counts_dto(b, c),
    ensures
        same_want_counts_dto(a, c),
{
}

/// The latest thing an agent announced.
#[derive(Debug, Default)]
pub struct AnnouncementDto {
    pub text: String,
    pub by: String,
    pub at: String,
    pub subject: String,
}

/// Two announcement dto reads that say the same thing.
pub open spec fn same_announcement_dto(a: AnnouncementDto, b: AnnouncementDto) -> bool {
    &&& a.text@ == b.text@
    &&& a.by@ == b.by@
    &&& a.at@ == b.at@
    &&& a.subject@ == b.subject@
}

/// Whether two announcement dto reads say the same thing.
pub fn eq_announcement_dto(a: &AnnouncementDto, b: &AnnouncementDto) -> (r: bool)
    ensures
        r == same_announcement_dto(*a, *b),
{
    same_text(a.text.as_str(), b.text.as_str())
        && same_text(a.by.as_str(), b.by.as_str())
        && same_text(a.at.as_str(), b.at.as_str())
        && same_text(a.subject.as_str(), b.subject.as_str())
}

/// Every read says the same thing as itself.
pub proof fn lemma_same_announcement_dto_refl(a: AnnouncementDto)
    ensures
        same_announcement_dto(a, a),
{
}

/// Two reads that say the same as a third say the same as each other.
pub proof fn lemma_same_announcement_dto_trans(a: AnnouncementDto, b: AnnouncementDto, c: AnnouncementDto)
    requires
        same_announcement_dto(a, b),
        same_announcement_dto(b, c),
    ensures
        same_announcement_dto(a, c),
{
}

/// Two optional announcement dto reads that say the same thing.
pub open spec fn same_opt_announcement_dto(a: Option<AnnouncementDto>, b: Option<AnnouncementDto>) -> bool {
    match (a, b) {
        (Some(x), Some(y)) => same_announcement_dto(x, y),
        (None, None) => true,
        _ => false,
    }
}

fn eq_opt_announcement_dto(a: &Option<AnnouncementDto>, b: &Option<AnnouncementDto>) -> (r: bool)
    ensures
        r == same_opt_announcement_dto(*a, *b),
{
    match (a, b) {
        (Some(x), Some(y)) => eq_announcement_dto(x, y),
        (None, None) => true,
        _ => false,
    }
}

/// The server's probe of an agent's machine.
#[derive(Debug, Default)]
pub struct AgentHealthDto {
    pub state: String,
    pub since: String,
    pub detail: String,
}

/// Two agent health dto reads that say the same thing.
pub open spec fn same_agent_health_dto(a: AgentHealthDto, b: AgentHealthDto) -> bool {
    &&& a.state@ == b.state@
    &&& a.since@ == b.since@
    &&& a.detail@ == b.detail@
}

/// Whether two agent health dto reads say the same thing.
pub fn eq_agent_health_dto(a: &AgentHealthDto, b: &AgentHealthDto) -> (r: bool)
    ensures
        r == same_agent_health_dto(*a, *b),
{
    same_text(a.state.as_str(), b.state.as_str())
        && same_text(a.since.as_str(), b.since.as_str())
        && same_text(a.detail.as_str(), b.detail.as_str())
}

/// Every read says the same thing as itself.
pub proof fn lemma_same_agent_health_dto_refl(a: AgentHealthDto)
    ensures
        same_agent_health_dto(a, a),
{
}

/// Two reads that say the same as a third say the same as each other.
pub proof fn lemma_same_agent_health_dto_trans(a: AgentHealthDto, b: AgentHealthDto, c: AgentHealthDto)
    requires
        same_agent_health_dto(a, b),
        same_agent_health_dto(b, c),
    ensures
        same_agent_health_dto(a, c),
{
}

/// Two optional agent health dto reads that say the same thing.
pub open spec fn same_opt_agent_health_dto(a: Option<AgentHealthDto>, b: Option<AgentHealthDto>) -> bool {
    match (a, b) {
        (Some(x), Some(y)) => same_agent_health_dto(x, y),
        (None, None) => true,
        _ => false,
    }
}

fn eq_opt_agent_health_dto(a: &Option<AgentHealthDto>, b: &Option<AgentHealthDto>) -> (r: bool)
    ensures
        r == same_opt_agent_health_dto(*a, *b),
{
    match (a, b) {
        (Some(x), Some(y)) => eq_agent_health_dto(x, y),
        (None, None) => true,
        _ => false,
    }
}

/// One registered agent.
#[derive(Debug, Default)]
pub struct AgentDto {
    pub name: String,
    pub role: String,
    pub active_claims: i64,
    pub claim_names: String,
    pub health: Option<AgentHealthDto>,
    pub last_seen: String,
    pub last_heard: Option<i64>,
    pub last_word: Option<AnnouncementDto>,
}

/// Two agent dto reads that say the same thing.
pub open spec fn same_agent_dto(a: AgentDto, b: AgentDto) -> bool {
    &&& a.name@ == b.name@
    &&& a.role@ == b.role@
    &&& a.active_claims == b.active_claims
    &&& a.claim_names@ == b.claim_names@
    &&& same_opt_agent_health_dto(a.health, b.health)
    &&& a.last_seen@ == b.last_seen@
    &&& a.last_heard == b.last_heard
    &&& same_opt_announcement_dto(a.last_word, b.last_word)
}

/// Whether two agent dto reads say the same thing.
pub fn eq_agent_dto(a: &AgentDto, b: &AgentDto) -> (r: bool)
    ensures
        r == same_agent_dto(*a, *b),
{
    same_text(a.name.as_str(), b.name.as_str())
        && same_text(a.role.as_str(), b.role.as_str())
        && a.active_claims == b.active_claims
        && same_text(a.claim_names.as_str(), b.claim_names.as_str())
        && eq_opt_agent_health_dto(&a.health, &b.health)
        && same_text(a.last_seen.as_str(), b.last_seen.as_str())
        && a.last_heard == b.last_heard
        && eq_opt_announcement_dto(&a.last_word, &b.last_word)
}

/// Every read says the same thing as itself.
pub proof fn lemma_same_agent_dto_refl(a: AgentDto)
    ensures
        same_agent_dto(a, a),
{
    if let Some(x) = a.health { lemma_same_agent_health_dto_refl(x); }
    if let Some(x) = a.last_word { lemma_same_announcement_dto_refl(x); }
}

/// Two reads that say the same as a third say the same as each other.
pub proof fn lemma_same_agent_dto_trans(a: AgentDto, b: AgentDto, c: AgentDto)
    requires
        same_agent_dto(a, b),
        same_agent_dto(b, c),
    ensures
        same_agent_dto(a, c),
{
    if let (Some(x), Some(y), Some(z)) = (a.health, b.health, c.health) { lemma_same_agent_health_dto_trans(x, y, z); }
    if let (Some(x), Some(y), Some(z)) = (a.last_word, b.last_word, c.last_word) { lemma_same_announcement_dto_trans(x, y, z); }
}

/// Two lists of agent dto reads that say the same thing, item for item.
pub open spec fn same_agent_dtos(a: Seq<AgentDto>, b: Seq<AgentDto>) -> bool {
    &&& a.len() == b.len()
    &&& forall|i: int| 0 <= i < a.len() ==> #[trigger] same_agent_dto(a[i], b[i])
}

fn eq_agent_dtos(a: &Vec<AgentDto>, b: &Vec<AgentDto>) -> (r: bool)
    ensures
        r == same_agent_dtos(a@, b@),
{
    if a.len() != b.len() {
        return false;
    }
    let mut i: usize = 0;
    while i < a.len()
        invariant
            a.len() == b.len(),
            i <= a.len(),
            forall|j: int| 0 <= j < i ==> #[trigger] same_agent_dto(a@[j], b@[j]),
        decreases a.len() - i,
    {
        if !eq_agent_dto(&a[i], &b[i]) {
            return false;
        }
        i = i + 1;
    }
    true
}

pub proof fn lemma_same_agent_dtos_trans(a: Seq<AgentDto>, b: Seq<AgentDto>, c: Seq<AgentDto>)
    requires
        same_agent_dtos(a, b),
        same_agent_dtos(b, c),
    ensures
        same_agent_dtos(a, c),
{
    assert forall|i: int| 0 <= i < a.len() implies #[trigger] same_agent_dto(a[i], c[i]) by {
        lemma_same_agent_dto_trans(a[i], b[i], c[i]);
    }
}

pub proof fn lemma_same_agent_dtos_refl(a: Seq<AgentDto>)
    ensures
        same_agent_dtos(a, a),
{
    assert forall|i: int| 0 <= i < a.len() implies #[trigger] same_agent_dto(a[i], a[i]) by {
        lemma_same_agent_dto_refl(a[i]);
    }
}

/// One tag in the registry.
#[derive(Debug, Default)]
pub struct TagDto {
    pub name: String,
    pub label: String,
    pub uses: i64,
}

/// Two tag dto reads that say the same thing.
pub open spec fn same_tag_dto(a: TagDto, b: TagDto) -> bool {
    &&& a.name@ == b.name@
    &&& a.label@ == b.label@
    &&& a.uses == b.uses
}

/// Whether two tag dto reads say the same thing.
pub fn eq_tag_dto(a: &TagDto, b: &TagDto) -> (r: bool)
    ensures
        r == same_tag_dto(*a, *b),
{
    same_text(a.name.as_str(), b.name.as_str())
        && same_text(a.label.as_str(), b.label.as_str())
        && a.uses == b.uses
}

/// Every read says the same thing as itself.
pub proof fn lemma_same_tag_dto_refl(a: TagDto)
    ensures
        same_tag_dto(a, a),
{
}

/// Two reads that say the same as a third say the same as each other.
pub proof fn lemma_same_tag_dto_trans(a: TagDto, b: TagDto, c: TagDto)
    requires
        same_tag_dto(a, b),
        same_tag_dto(b, c),
    ensures
        same_tag_dto(a, c),
{
}

/// Two lists of tag dto reads that say the same thing, item for item.
pub open spec fn same_tag_dtos(a: Seq<TagDto>, b: Seq<TagDto>) -> bool {
    &&& a.len() == b.len()
    &&& forall|i: int| 0 <= i < a.len() ==> #[trigger] same_tag_dto(a[i], b[i])
}

fn eq_tag_dtos(a: &Vec<TagDto>, b: &Vec<TagDto>) -> (r: bool)
    ensures
        r == same_tag_dtos(a@, b@),
{
    if a.len() != b.len() {
        return false;
    }
    let mut i: usize = 0;
    while i < a.len()
        invariant
            a.len() == b.len(),
            i <= a.len(),
            forall|j: int| 0 <= j < i ==> #[trigger] same_tag_dto(a@[j], b@[j]),
        decreases a.len() - i,
    {
        if !eq_tag_dto(&a[i], &b[i]) {
            return false;
        }
        i = i + 1;
    }
    true
}

pub proof fn lemma_same_tag_dtos_trans(a: Seq<TagDto>, b: Seq<TagDto>, c: Seq<TagDto>)
    requires
        same_tag_dtos(a, b),
        same_tag_dtos(b, c),
    ensures
        same_tag_dtos(a, c),
{
    assert forall|i: int| 0 <= i < a.len() implies #[trigger] same_tag_dto(a[i], c[i]) by {
        lemma_same_tag_dto_trans(a[i], b[i], c[i]);
    }
}

pub proof fn lemma_same_tag_dtos_refl(a: Seq<TagDto>)
    ensures
        same_tag_dtos(a, a),
{
    assert forall|i: int| 0 <= i < a.len() implies #[trigger] same_tag_dto(a[i], a[i]) by {
        lemma_same_tag_dto_refl(a[i]);
    }
}

/// One ledger entry.
#[derive(Debug, Default)]
pub struct EventDto {
    pub seq: i64,
    pub time: String,
    pub kind: String,
    pub title: String,
    pub body: String,
    pub agent: Option<String>,
}

/// Two event dto reads that say the same thing.
pub open spec fn same_event_dto(a: EventDto, b: EventDto) -> bool {
    &&& a.seq == b.seq
    &&& a.time@ == b.time@
    &&& a.kind@ == b.kind@
    &&& a.title@ == b.title@
    &&& a.body@ == b.body@
    &&& opt_text(a.agent) == opt_text(b.agent)
}

/// Whether two event dto reads say the same thing.
pub fn eq_event_dto(a: &EventDto, b: &EventDto) -> (r: bool)
    ensures
        r == same_event_dto(*a, *b),
{
    a.seq == b.seq
        && same_text(a.time.as_str(), b.time.as_str())
        && same_text(a.kind.as_str(), b.kind.as_str())
        && same_text(a.title.as_str(), b.title.as_str())
        && same_text(a.body.as_str(), b.body.as_str())
        && eq_opt_text(&a.agent, &b.agent)
}

/// Every read says the same thing as itself.
pub proof fn lemma_same_event_dto_refl(a: EventDto)
    ensures
        same_event_dto(a, a),
{
}

/// Two reads that say the same as a third say the same as each other.
pub proof fn lemma_same_event_dto_trans(a: EventDto, b: EventDto, c: EventDto)
    requires
        same_event_dto(a, b),
        same_event_dto(b, c),
    ensures
        same_event_dto(a, c),
{
}

/// Two lists of event dto reads that say the same thing, item for item.
pub open spec fn same_event_dtos(a: Seq<EventDto>, b: Seq<EventDto>) -> bool {
    &&& a.len() == b.len()
    &&& forall|i: int| 0 <= i < a.len() ==> #[trigger] same_event_dto(a[i], b[i])
}

fn eq_event_dtos(a: &Vec<EventDto>, b: &Vec<EventDto>) -> (r: bool)
    ensures
        r == same_event_dtos(a@, b@),
{
    if a.len() != b.len() {
        return false;
    }
    let mut i: usize = 0;
    while i < a.len()
        invariant
            a.len() == b.len(),
            i <= a.len(),
            forall|j: int| 0 <= j < i ==> #[trigger] same_event_dto(a@[j], b@[j]),
        decreases a.len() - i,
    {
        if !eq_event_dto(&a[i], &b[i]) {
            return false;
        }
        i = i + 1;
    }
    true
}

pub proof fn lemma_same_event_dtos_trans(a: Seq<EventDto>, b: Seq<EventDto>, c: Seq<EventDto>)
    requires
        same_event_dtos(a, b),
        same_event_dtos(b, c),
    ensures
        same_event_dtos(a, c),
{
    assert forall|i: int| 0 <= i < a.len() implies #[trigger] same_event_dto(a[i], c[i]) by {
        lemma_same_event_dto_trans(a[i], b[i], c[i]);
    }
}

pub proof fn lemma_same_event_dtos_refl(a: Seq<EventDto>)
    ensures
        same_event_dtos(a, a),
{
    assert forall|i: int| 0 <= i < a.len() implies #[trigger] same_event_dto(a[i], a[i]) by {
        lemma_same_event_dto_refl(a[i]);
    }
}

/// One open question.
#[derive(Debug, Default)]
pub struct QuestionDto {
    pub id: String,
    pub level: String,
    pub subject_id: String,
    pub subject_name: String,
    pub feature_id: String,
    pub body: String,
    pub author: String,
    pub assigned_to: String,
    pub asked: String,
}

/// Two question dto reads that say the same thing.
pub open spec fn same_question_dto(a: QuestionDto, b: QuestionDto) -> bool {
    &&& a.id@ == b.id@
    &&& a.level@ == b.level@
    &&& a.subject_id@ == b.subject_id@
    &&& a.subject_name@ == b.subject_name@
    &&& a.feature_id@ == b.feature_id@
    &&& a.body@ == b.body@
    &&& a.author@ == b.author@
    &&& a.assigned_to@ == b.assigned_to@
    &&& a.asked@ == b.asked@
}

/// Whether two question dto reads say the same thing.
pub fn eq_question_dto(a: &QuestionDto, b: &QuestionDto) -> (r: bool)
    ensures
        r == same_question_dto(*a, *b),
{
    same_text(a.id.as_str(), b.id.as_str())
        && same_text(a.level.as_str(), b.level.as_str())
        && same_text(a.subject_id.as_str(), b.subject_id.as_str())
        && same_text(a.subject_name.as_str(), b.subject_name.as_str())
        && same_text(a.feature_id.as_str(), b.feature_id.as_str())
        && same_text(a.body.as_str(), b.body.as_str())
        && same_text(a.author.as_str(), b.author.as_str())
        && same_text(a.assigned_to.as_str(), b.assigned_to.as_str())
        && same_text(a.asked.as_str(), b.asked.as_str())
}

/// Every read says the same thing as itself.
pub proof fn lemma_same_question_dto_refl(a: QuestionDto)
    ensures
        same_question_dto(a, a),
{
}

/// Two reads that say the same as a third say the same as each other.
pub proof fn lemma_same_question_dto_trans(a: QuestionDto, b: QuestionDto, c: QuestionDto)
    requires
        same_question_dto(a, b),
        same_question_dto(b, c),
    ensures
        same_question_dto(a, c),
{
}

/// Two lists of question dto reads that say the same thing, item for item.
pub open spec fn same_question_dtos(a: Seq<QuestionDto>, b: Seq<QuestionDto>) -> bool {
    &&& a.len() == b.len()
    &&& forall|i: int| 0 <= i < a.len() ==> #[trigger] same_question_dto(a[i], b[i])
}

fn eq_question_dtos(a: &Vec<QuestionDto>, b: &Vec<QuestionDto>) -> (r: bool)
    ensures
        r == same_question_dtos(a@, b@),
{
    if a.len() != b.len() {
        return false;
    }
    let mut i: usize = 0;
    while i < a.len()
        invariant
            a.len() == b.len(),
            i <= a.len(),
            forall|j: int| 0 <= j < i ==> #[trigger] same_question_dto(a@[j], b@[j]),
        decreases a.len() - i,
    {
        if !eq_question_dto(&a[i], &b[i]) {
            return false;
        }
        i = i + 1;
    }
    true
}

pub proof fn lemma_same_question_dtos_trans(a: Seq<QuestionDto>, b: Seq<QuestionDto>, c: Seq<QuestionDto>)
    requires
        same_question_dtos(a, b),
        same_question_dtos(b, c),
    ensures
        same_question_dtos(a, c),
{
    assert forall|i: int| 0 <= i < a.len() implies #[trigger] same_question_dto(a[i], c[i]) by {
        lemma_same_question_dto_trans(a[i], b[i], c[i]);
    }
}

pub proof fn lemma_same_question_dtos_refl(a: Seq<QuestionDto>)
    ensures
        same_question_dtos(a, a),
{
    assert forall|i: int| 0 <= i < a.len() implies #[trigger] same_question_dto(a[i], a[i]) by {
        lemma_same_question_dto_refl(a[i]);
    }
}

/// One edge between roadmap items.
#[derive(Debug, Default)]
pub struct RoadmapEdgeDto {
    pub item_id: String,
    pub name: String,
    pub hard: bool,
    pub shipped: bool,
}

/// Two roadmap edge dto reads that say the same thing.
pub open spec fn same_roadmap_edge_dto(a: RoadmapEdgeDto, b: RoadmapEdgeDto) -> bool {
    &&& a.item_id@ == b.item_id@
    &&& a.name@ == b.name@
    &&& a.hard == b.hard
    &&& a.shipped == b.shipped
}

/// Whether two roadmap edge dto reads say the same thing.
pub fn eq_roadmap_edge_dto(a: &RoadmapEdgeDto, b: &RoadmapEdgeDto) -> (r: bool)
    ensures
        r == same_roadmap_edge_dto(*a, *b),
{
    same_text(a.item_id.as_str(), b.item_id.as_str())
        && same_text(a.name.as_str(), b.name.as_str())
        && a.hard == b.hard
        && a.shipped == b.shipped
}

/// Every read says the same thing as itself.
pub proof fn lemma_same_roadmap_edge_dto_refl(a: RoadmapEdgeDto)
    ensures
        same_roadmap_edge_dto(a, a),
{
}

/// Two reads that say the same as a third say the same as each other.
pub proof fn lemma_same_roadmap_edge_dto_trans(a: RoadmapEdgeDto, b: RoadmapEdgeDto, c: RoadmapEdgeDto)
    requires
        same_roadmap_edge_dto(a, b),
        same_roadmap_edge_dto(b, c),
    ensures
        same_roadmap_edge_dto(a, c),
{
}

/// Two optional roadmap edge dto reads that say the same thing.
pub open spec fn same_opt_roadmap_edge_dto(a: Option<RoadmapEdgeDto>, b: Option<RoadmapEdgeDto>) -> bool {
    match (a, b) {
        (Some(x), Some(y)) => same_roadmap_edge_dto(x, y),
        (None, None) => true,
        _ => false,
    }
}

fn eq_opt_roadmap_edge_dto(a: &Option<RoadmapEdgeDto>, b: &Option<RoadmapEdgeDto>) -> (r: bool)
    ensures
        r == same_opt_roadmap_edge_dto(*a, *b),
{
    match (a, b) {
        (Some(x), Some(y)) => eq_roadmap_edge_dto(x, y),
        (None, None) => true,
        _ => false,
    }
}

/// Two lists of roadmap edge dto reads that say the same thing, item for item.
pub open spec fn same_roadmap_edge_dtos(a: Seq<RoadmapEdgeDto>, b: Seq<RoadmapEdgeDto>) -> bool {
    &&& a.len() == b.len()
    &&& forall|i: int| 0 <= i < a.len() ==> #[trigger] same_roadmap_edge_dto(a[i], b[i])
}

fn eq_roadmap_edge_dtos(a: &Vec<RoadmapEdgeDto>, b: &Vec<RoadmapEdgeDto>) -> (r: bool)
    ensures
        r == same_roadmap_edge_dtos(a@, b@),
{
    if a.len() != b.len() {
        return false;
    }
    let mut i: usize = 0;
    while i < a.len()
        invariant
            a.len() == b.len(),
            i <= a.len(),
            forall|j: int| 0 <= j < i ==> #[trigger] same_roadmap_edge_dto(a@[j], b@[j]),
        decreases a.len() - i,
    {
        if !eq_roadmap_edge_dto(&a[i], &b[i]) {
            return false;
        }
        i = i + 1;
    }
    true
}

pub proof fn lemma_same_roadmap_edge_dtos_trans(a: Seq<RoadmapEdgeDto>, b: Seq<RoadmapEdgeDto>, c: Seq<RoadmapEdgeDto>)
    requires
        same_roadmap_edge_dtos(a, b),
        same_roadmap_edge_dtos(b, c),
    ensures
        same_roadmap_edge_dtos(a, c),
{
    assert forall|i: int| 0 <= i < a.len() implies #[trigger] same_roadmap_edge_dto(a[i], c[i]) by {
        lemma_same_roadmap_edge_dto_trans(a[i], b[i], c[i]);
    }
}

pub proof fn lemma_same_roadmap_edge_dtos_refl(a: Seq<RoadmapEdgeDto>)
    ensures
        same_roadmap_edge_dtos(a, a),
{
    assert forall|i: int| 0 <= i < a.len() implies #[trigger] same_roadmap_edge_dto(a[i], a[i]) by {
        lemma_same_roadmap_edge_dto_refl(a[i]);
    }
}

/// One feature's row on the board.
#[derive(Debug, Default)]
pub struct FeatureRollupDto {
    pub id: String,
    pub name: String,
    pub status: String,
    pub started: String,
    pub last_activity: String,
    pub created_by: Option<String>,
    pub modules_done: i64,
    pub modules_total: i64,
    pub modules_ready: i64,
    pub tasks_done: i64,
    pub tasks_total: i64,
    pub tasks_added: i64,
    pub modules_running: i64,
    pub last_word: Option<AnnouncementDto>,
    pub last_heard: Option<i64>,
    pub roadmap_item: Option<RoadmapEdgeDto>,
    pub released: String,
    pub held_by: Vec<RoadmapEdgeDto>,
}

/// Two feature rollup dto reads that say the same thing.
pub open spec fn same_feature_rollup_dto(a: FeatureRollupDto, b: FeatureRollupDto) -> bool {
    &&& a.id@ == b.id@
    &&& a.name@ == b.name@
    &&& a.status@ == b.status@
    &&& a.started@ == b.started@
    &&& a.last_activity@ == b.last_activity@
    &&& opt_text(a.created_by) == opt_text(b.created_by)
    &&& a.modules_done == b.modules_done
    &&& a.modules_total == b.modules_total
    &&& a.modules_ready == b.modules_ready
    &&& a.tasks_done == b.tasks_done
    &&& a.tasks_total == b.tasks_total
    &&& a.tasks_added == b.tasks_added
    &&& a.modules_running == b.modules_running
    &&& same_opt_announcement_dto(a.last_word, b.last_word)
    &&& a.last_heard == b.last_heard
    &&& same_opt_roadmap_edge_dto(a.roadmap_item, b.roadmap_item)
    &&& a.released@ == b.released@
    &&& same_roadmap_edge_dtos(a.held_by@, b.held_by@)
}

/// Whether two feature rollup dto reads say the same thing.
pub fn eq_feature_rollup_dto(a: &FeatureRollupDto, b: &FeatureRollupDto) -> (r: bool)
    ensures
        r == same_feature_rollup_dto(*a, *b),
{
    same_text(a.id.as_str(), b.id.as_str())
        && same_text(a.name.as_str(), b.name.as_str())
        && same_text(a.status.as_str(), b.status.as_str())
        && same_text(a.started.as_str(), b.started.as_str())
        && same_text(a.last_activity.as_str(), b.last_activity.as_str())
        && eq_opt_text(&a.created_by, &b.created_by)
        && a.modules_done == b.modules_done
        && a.modules_total == b.modules_total
        && a.modules_ready == b.modules_ready
        && a.tasks_done == b.tasks_done
        && a.tasks_total == b.tasks_total
        && a.tasks_added == b.tasks_added
        && a.modules_running == b.modules_running
        && eq_opt_announcement_dto(&a.last_word, &b.last_word)
        && a.last_heard == b.last_heard
        && eq_opt_roadmap_edge_dto(&a.roadmap_item, &b.roadmap_item)
        && same_text(a.released.as_str(), b.released.as_str())
        && eq_roadmap_edge_dtos(&a.held_by, &b.held_by)
}

/// Every read says the same thing as itself.
pub proof fn lemma_same_feature_rollup_dto_refl(a: FeatureRollupDto)
    ensures
        same_feature_rollup_dto(a, a),
{
    if let Some(x) = a.last_word { lemma_same_announcement_dto_refl(x); }
    if let Some(x) = a.roadmap_item { lemma_same_roadmap_edge_dto_refl(x); }
    lemma_same_roadmap_edge_dtos_refl(a.held_by@);
}

/// Two reads that say the same as a third say the same as each other.
pub proof fn lemma_same_feature_rollup_dto_trans(a: FeatureRollupDto, b: FeatureRollupDto, c: FeatureRollupDto)
    requires
        same_feature_rollup_dto(a, b),
        same_feature_rollup_dto(b, c),
    ensures
        same_feature_rollup_dto(a, c),
{
    if let (Some(x), Some(y), Some(z)) = (a.last_word, b.last_word, c.last_word) { lemma_same_announcement_dto_trans(x, y, z); }
    if let (Some(x), Some(y), Some(z)) = (a.roadmap_item, b.roadmap_item, c.roadmap_item) { lemma_same_roadmap_edge_dto_trans(x, y, z); }
    lemma_same_roadmap_edge_dtos_trans(a.held_by@, b.held_by@, c.held_by@);
}

/// Two lists of feature rollup dto reads that say the same thing, item for item.
pub open spec fn same_feature_rollup_dtos(a: Seq<FeatureRollupDto>, b: Seq<FeatureRollupDto>) -> bool {
    &&& a.len() == b.len()
    &&& forall|i: int| 0 <= i < a.len() ==> #[trigger] same_feature_rollup_dto(a[i], b[i])
}

fn eq_feature_rollup_dtos(a: &Vec<FeatureRollupDto>, b: &Vec<FeatureRollupDto>) -> (r: bool)
    ensures
        r == same_feature_rollup_dtos(a@, b@),
{
    if a.len() != b.len() {
        return false;
    }
    let mut i: usize = 0;
    while i < a.len()
        invariant
            a.len() == b.len(),
            i <= a.len(),
            forall|j: int| 0 <= j < i ==> #[trigger] same_feature_rollup_dto(a@[j], b@[j]),
        decreases a.len() - i,
    {
        if !eq_feature_rollup_dto(&a[i], &b[i]) {
            return false;
        }
        i = i + 1;
    }
    true
}

pub proof fn lemma_same_feature_rollup_dtos_trans(a: Seq<FeatureRollupDto>, b: Seq<FeatureRollupDto>, c: Seq<FeatureRollupDto>)
    requires
        same_feature_rollup_dtos(a, b),
        same_feature_rollup_dtos(b, c),
    ensures
        same_feature_rollup_dtos(a, c),
{
    assert forall|i: int| 0 <= i < a.len() implies #[trigger] same_feature_rollup_dto(a[i], c[i]) by {
        lemma_same_feature_rollup_dto_trans(a[i], b[i], c[i]);
    }
}

pub proof fn lemma_same_feature_rollup_dtos_refl(a: Seq<FeatureRollupDto>)
    ensures
        same_feature_rollup_dtos(a, a),
{
    assert forall|i: int| 0 <= i < a.len() implies #[trigger] same_feature_rollup_dto(a[i], a[i]) by {
        lemma_same_feature_rollup_dto_refl(a[i]);
    }
}

/// One condition the server says needs a reader.
#[derive(Debug, Default)]
pub struct AttentionDto {
    pub kind: String,
    pub feature_id: String,
    pub feature_name: String,
    pub module_id: String,
    pub module_name: String,
    pub waiting_on: Vec<String>,
}

/// Two attention dto reads that say the same thing.
pub open spec fn same_attention_dto(a: AttentionDto, b: AttentionDto) -> bool {
    &&& a.kind@ == b.kind@
    &&& a.feature_id@ == b.feature_id@
    &&& a.feature_name@ == b.feature_name@
    &&& a.module_id@ == b.module_id@
    &&& a.module_name@ == b.module_name@
    &&& a.waiting_on.deep_view() == b.waiting_on.deep_view()
}

/// Whether two attention dto reads say the same thing.
pub fn eq_attention_dto(a: &AttentionDto, b: &AttentionDto) -> (r: bool)
    ensures
        r == same_attention_dto(*a, *b),
{
    same_text(a.kind.as_str(), b.kind.as_str())
        && same_text(a.feature_id.as_str(), b.feature_id.as_str())
        && same_text(a.feature_name.as_str(), b.feature_name.as_str())
        && same_text(a.module_id.as_str(), b.module_id.as_str())
        && same_text(a.module_name.as_str(), b.module_name.as_str())
        && eq_texts(&a.waiting_on, &b.waiting_on)
}

/// Every read says the same thing as itself.
pub proof fn lemma_same_attention_dto_refl(a: AttentionDto)
    ensures
        same_attention_dto(a, a),
{
}

/// Two reads that say the same as a third say the same as each other.
pub proof fn lemma_same_attention_dto_trans(a: AttentionDto, b: AttentionDto, c: AttentionDto)
    requires
        same_attention_dto(a, b),
        same_attention_dto(b, c),
    ensures
        same_attention_dto(a, c),
{
}

/// Two lists of attention dto reads that say the same thing, item for item.
pub open spec fn same_attention_dtos(a: Seq<AttentionDto>, b: Seq<AttentionDto>) -> bool {
    &&& a.len() == b.len()
    &&& forall|i: int| 0 <= i < a.len() ==> #[trigger] same_attention_dto(a[i], b[i])
}

fn eq_attention_dtos(a: &Vec<AttentionDto>, b: &Vec<AttentionDto>) -> (r: bool)
    ensures
        r == same_attention_dtos(a@, b@),
{
    if a.len() != b.len() {
        return false;
    }
    let mut i: usize = 0;
    while i < a.len()
        invariant
            a.len() == b.len(),
            i <= a.len(),
            forall|j: int| 0 <= j < i ==> #[trigger] same_attention_dto(a@[j], b@[j]),
        decreases a.len() - i,
    {
        if !eq_attention_dto(&a[i], &b[i]) {
            return false;
        }
        i = i + 1;
    }
    true
}

pub proof fn lemma_same_attention_dtos_trans(a: Seq<AttentionDto>, b: Seq<AttentionDto>, c: Seq<AttentionDto>)
    requires
        same_attention_dtos(a, b),
        same_attention_dtos(b, c),
    ensures
        same_attention_dtos(a, c),
{
    assert forall|i: int| 0 <= i < a.len() implies #[trigger] same_attention_dto(a[i], c[i]) by {
        lemma_same_attention_dto_trans(a[i], b[i], c[i]);
    }
}

pub proof fn lemma_same_attention_dtos_refl(a: Seq<AttentionDto>)
    ensures
        same_attention_dtos(a, a),
{
    assert forall|i: int| 0 <= i < a.len() implies #[trigger] same_attention_dto(a[i], a[i]) by {
        lemma_same_attention_dto_refl(a[i]);
    }
}

/// The whole-project read the console polls.
#[derive(Debug, Default)]
pub struct Board {
    pub now: i64,
    pub project: ProjectDto,
    pub you: String,
    pub agents: Vec<AgentDto>,
    pub tags: Vec<TagDto>,
    pub recent: Vec<EventDto>,
    pub questions: Vec<QuestionDto>,
    pub wants: WantCountsDto,
    pub features: Vec<FeatureRollupDto>,
    pub attention: Vec<AttentionDto>,
}

/// Two board reads that say the same thing.
pub open spec fn same_board(a: Board, b: Board) -> bool {
    &&& a.now == b.now
    &&& same_project_dto(a.project, b.project)
    &&& a.you@ == b.you@
    &&& same_agent_dtos(a.agents@, b.agents@)
    &&& same_tag_dtos(a.tags@, b.tags@)
    &&& same_event_dtos(a.recent@, b.recent@)
    &&& same_question_dtos(a.questions@, b.questions@)
    &&& same_want_counts_dto(a.wants, b.wants)
    &&& same_feature_rollup_dtos(a.features@, b.features@)
    &&& same_attention_dtos(a.attention@, b.attention@)
}

/// Whether two board reads say the same thing.
pub fn eq_board(a: &Board, b: &Board) -> (r: bool)
    ensures
        r == same_board(*a, *b),
{
    a.now == b.now
        && eq_project_dto(&a.project, &b.project)
        && same_text(a.you.as_str(), b.you.as_str())
        && eq_agent_dtos(&a.agents, &b.agents)
        && eq_tag_dtos(&a.tags, &b.tags)
        && eq_event_dtos(&a.recent, &b.recent)
        && eq_question_dtos(&a.questions, &b.questions)
        && eq_want_counts_dto(&a.wants, &b.wants)
        && eq_feature_rollup_dtos(&a.features, &b.features)
        && eq_attention_dtos(&a.attention, &b.attention)
}

/// Every read says the same thing as itself.
pub proof fn lemma_same_board_refl(a: Board)
    ensures
        same_board(a, a),
{
    lemma_same_project_dto_refl(a.project);
    lemma_same_agent_dtos_refl(a.agents@);
    lemma_same_tag_dtos_refl(a.tags@);
    lemma_same_event_dtos_refl(a.recent@);
    lemma_same_question_dtos_refl(a.questions@);
    lemma_same_want_counts_dto_refl(a.wants);
    lemma_same_feature_rollup_dtos_refl(a.features@);
    lemma_same_attention_dtos_refl(a.attention@);
}

/// Two reads that say the same as a third say the same as each other.
pub proof fn lemma_same_board_trans(a: Board, b: Board, c: Board)
    requires
        same_board(a, b),
        same_board(b, c),
    ensures
        same_board(a, c),
{
    lemma_same_project_dto_trans(a.project, b.project, c.project);
    lemma_same_agent_dtos_trans(a.agents@, b.agents@, c.agents@);
    lemma_same_tag_dtos_trans(a.tags@, b.tags@, c.tags@);
    lemma_same_event_dtos_trans(a.recent@, b.recent@, c.recent@);
    lemma_same_question_dtos_trans(a.questions@, b.questions@, c.questions@);
    lemma_same_want_counts_dto_trans(a.wants, b.wants, c.wants);
    lemma_same_feature_rollup_dtos_trans(a.features@, b.features@, c.features@);
    lemma_same_attention_dtos_trans(a.attention@, b.attention@, c.attention@);
}

/// A document's current revision.
#[derive(Debug, Default)]
pub struct DocumentDto {
    pub revision: i32,
    pub title: String,
    pub body: String,
    pub author: String,
    pub written: String,
}

/// Two document dto reads that say the same thing.
pub open spec fn same_document_dto(a: DocumentDto, b: DocumentDto) -> bool {
    &&& a.revision == b.revision
    &&& a.title@ == b.title@
    &&& a.body@ == b.body@
    &&& a.author@ == b.author@
    &&& a.written@ == b.written@
}

/// Whether two document dto reads say the same thing.
pub fn eq_document_dto(a: &DocumentDto, b: &DocumentDto) -> (r: bool)
    ensures
        r == same_document_dto(*a, *b),
{
    a.revision == b.revision
        && same_text(a.title.as_str(), b.title.as_str())
        && same_text(a.body.as_str(), b.body.as_str())
        && same_text(a.author.as_str(), b.author.as_str())
        && same_text(a.written.as_str(), b.written.as_str())
}

/// Every read says the same thing as itself.
pub proof fn lemma_same_document_dto_refl(a: DocumentDto)
    ensures
        same_document_dto(a, a),
{
}

/// Two reads that say the same as a third say the same as each other.
pub proof fn lemma_same_document_dto_trans(a: DocumentDto, b: DocumentDto, c: DocumentDto)
    requires
        same_document_dto(a, b),
        same_document_dto(b, c),
    ensures
        same_document_dto(a, c),
{
}

/// Two optional document dto reads that say the same thing.
pub open spec fn same_opt_document_dto(a: Option<DocumentDto>, b: Option<DocumentDto>) -> bool {
    match (a, b) {
        (Some(x), Some(y)) => same_document_dto(x, y),
        (None, None) => true,
        _ => false,
    }
}

fn eq_opt_document_dto(a: &Option<DocumentDto>, b: &Option<DocumentDto>) -> (r: bool)
    ensures
        r == same_opt_document_dto(*a, *b),
{
    match (a, b) {
        (Some(x), Some(y)) => eq_document_dto(x, y),
        (None, None) => true,
        _ => false,
    }
}

/// One attached file.
#[derive(Debug, Default)]
pub struct AttachmentDto {
    pub id: String,
    pub name: String,
    pub description: String,
    pub content_type: String,
    pub size: String,
    pub added_by: String,
    pub added: String,
    pub via_want_id: String,
    pub via_want: String,
    pub via_module_id: String,
    pub via_module: String,
    pub comment_id: String,
    pub comment_author: String,
    pub comment_excerpt: String,
}

/// Two attachment dto reads that say the same thing.
pub open spec fn same_attachment_dto(a: AttachmentDto, b: AttachmentDto) -> bool {
    &&& a.id@ == b.id@
    &&& a.name@ == b.name@
    &&& a.description@ == b.description@
    &&& a.content_type@ == b.content_type@
    &&& a.size@ == b.size@
    &&& a.added_by@ == b.added_by@
    &&& a.added@ == b.added@
    &&& a.via_want_id@ == b.via_want_id@
    &&& a.via_want@ == b.via_want@
    &&& a.via_module_id@ == b.via_module_id@
    &&& a.via_module@ == b.via_module@
    &&& a.comment_id@ == b.comment_id@
    &&& a.comment_author@ == b.comment_author@
    &&& a.comment_excerpt@ == b.comment_excerpt@
}

/// Whether two attachment dto reads say the same thing.
pub fn eq_attachment_dto(a: &AttachmentDto, b: &AttachmentDto) -> (r: bool)
    ensures
        r == same_attachment_dto(*a, *b),
{
    same_text(a.id.as_str(), b.id.as_str())
        && same_text(a.name.as_str(), b.name.as_str())
        && same_text(a.description.as_str(), b.description.as_str())
        && same_text(a.content_type.as_str(), b.content_type.as_str())
        && same_text(a.size.as_str(), b.size.as_str())
        && same_text(a.added_by.as_str(), b.added_by.as_str())
        && same_text(a.added.as_str(), b.added.as_str())
        && same_text(a.via_want_id.as_str(), b.via_want_id.as_str())
        && same_text(a.via_want.as_str(), b.via_want.as_str())
        && same_text(a.via_module_id.as_str(), b.via_module_id.as_str())
        && same_text(a.via_module.as_str(), b.via_module.as_str())
        && same_text(a.comment_id.as_str(), b.comment_id.as_str())
        && same_text(a.comment_author.as_str(), b.comment_author.as_str())
        && same_text(a.comment_excerpt.as_str(), b.comment_excerpt.as_str())
}

/// Every read says the same thing as itself.
pub proof fn lemma_same_attachment_dto_refl(a: AttachmentDto)
    ensures
        same_attachment_dto(a, a),
{
}

/// Two reads that say the same as a third say the same as each other.
pub proof fn lemma_same_attachment_dto_trans(a: AttachmentDto, b: AttachmentDto, c: AttachmentDto)
    requires
        same_attachment_dto(a, b),
        same_attachment_dto(b, c),
    ensures
        same_attachment_dto(a, c),
{
}

/// Two lists of attachment dto reads that say the same thing, item for item.
pub open spec fn same_attachment_dtos(a: Seq<AttachmentDto>, b: Seq<AttachmentDto>) -> bool {
    &&& a.len() == b.len()
    &&& forall|i: int| 0 <= i < a.len() ==> #[trigger] same_attachment_dto(a[i], b[i])
}

fn eq_attachment_dtos(a: &Vec<AttachmentDto>, b: &Vec<AttachmentDto>) -> (r: bool)
    ensures
        r == same_attachment_dtos(a@, b@),
{
    if a.len() != b.len() {
        return false;
    }
    let mut i: usize = 0;
    while i < a.len()
        invariant
            a.len() == b.len(),
            i <= a.len(),
            forall|j: int| 0 <= j < i ==> #[trigger] same_attachment_dto(a@[j], b@[j]),
        decreases a.len() - i,
    {
        if !eq_attachment_dto(&a[i], &b[i]) {
            return false;
        }
        i = i + 1;
    }
    true
}

pub proof fn lemma_same_attachment_dtos_trans(a: Seq<AttachmentDto>, b: Seq<AttachmentDto>, c: Seq<AttachmentDto>)
    requires
        same_attachment_dtos(a, b),
        same_attachment_dtos(b, c),
    ensures
        same_attachment_dtos(a, c),
{
    assert forall|i: int| 0 <= i < a.len() implies #[trigger] same_attachment_dto(a[i], c[i]) by {
        lemma_same_attachment_dto_trans(a[i], b[i], c[i]);
    }
}

pub proof fn lemma_same_attachment_dtos_refl(a: Seq<AttachmentDto>)
    ensures
        same_attachment_dtos(a, a),
{
    assert forall|i: int| 0 <= i < a.len() implies #[trigger] same_attachment_dto(a[i], a[i]) by {
        lemma_same_attachment_dto_refl(a[i]);
    }
}

/// One want a feature was composed from.
#[derive(Debug, Default)]
pub struct SourceDto {
    pub want_id: String,
    pub body: String,
}

/// Two source dto reads that say the same thing.
pub open spec fn same_source_dto(a: SourceDto, b: SourceDto) -> bool {
    &&& a.want_id@ == b.want_id@
    &&& a.body@ == b.body@
}

/// Whether two source dto reads say the same thing.
pub fn eq_source_dto(a: &SourceDto, b: &SourceDto) -> (r: bool)
    ensures
        r == same_source_dto(*a, *b),
{
    same_text(a.want_id.as_str(), b.want_id.as_str())
        && same_text(a.body.as_str(), b.body.as_str())
}

/// Every read says the same thing as itself.
pub proof fn lemma_same_source_dto_refl(a: SourceDto)
    ensures
        same_source_dto(a, a),
{
}

/// Two reads that say the same as a third say the same as each other.
pub proof fn lemma_same_source_dto_trans(a: SourceDto, b: SourceDto, c: SourceDto)
    requires
        same_source_dto(a, b),
        same_source_dto(b, c),
    ensures
        same_source_dto(a, c),
{
}

/// Two lists of source dto reads that say the same thing, item for item.
pub open spec fn same_source_dtos(a: Seq<SourceDto>, b: Seq<SourceDto>) -> bool {
    &&& a.len() == b.len()
    &&& forall|i: int| 0 <= i < a.len() ==> #[trigger] same_source_dto(a[i], b[i])
}

fn eq_source_dtos(a: &Vec<SourceDto>, b: &Vec<SourceDto>) -> (r: bool)
    ensures
        r == same_source_dtos(a@, b@),
{
    if a.len() != b.len() {
        return false;
    }
    let mut i: usize = 0;
    while i < a.len()
        invariant
            a.len() == b.len(),
            i <= a.len(),
            forall|j: int| 0 <= j < i ==> #[trigger] same_source_dto(a@[j], b@[j]),
        decreases a.len() - i,
    {
        if !eq_source_dto(&a[i], &b[i]) {
            return false;
        }
        i = i + 1;
    }
    true
}

pub proof fn lemma_same_source_dtos_trans(a: Seq<SourceDto>, b: Seq<SourceDto>, c: Seq<SourceDto>)
    requires
        same_source_dtos(a, b),
        same_source_dtos(b, c),
    ensures
        same_source_dtos(a, c),
{
    assert forall|i: int| 0 <= i < a.len() implies #[trigger] same_source_dto(a[i], c[i]) by {
        lemma_same_source_dto_trans(a[i], b[i], c[i]);
    }
}

pub proof fn lemma_same_source_dtos_refl(a: Seq<SourceDto>)
    ensures
        same_source_dtos(a, a),
{
    assert forall|i: int| 0 <= i < a.len() implies #[trigger] same_source_dto(a[i], a[i]) by {
        lemma_same_source_dto_refl(a[i]);
    }
}

/// One task of a module.
#[derive(Debug, Default)]
pub struct TaskDto {
    pub id: String,
    pub name: String,
    pub status: String,
    pub origin: String,
}

/// Two task dto reads that say the same thing.
pub open spec fn same_task_dto(a: TaskDto, b: TaskDto) -> bool {
    &&& a.id@ == b.id@
    &&& a.name@ == b.name@
    &&& a.status@ == b.status@
    &&& a.origin@ == b.origin@
}

/// Whether two task dto reads say the same thing.
pub fn eq_task_dto(a: &TaskDto, b: &TaskDto) -> (r: bool)
    ensures
        r == same_task_dto(*a, *b),
{
    same_text(a.id.as_str(), b.id.as_str())
        && same_text(a.name.as_str(), b.name.as_str())
        && same_text(a.status.as_str(), b.status.as_str())
        && same_text(a.origin.as_str(), b.origin.as_str())
}

/// Every read says the same thing as itself.
pub proof fn lemma_same_task_dto_refl(a: TaskDto)
    ensures
        same_task_dto(a, a),
{
}

/// Two reads that say the same as a third say the same as each other.
pub proof fn lemma_same_task_dto_trans(a: TaskDto, b: TaskDto, c: TaskDto)
    requires
        same_task_dto(a, b),
        same_task_dto(b, c),
    ensures
        same_task_dto(a, c),
{
}

/// Two lists of task dto reads that say the same thing, item for item.
pub open spec fn same_task_dtos(a: Seq<TaskDto>, b: Seq<TaskDto>) -> bool {
    &&& a.len() == b.len()
    &&& forall|i: int| 0 <= i < a.len() ==> #[trigger] same_task_dto(a[i], b[i])
}

fn eq_task_dtos(a: &Vec<TaskDto>, b: &Vec<TaskDto>) -> (r: bool)
    ensures
        r == same_task_dtos(a@, b@),
{
    if a.len() != b.len() {
        return false;
    }
    let mut i: usize = 0;
    while i < a.len()
        invariant
            a.len() == b.len(),
            i <= a.len(),
            forall|j: int| 0 <= j < i ==> #[trigger] same_task_dto(a@[j], b@[j]),
        decreases a.len() - i,
    {
        if !eq_task_dto(&a[i], &b[i]) {
            return false;
        }
        i = i + 1;
    }
    true
}

pub proof fn lemma_same_task_dtos_trans(a: Seq<TaskDto>, b: Seq<TaskDto>, c: Seq<TaskDto>)
    requires
        same_task_dtos(a, b),
        same_task_dtos(b, c),
    ensures
        same_task_dtos(a, c),
{
    assert forall|i: int| 0 <= i < a.len() implies #[trigger] same_task_dto(a[i], c[i]) by {
        lemma_same_task_dto_trans(a[i], b[i], c[i]);
    }
}

pub proof fn lemma_same_task_dtos_refl(a: Seq<TaskDto>)
    ensures
        same_task_dtos(a, a),
{
    assert forall|i: int| 0 <= i < a.len() implies #[trigger] same_task_dto(a[i], a[i]) by {
        lemma_same_task_dto_refl(a[i]);
    }
}

/// One module of a feature's plan.
#[derive(Debug, Default)]
pub struct ModuleDto {
    pub id: String,
    pub name: String,
    pub description: String,
    pub status: String,
    pub rejected: bool,
    pub dispatchable: bool,
    pub claimed_by: Option<String>,
    pub spawned: String,
    pub depends_on: Vec<String>,
    pub waiting_on: Vec<String>,
    pub owns: Vec<String>,
    pub depth: i64,
    pub summary: Option<String>,
    pub block_title: String,
    pub block_body: String,
    pub open_questions: Vec<QuestionDto>,
    pub last_word: Option<AnnouncementDto>,
    pub last_heard: Option<i64>,
    pub tasks: Vec<TaskDto>,
}

/// Two module dto reads that say the same thing.
pub open spec fn same_module_dto(a: ModuleDto, b: ModuleDto) -> bool {
    &&& a.id@ == b.id@
    &&& a.name@ == b.name@
    &&& a.description@ == b.description@
    &&& a.status@ == b.status@
    &&& a.rejected == b.rejected
    &&& a.dispatchable == b.dispatchable
    &&& opt_text(a.claimed_by) == opt_text(b.claimed_by)
    &&& a.spawned@ == b.spawned@
    &&& a.depends_on.deep_view() == b.depends_on.deep_view()
    &&& a.waiting_on.deep_view() == b.waiting_on.deep_view()
    &&& a.owns.deep_view() == b.owns.deep_view()
    &&& a.depth == b.depth
    &&& opt_text(a.summary) == opt_text(b.summary)
    &&& a.block_title@ == b.block_title@
    &&& a.block_body@ == b.block_body@
    &&& same_question_dtos(a.open_questions@, b.open_questions@)
    &&& same_opt_announcement_dto(a.last_word, b.last_word)
    &&& a.last_heard == b.last_heard
    &&& same_task_dtos(a.tasks@, b.tasks@)
}

/// Whether two module dto reads say the same thing.
pub fn eq_module_dto(a: &ModuleDto, b: &ModuleDto) -> (r: bool)
    ensures
        r == same_module_dto(*a, *b),
{
    same_text(a.id.as_str(), b.id.as_str())
        && same_text(a.name.as_str(), b.name.as_str())
        && same_text(a.description.as_str(), b.description.as_str())
        && same_text(a.status.as_str(), b.status.as_str())
        && a.rejected == b.rejected
        && a.dispatchable == b.dispatchable
        && eq_opt_text(&a.claimed_by, &b.claimed_by)
        && same_text(a.spawned.as_str(), b.spawned.as_str())
        && eq_texts(&a.depends_on, &b.depends_on)
        && eq_texts(&a.waiting_on, &b.waiting_on)
        && eq_texts(&a.owns, &b.owns)
        && a.depth == b.depth
        && eq_opt_text(&a.summary, &b.summary)
        && same_text(a.block_title.as_str(), b.block_title.as_str())
        && same_text(a.block_body.as_str(), b.block_body.as_str())
        && eq_question_dtos(&a.open_questions, &b.open_questions)
        && eq_opt_announcement_dto(&a.last_word, &b.last_word)
        && a.last_heard == b.last_heard
        && eq_task_dtos(&a.tasks, &b.tasks)
}

/// Every read says the same thing as itself.
pub proof fn lemma_same_module_dto_refl(a: ModuleDto)
    ensures
        same_module_dto(a, a),
{
    lemma_same_question_dtos_refl(a.open_questions@);
    if let Some(x) = a.last_word { lemma_same_announcement_dto_refl(x); }
    lemma_same_task_dtos_refl(a.tasks@);
}

/// Two reads that say the same as a third say the same as each other.
pub proof fn lemma_same_module_dto_trans(a: ModuleDto, b: ModuleDto, c: ModuleDto)
    requires
        same_module_dto(a, b),
        same_module_dto(b, c),
    ensures
        same_module_dto(a, c),
{
    lemma_same_question_dtos_trans(a.open_questions@, b.open_questions@, c.open_questions@);
    if let (Some(x), Some(y), Some(z)) = (a.last_word, b.last_word, c.last_word) { lemma_same_announcement_dto_trans(x, y, z); }
    lemma_same_task_dtos_trans(a.tasks@, b.tasks@, c.tasks@);
}

/// Two lists of module dto reads that say the same thing, item for item.
pub open spec fn same_module_dtos(a: Seq<ModuleDto>, b: Seq<ModuleDto>) -> bool {
    &&& a.len() == b.len()
    &&& forall|i: int| 0 <= i < a.len() ==> #[trigger] same_module_dto(a[i], b[i])
}

fn eq_module_dtos(a: &Vec<ModuleDto>, b: &Vec<ModuleDto>) -> (r: bool)
    ensures
        r == same_module_dtos(a@, b@),
{
    if a.len() != b.len() {
        return false;
    }
    let mut i: usize = 0;
    while i < a.len()
        invariant
            a.len() == b.len(),
            i <= a.len(),
            forall|j: int| 0 <= j < i ==> #[trigger] same_module_dto(a@[j], b@[j]),
        decreases a.len() - i,
    {
        if !eq_module_dto(&a[i], &b[i]) {
            return false;
        }
        i = i + 1;
    }
    true
}

pub proof fn lemma_same_module_dtos_trans(a: Seq<ModuleDto>, b: Seq<ModuleDto>, c: Seq<ModuleDto>)
    requires
        same_module_dtos(a, b),
        same_module_dtos(b, c),
    ensures
        same_module_dtos(a, c),
{
    assert forall|i: int| 0 <= i < a.len() implies #[trigger] same_module_dto(a[i], c[i]) by {
        lemma_same_module_dto_trans(a[i], b[i], c[i]);
    }
}

pub proof fn lemma_same_module_dtos_refl(a: Seq<ModuleDto>)
    ensures
        same_module_dtos(a, a),
{
    assert forall|i: int| 0 <= i < a.len() implies #[trigger] same_module_dto(a[i], a[i]) by {
        lemma_same_module_dto_refl(a[i]);
    }
}

/// One feature's plan, as its detail read returns it.
#[derive(Debug, Default)]
pub struct FeatureDetail {
    pub id: String,
    pub description: String,
    pub modules: Vec<ModuleDto>,
    pub whitepaper: Option<DocumentDto>,
    pub sources: Vec<SourceDto>,
    pub attachments: Vec<AttachmentDto>,
    pub open_questions: Vec<QuestionDto>,
}

/// Two feature detail reads that say the same thing.
pub open spec fn same_feature_detail(a: FeatureDetail, b: FeatureDetail) -> bool {
    &&& a.id@ == b.id@
    &&& a.description@ == b.description@
    &&& same_module_dtos(a.modules@, b.modules@)
    &&& same_opt_document_dto(a.whitepaper, b.whitepaper)
    &&& same_source_dtos(a.sources@, b.sources@)
    &&& same_attachment_dtos(a.attachments@, b.attachments@)
    &&& same_question_dtos(a.open_questions@, b.open_questions@)
}

/// Whether two feature detail reads say the same thing.
pub fn eq_feature_detail(a: &FeatureDetail, b: &FeatureDetail) -> (r: bool)
    ensures
        r == same_feature_detail(*a, *b),
{
    same_text(a.id.as_str(), b.id.as_str())
        && same_text(a.description.as_str(), b.description.as_str())
        && eq_module_dtos(&a.modules, &b.modules)
        && eq_opt_document_dto(&a.whitepaper, &b.whitepaper)
        && eq_source_dtos(&a.sources, &b.sources)
        && eq_attachment_dtos(&a.attachments, &b.attachments)
        && eq_question_dtos(&a.open_questions, &b.open_questions)
}

/// Every read says the same thing as itself.
pub proof fn lemma_same_feature_detail_refl(a: FeatureDetail)
    ensures
        same_feature_detail(a, a),
{
    lemma_same_module_dtos_refl(a.modules@);
    if let Some(x) = a.whitepaper { lemma_same_document_dto_refl(x); }
    lemma_same_source_dtos_refl(a.sources@);
    lemma_same_attachment_dtos_refl(a.attachments@);
    lemma_same_question_dtos_refl(a.open_questions@);
}

/// Two reads that say the same as a third say the same as each other.
pub proof fn lemma_same_feature_detail_trans(a: FeatureDetail, b: FeatureDetail, c: FeatureDetail)
    requires
        same_feature_detail(a, b),
        same_feature_detail(b, c),
    ensures
        same_feature_detail(a, c),
{
    lemma_same_module_dtos_trans(a.modules@, b.modules@, c.modules@);
    if let (Some(x), Some(y), Some(z)) = (a.whitepaper, b.whitepaper, c.whitepaper) { lemma_same_document_dto_trans(x, y, z); }
    lemma_same_source_dtos_trans(a.sources@, b.sources@, c.sources@);
    lemma_same_attachment_dtos_trans(a.attachments@, b.attachments@, c.attachments@);
    lemma_same_question_dtos_trans(a.open_questions@, b.open_questions@, c.open_questions@);
}

/// A feature as the roadmap lists it.
#[derive(Debug, Default)]
pub struct RoadmapFeatureDto {
    pub id: String,
    pub name: String,
    pub status: String,
    pub released: bool,
    pub modules_done: i64,
    pub modules_total: i64,
}

/// Two roadmap feature dto reads that say the same thing.
pub open spec fn same_roadmap_feature_dto(a: RoadmapFeatureDto, b: RoadmapFeatureDto) -> bool {
    &&& a.id@ == b.id@
    &&& a.name@ == b.name@
    &&& a.status@ == b.status@
    &&& a.released == b.released
    &&& a.modules_done == b.modules_done
    &&& a.modules_total == b.modules_total
}

/// Whether two roadmap feature dto reads say the same thing.
pub fn eq_roadmap_feature_dto(a: &RoadmapFeatureDto, b: &RoadmapFeatureDto) -> (r: bool)
    ensures
        r == same_roadmap_feature_dto(*a, *b),
{
    same_text(a.id.as_str(), b.id.as_str())
        && same_text(a.name.as_str(), b.name.as_str())
        && same_text(a.status.as_str(), b.status.as_str())
        && a.released == b.released
        && a.modules_done == b.modules_done
        && a.modules_total == b.modules_total
}

/// Every read says the same thing as itself.
pub proof fn lemma_same_roadmap_feature_dto_refl(a: RoadmapFeatureDto)
    ensures
        same_roadmap_feature_dto(a, a),
{
}

/// Two reads that say the same as a third say the same as each other.
pub proof fn lemma_same_roadmap_feature_dto_trans(a: RoadmapFeatureDto, b: RoadmapFeatureDto, c: RoadmapFeatureDto)
    requires
        same_roadmap_feature_dto(a, b),
        same_roadmap_feature_dto(b, c),
    ensures
        same_roadmap_feature_dto(a, c),
{
}

/// Two lists of roadmap feature dto reads that say the same thing, item for item.
pub open spec fn same_roadmap_feature_dtos(a: Seq<RoadmapFeatureDto>, b: Seq<RoadmapFeatureDto>) -> bool {
    &&& a.len() == b.len()
    &&& forall|i: int| 0 <= i < a.len() ==> #[trigger] same_roadmap_feature_dto(a[i], b[i])
}

fn eq_roadmap_feature_dtos(a: &Vec<RoadmapFeatureDto>, b: &Vec<RoadmapFeatureDto>) -> (r: bool)
    ensures
        r == same_roadmap_feature_dtos(a@, b@),
{
    if a.len() != b.len() {
        return false;
    }
    let mut i: usize = 0;
    while i < a.len()
        invariant
            a.len() == b.len(),
            i <= a.len(),
            forall|j: int| 0 <= j < i ==> #[trigger] same_roadmap_feature_dto(a@[j], b@[j]),
        decreases a.len() - i,
    {
        if !eq_roadmap_feature_dto(&a[i], &b[i]) {
            return false;
        }
        i = i + 1;
    }
    true
}

pub proof fn lemma_same_roadmap_feature_dtos_trans(a: Seq<RoadmapFeatureDto>, b: Seq<RoadmapFeatureDto>, c: Seq<RoadmapFeatureDto>)
    requires
        same_roadmap_feature_dtos(a, b),
        same_roadmap_feature_dtos(b, c),
    ensures
        same_roadmap_feature_dtos(a, c),
{
    assert forall|i: int| 0 <= i < a.len() implies #[trigger] same_roadmap_feature_dto(a[i], c[i]) by {
        lemma_same_roadmap_feature_dto_trans(a[i], b[i], c[i]);
    }
}

pub proof fn lemma_same_roadmap_feature_dtos_refl(a: Seq<RoadmapFeatureDto>)
    ensures
        same_roadmap_feature_dtos(a, a),
{
    assert forall|i: int| 0 <= i < a.len() implies #[trigger] same_roadmap_feature_dto(a[i], a[i]) by {
        lemma_same_roadmap_feature_dto_refl(a[i]);
    }
}

/// One roadmap item.
#[derive(Debug, Default)]
pub struct RoadmapItemDto {
    pub id: String,
    pub name: String,
    pub intent: String,
    pub vision: String,
    pub horizon: String,
    pub state: String,
    pub shipped_at: String,
    pub shipped_by: String,
    pub shelved: bool,
    pub depth: i32,
    pub depends_on: Vec<RoadmapEdgeDto>,
    pub unlocks: Vec<RoadmapEdgeDto>,
    pub features: Vec<RoadmapFeatureDto>,
}

/// Two roadmap item dto reads that say the same thing.
pub open spec fn same_roadmap_item_dto(a: RoadmapItemDto, b: RoadmapItemDto) -> bool {
    &&& a.id@ == b.id@
    &&& a.name@ == b.name@
    &&& a.intent@ == b.intent@
    &&& a.vision@ == b.vision@
    &&& a.horizon@ == b.horizon@
    &&& a.state@ == b.state@
    &&& a.shipped_at@ == b.shipped_at@
    &&& a.shipped_by@ == b.shipped_by@
    &&& a.shelved == b.shelved
    &&& a.depth == b.depth
    &&& same_roadmap_edge_dtos(a.depends_on@, b.depends_on@)
    &&& same_roadmap_edge_dtos(a.unlocks@, b.unlocks@)
    &&& same_roadmap_feature_dtos(a.features@, b.features@)
}

/// Whether two roadmap item dto reads say the same thing.
pub fn eq_roadmap_item_dto(a: &RoadmapItemDto, b: &RoadmapItemDto) -> (r: bool)
    ensures
        r == same_roadmap_item_dto(*a, *b),
{
    same_text(a.id.as_str(), b.id.as_str())
        && same_text(a.name.as_str(), b.name.as_str())
        && same_text(a.intent.as_str(), b.intent.as_str())
        && same_text(a.vision.as_str(), b.vision.as_str())
        && same_text(a.horizon.as_str(), b.horizon.as_str())
        && same_text(a.state.as_str(), b.state.as_str())
        && same_text(a.shipped_at.as_str(), b.shipped_at.as_str())
        && same_text(a.shipped_by.as_str(), b.shipped_by.as_str())
        && a.shelved == b.shelved
        && a.depth == b.depth
        && eq_roadmap_edge_dtos(&a.depends_on, &b.depends_on)
        && eq_roadmap_edge_dtos(&a.unlocks, &b.unlocks)
        && eq_roadmap_feature_dtos(&a.features, &b.features)
}

/// Every read says the same thing as itself.
pub proof fn lemma_same_roadmap_item_dto_refl(a: RoadmapItemDto)
    ensures
        same_roadmap_item_dto(a, a),
{
    lemma_same_roadmap_edge_dtos_refl(a.depends_on@);
    lemma_same_roadmap_edge_dtos_refl(a.unlocks@);
    lemma_same_roadmap_feature_dtos_refl(a.features@);
}

/// Two reads that say the same as a third say the same as each other.
pub proof fn lemma_same_roadmap_item_dto_trans(a: RoadmapItemDto, b: RoadmapItemDto, c: RoadmapItemDto)
    requires
        same_roadmap_item_dto(a, b),
        same_roadmap_item_dto(b, c),
    ensures
        same_roadmap_item_dto(a, c),
{
    lemma_same_roadmap_edge_dtos_trans(a.depends_on@, b.depends_on@, c.depends_on@);
    lemma_same_roadmap_edge_dtos_trans(a.unlocks@, b.unlocks@, c.unlocks@);
    lemma_same_roadmap_feature_dtos_trans(a.features@, b.features@, c.features@);
}

/// Two lists of roadmap item dto reads that say the same thing, item for item.
pub open spec fn same_roadmap_item_dtos(a: Seq<RoadmapItemDto>, b: Seq<RoadmapItemDto>) -> bool {
    &&& a.len() == b.len()
    &&& forall|i: int| 0 <= i < a.len() ==> #[trigger] same_roadmap_item_dto(a[i], b[i])
}

fn eq_roadmap_item_dtos(a: &Vec<RoadmapItemDto>, b: &Vec<RoadmapItemDto>) -> (r: bool)
    ensures
        r == same_roadmap_item_dtos(a@, b@),
{
    if a.len() != b.len() {
        return false;
    }
    let mut i: usize = 0;
    while i < a.len()
        invariant
            a.len() == b.len(),
            i <= a.len(),
            forall|j: int| 0 <= j < i ==> #[trigger] same_roadmap_item_dto(a@[j], b@[j]),
        decreases a.len() - i,
    {
        if !eq_roadmap_item_dto(&a[i], &b[i]) {
            return false;
        }
        i = i + 1;
    }
    true
}

pub proof fn lemma_same_roadmap_item_dtos_trans(a: Seq<RoadmapItemDto>, b: Seq<RoadmapItemDto>, c: Seq<RoadmapItemDto>)
    requires
        same_roadmap_item_dtos(a, b),
        same_roadmap_item_dtos(b, c),
    ensures
        same_roadmap_item_dtos(a, c),
{
    assert forall|i: int| 0 <= i < a.len() implies #[trigger] same_roadmap_item_dto(a[i], c[i]) by {
        lemma_same_roadmap_item_dto_trans(a[i], b[i], c[i]);
    }
}

pub proof fn lemma_same_roadmap_item_dtos_refl(a: Seq<RoadmapItemDto>)
    ensures
        same_roadmap_item_dtos(a, a),
{
    assert forall|i: int| 0 <= i < a.len() implies #[trigger] same_roadmap_item_dto(a[i], a[i]) by {
        lemma_same_roadmap_item_dto_refl(a[i]);
    }
}

/// The roadmap read.
#[derive(Debug, Default)]
pub struct RoadmapDto {
    pub items: Vec<RoadmapItemDto>,
    pub loose_features: Vec<RoadmapFeatureDto>,
}

/// Two roadmap dto reads that say the same thing.
pub open spec fn same_roadmap_dto(a: RoadmapDto, b: RoadmapDto) -> bool {
    &&& same_roadmap_item_dtos(a.items@, b.items@)
    &&& same_roadmap_feature_dtos(a.loose_features@, b.loose_features@)
}

/// Whether two roadmap dto reads say the same thing.
pub fn eq_roadmap_dto(a: &RoadmapDto, b: &RoadmapDto) -> (r: bool)
    ensures
        r == same_roadmap_dto(*a, *b),
{
    eq_roadmap_item_dtos(&a.items, &b.items)
        && eq_roadmap_feature_dtos(&a.loose_features, &b.loose_features)
}

/// Every read says the same thing as itself.
pub proof fn lemma_same_roadmap_dto_refl(a: RoadmapDto)
    ensures
        same_roadmap_dto(a, a),
{
    lemma_same_roadmap_item_dtos_refl(a.items@);
    lemma_same_roadmap_feature_dtos_refl(a.loose_features@);
}

/// Two reads that say the same as a third say the same as each other.
pub proof fn lemma_same_roadmap_dto_trans(a: RoadmapDto, b: RoadmapDto, c: RoadmapDto)
    requires
        same_roadmap_dto(a, b),
        same_roadmap_dto(b, c),
    ensures
        same_roadmap_dto(a, c),
{
    lemma_same_roadmap_item_dtos_trans(a.items@, b.items@, c.items@);
    lemma_same_roadmap_feature_dtos_trans(a.loose_features@, b.loose_features@, c.loose_features@);
}

/// One module's drawer read.
#[derive(Debug, Default)]
pub struct ModuleDetail {
    pub id: String,
    pub handoff: Option<DocumentDto>,
    pub history: Vec<EventDto>,
}

/// Two module detail reads that say the same thing.
pub open spec fn same_module_detail(a: ModuleDetail, b: ModuleDetail) -> bool {
    &&& a.id@ == b.id@
    &&& same_opt_document_dto(a.handoff, b.handoff)
    &&& same_event_dtos(a.history@, b.history@)
}

/// Whether two module detail reads say the same thing.
pub fn eq_module_detail(a: &ModuleDetail, b: &ModuleDetail) -> (r: bool)
    ensures
        r == same_module_detail(*a, *b),
{
    same_text(a.id.as_str(), b.id.as_str())
        && eq_opt_document_dto(&a.handoff, &b.handoff)
        && eq_event_dtos(&a.history, &b.history)
}

/// Every read says the same thing as itself.
pub proof fn lemma_same_module_detail_refl(a: ModuleDetail)
    ensures
        same_module_detail(a, a),
{
    if let Some(x) = a.handoff { lemma_same_document_dto_refl(x); }
    lemma_same_event_dtos_refl(a.history@);
}

/// Two reads that say the same as a third say the same as each other.
pub proof fn lemma_same_module_detail_trans(a: ModuleDetail, b: ModuleDetail, c: ModuleDetail)
    requires
        same_module_detail(a, b),
        same_module_detail(b, c),
    ensures
        same_module_detail(a, c),
{
    if let (Some(x), Some(y), Some(z)) = (a.handoff, b.handoff, c.handoff) { lemma_same_document_dto_trans(x, y, z); }
    lemma_same_event_dtos_trans(a.history@, b.history@, c.history@);
}

/// One page of a feature's ledger, newest first.
#[derive(Debug, Default)]
pub struct EventPage {
    pub feature_id: String,
    pub events: Vec<EventDto>,
    pub more: bool,
}

/// Two event page reads that say the same thing.
pub open spec fn same_event_page(a: EventPage, b: EventPage) -> bool {
    &&& a.feature_id@ == b.feature_id@
    &&& same_event_dtos(a.events@, b.events@)
    &&& a.more == b.more
}

/// Whether two event page reads say the same thing.
pub fn eq_event_page(a: &EventPage, b: &EventPage) -> (r: bool)
    ensures
        r == same_event_page(*a, *b),
{
    same_text(a.feature_id.as_str(), b.feature_id.as_str())
        && eq_event_dtos(&a.events, &b.events)
        && a.more == b.more
}

/// Every read says the same thing as itself.
pub proof fn lemma_same_event_page_refl(a: EventPage)
    ensures
        same_event_page(a, a),
{
    lemma_same_event_dtos_refl(a.events@);
}

/// Two reads that say the same as a third say the same as each other.
pub proof fn lemma_same_event_page_trans(a: EventPage, b: EventPage, c: EventPage)
    requires
        same_event_page(a, b),
        same_event_page(b, c),
    ensures
        same_event_page(a, c),
{
    lemma_same_event_dtos_trans(a.events@, b.events@, c.events@);
}

/// One comment.
#[derive(Debug, Default)]
pub struct CommentDto {
    pub id: String,
    pub kind: String,
    pub body: String,
    pub author: String,
    pub assigned_to: String,
    pub answers: String,
    pub resolved: bool,
    pub resolved_by: String,
    pub posted: String,
    pub edited: bool,
    pub attachments: Vec<AttachmentDto>,
}

/// Two comment dto reads that say the same thing.
pub open spec fn same_comment_dto(a: CommentDto, b: CommentDto) -> bool {
    &&& a.id@ == b.id@
    &&& a.kind@ == b.kind@
    &&& a.body@ == b.body@
    &&& a.author@ == b.author@
    &&& a.assigned_to@ == b.assigned_to@
    &&& a.answers@ == b.answers@
    &&& a.resolved == b.resolved
    &&& a.resolved_by@ == b.resolved_by@
    &&& a.posted@ == b.posted@
    &&& a.edited == b.edited
    &&& same_attachment_dtos(a.attachments@, b.attachments@)
}

/// Whether two comment dto reads say the same thing.
pub fn eq_comment_dto(a: &CommentDto, b: &CommentDto) -> (r: bool)
    ensures
        r == same_comment_dto(*a, *b),
{
    same_text(a.id.as_str(), b.id.as_str())
        && same_text(a.kind.as_str(), b.kind.as_str())
        && same_text(a.body.as_str(), b.body.as_str())
        && same_text(a.author.as_str(), b.author.as_str())
        && same_text(a.assigned_to.as_str(), b.assigned_to.as_str())
        && same_text(a.answers.as_str(), b.answers.as_str())
        && a.resolved == b.resolved
        && same_text(a.resolved_by.as_str(), b.resolved_by.as_str())
        && same_text(a.posted.as_str(), b.posted.as_str())
        && a.edited == b.edited
        && eq_attachment_dtos(&a.attachments, &b.attachments)
}

/// Every read says the same thing as itself.
pub proof fn lemma_same_comment_dto_refl(a: CommentDto)
    ensures
        same_comment_dto(a, a),
{
    lemma_same_attachment_dtos_refl(a.attachments@);
}

/// Two reads that say the same as a third say the same as each other.
pub proof fn lemma_same_comment_dto_trans(a: CommentDto, b: CommentDto, c: CommentDto)
    requires
        same_comment_dto(a, b),
        same_comment_dto(b, c),
    ensures
        same_comment_dto(a, c),
{
    lemma_same_attachment_dtos_trans(a.attachments@, b.attachments@, c.attachments@);
}

/// Two lists of comment dto reads that say the same thing, item for item.
pub open spec fn same_comment_dtos(a: Seq<CommentDto>, b: Seq<CommentDto>) -> bool {
    &&& a.len() == b.len()
    &&& forall|i: int| 0 <= i < a.len() ==> #[trigger] same_comment_dto(a[i], b[i])
}

fn eq_comment_dtos(a: &Vec<CommentDto>, b: &Vec<CommentDto>) -> (r: bool)
    ensures
        r == same_comment_dtos(a@, b@),
{
    if a.len() != b.len() {
        return false;
    }
    let mut i: usize = 0;
    while i < a.len()
        invariant
            a.len() == b.len(),
            i <= a.len(),
            forall|j: int| 0 <= j < i ==> #[trigger] same_comment_dto(a@[j], b@[j]),
        decreases a.len() - i,
    {
        if !eq_comment_dto(&a[i], &b[i]) {
            return false;
        }
        i = i + 1;
    }
    true
}

pub proof fn lemma_same_comment_dtos_trans(a: Seq<CommentDto>, b: Seq<CommentDto>, c: Seq<CommentDto>)
    requires
        same_comment_dtos(a, b),
        same_comment_dtos(b, c),
    ensures
        same_comment_dtos(a, c),
{
    assert forall|i: int| 0 <= i < a.len() implies #[trigger] same_comment_dto(a[i], c[i]) by {
        lemma_same_comment_dto_trans(a[i], b[i], c[i]);
    }
}

pub proof fn lemma_same_comment_dtos_refl(a: Seq<CommentDto>)
    ensures
        same_comment_dtos(a, a),
{
    assert forall|i: int| 0 <= i < a.len() implies #[trigger] same_comment_dto(a[i], a[i]) by {
        lemma_same_comment_dto_refl(a[i]);
    }
}

/// One subject's discussion.
#[derive(Debug, Default)]
pub struct CommentPage {
    pub subject_id: String,
    pub comments: Vec<CommentDto>,
}

/// Two comment page reads that say the same thing.
pub open spec fn same_comment_page(a: CommentPage, b: CommentPage) -> bool {
    &&& a.subject_id@ == b.subject_id@
    &&& same_comment_dtos(a.comments@, b.comments@)
}

/// Whether two comment page reads say the same thing.
pub fn eq_comment_page(a: &CommentPage, b: &CommentPage) -> (r: bool)
    ensures
        r == same_comment_page(*a, *b),
{
    same_text(a.subject_id.as_str(), b.subject_id.as_str())
        && eq_comment_dtos(&a.comments, &b.comments)
}

/// Every read says the same thing as itself.
pub proof fn lemma_same_comment_page_refl(a: CommentPage)
    ensures
        same_comment_page(a, a),
{
    lemma_same_comment_dtos_refl(a.comments@);
}

/// Two reads that say the same as a third say the same as each other.
pub proof fn lemma_same_comment_page_trans(a: CommentPage, b: CommentPage, c: CommentPage)
    requires
        same_comment_page(a, b),
        same_comment_page(b, c),
    ensures
        same_comment_page(a, c),
{
    lemma_same_comment_dtos_trans(a.comments@, b.comments@, c.comments@);
}

/// A feature a want was read into.
#[derive(Debug, Default)]
pub struct WantLinkDto {
    pub feature_name: String,
    pub rationale: String,
}

/// Two want link dto reads that say the same thing.
pub open spec fn same_want_link_dto(a: WantLinkDto, b: WantLinkDto) -> bool {
    &&& a.feature_name@ == b.feature_name@
    &&& a.rationale@ == b.rationale@
}

/// Whether two want link dto reads say the same thing.
pub fn eq_want_link_dto(a: &WantLinkDto, b: &WantLinkDto) -> (r: bool)
    ensures
        r == same_want_link_dto(*a, *b),
{
    same_text(a.feature_name.as_str(), b.feature_name.as_str())
        && same_text(a.rationale.as_str(), b.rationale.as_str())
}

/// Every read says the same thing as itself.
pub proof fn lemma_same_want_link_dto_refl(a: WantLinkDto)
    ensures
        same_want_link_dto(a, a),
{
}

/// Two reads that say the same as a third say the same as each other.
pub proof fn lemma_same_want_link_dto_trans(a: WantLinkDto, b: WantLinkDto, c: WantLinkDto)
    requires
        same_want_link_dto(a, b),
        same_want_link_dto(b, c),
    ensures
        same_want_link_dto(a, c),
{
}

/// Two lists of want link dto reads that say the same thing, item for item.
pub open spec fn same_want_link_dtos(a: Seq<WantLinkDto>, b: Seq<WantLinkDto>) -> bool {
    &&& a.len() == b.len()
    &&& forall|i: int| 0 <= i < a.len() ==> #[trigger] same_want_link_dto(a[i], b[i])
}

fn eq_want_link_dtos(a: &Vec<WantLinkDto>, b: &Vec<WantLinkDto>) -> (r: bool)
    ensures
        r == same_want_link_dtos(a@, b@),
{
    if a.len() != b.len() {
        return false;
    }
    let mut i: usize = 0;
    while i < a.len()
        invariant
            a.len() == b.len(),
            i <= a.len(),
            forall|j: int| 0 <= j < i ==> #[trigger] same_want_link_dto(a@[j], b@[j]),
        decreases a.len() - i,
    {
        if !eq_want_link_dto(&a[i], &b[i]) {
            return false;
        }
        i = i + 1;
    }
    true
}

pub proof fn lemma_same_want_link_dtos_trans(a: Seq<WantLinkDto>, b: Seq<WantLinkDto>, c: Seq<WantLinkDto>)
    requires
        same_want_link_dtos(a, b),
        same_want_link_dtos(b, c),
    ensures
        same_want_link_dtos(a, c),
{
    assert forall|i: int| 0 <= i < a.len() implies #[trigger] same_want_link_dto(a[i], c[i]) by {
        lemma_same_want_link_dto_trans(a[i], b[i], c[i]);
    }
}

pub proof fn lemma_same_want_link_dtos_refl(a: Seq<WantLinkDto>)
    ensures
        same_want_link_dtos(a, a),
{
    assert forall|i: int| 0 <= i < a.len() implies #[trigger] same_want_link_dto(a[i], a[i]) by {
        lemma_same_want_link_dto_refl(a[i]);
    }
}

/// One want.
#[derive(Debug, Default)]
pub struct WantDto {
    pub id: String,
    pub body: String,
    pub tags: Vec<String>,
    pub status: String,
    pub note: String,
    pub author: String,
    pub captured: String,
    pub features: Vec<WantLinkDto>,
    pub attachments: Vec<AttachmentDto>,
}

/// Two want dto reads that say the same thing.
pub open spec fn same_want_dto(a: WantDto, b: WantDto) -> bool {
    &&& a.id@ == b.id@
    &&& a.body@ == b.body@
    &&& a.tags.deep_view() == b.tags.deep_view()
    &&& a.status@ == b.status@
    &&& a.note@ == b.note@
    &&& a.author@ == b.author@
    &&& a.captured@ == b.captured@
    &&& same_want_link_dtos(a.features@, b.features@)
    &&& same_attachment_dtos(a.attachments@, b.attachments@)
}

/// Whether two want dto reads say the same thing.
pub fn eq_want_dto(a: &WantDto, b: &WantDto) -> (r: bool)
    ensures
        r == same_want_dto(*a, *b),
{
    same_text(a.id.as_str(), b.id.as_str())
        && same_text(a.body.as_str(), b.body.as_str())
        && eq_texts(&a.tags, &b.tags)
        && same_text(a.status.as_str(), b.status.as_str())
        && same_text(a.note.as_str(), b.note.as_str())
        && same_text(a.author.as_str(), b.author.as_str())
        && same_text(a.captured.as_str(), b.captured.as_str())
        && eq_want_link_dtos(&a.features, &b.features)
        && eq_attachment_dtos(&a.attachments, &b.attachments)
}

/// Every read says the same thing as itself.
pub proof fn lemma_same_want_dto_refl(a: WantDto)
    ensures
        same_want_dto(a, a),
{
    lemma_same_want_link_dtos_refl(a.features@);
    lemma_same_attachment_dtos_refl(a.attachments@);
}

/// Two reads that say the same as a third say the same as each other.
pub proof fn lemma_same_want_dto_trans(a: WantDto, b: WantDto, c: WantDto)
    requires
        same_want_dto(a, b),
        same_want_dto(b, c),
    ensures
        same_want_dto(a, c),
{
    lemma_same_want_link_dtos_trans(a.features@, b.features@, c.features@);
    lemma_same_attachment_dtos_trans(a.attachments@, b.attachments@, c.attachments@);
}

/// Two lists of want dto reads that say the same thing, item for item.
pub open spec fn same_want_dtos(a: Seq<WantDto>, b: Seq<WantDto>) -> bool {
    &&& a.len() == b.len()
    &&& forall|i: int| 0 <= i < a.len() ==> #[trigger] same_want_dto(a[i], b[i])
}

fn eq_want_dtos(a: &Vec<WantDto>, b: &Vec<WantDto>) -> (r: bool)
    ensures
        r == same_want_dtos(a@, b@),
{
    if a.len() != b.len() {
        return false;
    }
    let mut i: usize = 0;
    while i < a.len()
        invariant
            a.len() == b.len(),
            i <= a.len(),
            forall|j: int| 0 <= j < i ==> #[trigger] same_want_dto(a@[j], b@[j]),
        decreases a.len() - i,
    {
        if !eq_want_dto(&a[i], &b[i]) {
            return false;
        }
        i = i + 1;
    }
    true
}

pub proof fn lemma_same_want_dtos_trans(a: Seq<WantDto>, b: Seq<WantDto>, c: Seq<WantDto>)
    requires
        same_want_dtos(a, b),
        same_want_dtos(b, c),
    ensures
        same_want_dtos(a, c),
{
    assert forall|i: int| 0 <= i < a.len() implies #[trigger] same_want_dto(a[i], c[i]) by {
        lemma_same_want_dto_trans(a[i], b[i], c[i]);
    }
}

pub proof fn lemma_same_want_dtos_refl(a: Seq<WantDto>)
    ensures
        same_want_dtos(a, a),
{
    assert forall|i: int| 0 <= i < a.len() implies #[trigger] same_want_dto(a[i], a[i]) by {
        lemma_same_want_dto_refl(a[i]);
    }
}

/// One page of the want pool.
#[derive(Debug, Default)]
pub struct WantPage {
    pub wants: Vec<WantDto>,
    pub total: i64,
}

/// Two want page reads that say the same thing.
pub open spec fn same_want_page(a: WantPage, b: WantPage) -> bool {
    &&& same_want_dtos(a.wants@, b.wants@)
    &&& a.total == b.total
}

/// Whether two want page reads say the same thing.
pub fn eq_want_page(a: &WantPage, b: &WantPage) -> (r: bool)
    ensures
        r == same_want_page(*a, *b),
{
    eq_want_dtos(&a.wants, &b.wants)
        && a.total == b.total
}

/// Every read says the same thing as itself.
pub proof fn lemma_same_want_page_refl(a: WantPage)
    ensures
        same_want_page(a, a),
{
    lemma_same_want_dtos_refl(a.wants@);
}

/// Two reads that say the same as a third say the same as each other.
pub proof fn lemma_same_want_page_trans(a: WantPage, b: WantPage, c: WantPage)
    requires
        same_want_page(a, b),
        same_want_page(b, c),
    ensures
        same_want_page(a, c),
{
    lemma_same_want_dtos_trans(a.wants@, b.wants@, c.wants@);
}

} // verus!
