//! Record types, request/response types and their conversions.
//!
//! A confidence is held as the JSON number it was written as, beside the
//! integer the ranking reads from it; a point in time as whole seconds since
//! the Unix epoch and the nanoseconds past that second.
use vstd::prelude::*;

use crate::ids::{
    number_field, optional_text_entry, optional_text_field, spec_stable_identifier,
    stable_identifier, text_field, texts_field, PayloadField,
};
use crate::text::owned;

verus! {

/// A point in time: whole seconds since the Unix epoch (negative before it)
/// and the nanoseconds past that second, as `chrono::DateTime::timestamp` and
/// `timestamp_subsec_nanos` give them. The nanoseconds reach 1_000_000_000 or
/// more only within a leap second.
#[derive(Clone, Copy, Debug, PartialEq, Eq, Structural)]
pub struct Stamp {
    pub secs: i64,
    pub nanos: u32,
}

/// The Unix epoch.
pub open spec fn epoch() -> Stamp {
    Stamp { secs: 0, nanos: 0 }
}

/// `a` comes strictly before `b` (the order of `chrono::DateTime`).
pub open spec fn stamp_before(a: Stamp, b: Stamp) -> bool {
    a.secs < b.secs || (a.secs == b.secs && a.nanos < b.nanos)
}

/// Whether `a` comes strictly before `b`.
pub fn stamp_before_exec(a: Stamp, b: Stamp) -> (r: bool)
    ensures
        r == stamp_before(a, b),
{
    a.secs < b.secs || (a.secs == b.secs && a.nanos < b.nanos)
}

/// The current time (`chrono::Utc::now()`, read by `timestamp` and
/// `timestamp_subsec_nanos`). Nothing is promised of the value: it depends on
/// the clock.
#[verifier::external_body]
pub(crate) fn utc_now() -> (t: Stamp) {
    let now = chrono::Utc::now();
    Stamp { secs: now.timestamp(), nanos: now.timestamp_subsec_nanos() }
}

/// A confidence: the JSON number it is written as (such as `0.95`), and the
/// integer the ranking orders by, the confidence times 1000 truncated toward
/// zero (`950`).
pub struct Confidence {
    pub literal: String,
    pub rank: u64,
}

pub struct ConfidenceView {
    pub literal: Seq<char>,
    pub rank: u64,
}

impl View for Confidence {
    type V = ConfidenceView;

    open spec fn view(&self) -> ConfidenceView {
        ConfidenceView { literal: self.literal@, rank: self.rank }
    }
}

impl Confidence {
    /// A copy of this confidence.
    pub fn duplicate(&self) -> (r: Confidence)
        ensures
            r@ == self@,
    {
        Confidence { literal: owned(self.literal.as_str()), rank: self.rank }
    }
}

/// A confidence from its JSON number and its rank.
pub fn confidence(literal: &str, rank: u64) -> (c: Confidence)
    ensures
        c@ == (ConfidenceView { literal: literal@, rank }),
{
    Confidence { literal: owned(literal), rank }
}

/// The spec view of an optional string.
pub open spec fn opt_view(o: Option<String>) -> Option<Seq<char>> {
    match o {
        Some(s) => Some(s@),
        None => None,
    }
}

/// The view of an optional string slice.
pub open spec fn opt_str(o: Option<&str>) -> Option<Seq<char>> {
    match o {
        Some(w) => Some(w@),
        None => None,
    }
}

/// A copy of an optional string.
pub fn clone_opt(o: &Option<String>) -> (r: Option<String>)
    ensures
        opt_view(r) == opt_view(*o),
{
    match o {
        Some(s) => Some(owned(s.as_str())),
        None => None,
    }
}

/// A copy of a list of strings.
pub fn clone_texts(v: &Vec<String>) -> (r: Vec<String>)
    ensures
        r.deep_view() == v.deep_view(),
{
    let mut r: Vec<String> = Vec::new();
    let mut i: usize = 0;
    while i < v.len()
        invariant
            0 <= i <= v@.len(),
            r.deep_view() =~= v.deep_view().subrange(0, i as int),
        decreases v.len() - i,
    {
        let s = owned(v[i].as_str());
        let ghost before = r.deep_view();
        r.push(s);
        assert(r.deep_view() =~= before.push(s@));
        assert(v.deep_view().subrange(0, i + 1) =~= v.deep_view().subrange(0, i as int).push(
            v[i as int]@,
        ));
        i = i + 1;
    }
    r
}

// ---------------------------------------------------------------------------
// Record types
// ---------------------------------------------------------------------------

/// A durable fact about a tool and resource, such as a table schema.
pub struct FactRecord {
    pub id: String,
    pub namespace: String,
    pub tool_name: String,
    pub resource_id: Option<String>,
    pub topic: String,
    pub title: String,
    pub content: String,
    pub confidence: Confidence,
    pub updated_at: Stamp,
}

pub struct FactView {
    pub id: Seq<char>,
    pub namespace: Seq<char>,
    pub tool_name: Seq<char>,
    pub resource_id: Option<Seq<char>>,
    pub topic: Seq<char>,
    pub title: Seq<char>,
    pub content: Seq<char>,
    pub confidence: ConfidenceView,
    pub updated_at: Stamp,
}

impl View for FactRecord {
    type V = FactView;

    open spec fn view(&self) -> FactView {
        FactView {
            id: self.id@,
            namespace: self.namespace@,
            tool_name: self.tool_name@,
            resource_id: opt_view(self.resource_id),
            topic: self.topic@,
            title: self.title@,
            content: self.content@,
            confidence: self.confidence@,
            updated_at: self.updated_at,
        }
    }
}

impl Clone for FactRecord {
    fn clone(&self) -> (r: Self)
        ensures
            r@ == self@,
    {
        FactRecord {
            id: owned(self.id.as_str()),
            namespace: owned(self.namespace.as_str()),
            tool_name: owned(self.tool_name.as_str()),
            resource_id: clone_opt(&self.resource_id),
            topic: owned(self.topic.as_str()),
            title: owned(self.title.as_str()),
            content: owned(self.content.as_str()),
            confidence: self.confidence.duplicate(),
            updated_at: self.updated_at,
        }
    }
}

/// A reusable recovery procedure for a tool and error family.
pub struct PlaybookRecord {
    pub id: String,
    pub namespace: String,
    pub tool_name: String,
    pub error_family: Option<String>,
    pub title: String,
    pub steps: Vec<String>,
    pub confidence: Confidence,
    pub updated_at: Stamp,
}

pub struct PlaybookView {
    pub id: Seq<char>,
    pub namespace: Seq<char>,
    pub tool_name: Seq<char>,
    pub error_family: Option<Seq<char>>,
    pub title: Seq<char>,
    pub steps: Seq<Seq<char>>,
    pub confidence: ConfidenceView,
    pub updated_at: Stamp,
}

impl View for PlaybookRecord {
    type V = PlaybookView;

    open spec fn view(&self) -> PlaybookView {
        PlaybookView {
            id: self.id@,
            namespace: self.namespace@,
            tool_name: self.tool_name@,
            error_family: opt_view(self.error_family),
            title: self.title@,
            steps: self.steps.deep_view(),
            confidence: self.confidence@,
            updated_at: self.updated_at,
        }
    }
}

impl Clone for PlaybookRecord {
    fn clone(&self) -> (r: Self)
        ensures
            r@ == self@,
    {
        PlaybookRecord {
            id: owned(self.id.as_str()),
            namespace: owned(self.namespace.as_str()),
            tool_name: owned(self.tool_name.as_str()),
            error_family: clone_opt(&self.error_family),
            title: owned(self.title.as_str()),
            steps: clone_texts(&self.steps),
            confidence: self.confidence.duplicate(),
            updated_at: self.updated_at,
        }
    }
}

/// Recent environment state that expires.
pub struct ObservationRecord {
    pub id: String,
    pub namespace: String,
    pub tool_name: String,
    pub resource_id: Option<String>,
    pub topic: String,
    pub content: String,
    pub confidence: Confidence,
    pub updated_at: Stamp,
    pub ttl_seconds: Option<u64>,
}

pub struct ObservationView {
    pub id: Seq<char>,
    pub namespace: Seq<char>,
    pub tool_name: Seq<char>,
    pub resource_id: Option<Seq<char>>,
    pub topic: Seq<char>,
    pub content: Seq<char>,
    pub confidence: ConfidenceView,
    pub updated_at: Stamp,
    pub ttl_seconds: Option<u64>,
}

impl View for ObservationRecord {
    type V = ObservationView;

    open spec fn view(&self) -> ObservationView {
        ObservationView {
            id: self.id@,
            namespace: self.namespace@,
            tool_name: self.tool_name@,
            resource_id: opt_view(self.resource_id),
            topic: self.topic@,
            content: self.content@,
            confidence: self.confidence@,
            updated_at: self.updated_at,
            ttl_seconds: self.ttl_seconds,
        }
    }
}

impl Clone for ObservationRecord {
    fn clone(&self) -> (r: Self)
        ensures
            r@ == self@,
    {
        ObservationRecord {
            id: owned(self.id.as_str()),
            namespace: owned(self.namespace.as_str()),
            tool_name: owned(self.tool_name.as_str()),
            resource_id: clone_opt(&self.resource_id),
            topic: owned(self.topic.as_str()),
            content: owned(self.content.as_str()),
            confidence: self.confidence.duplicate(),
            updated_at: self.updated_at,
            ttl_seconds: self.ttl_seconds,
        }
    }
}

/// Negative knowledge learned from an error, such as a column that does not exist.
pub struct ConstraintRecord {
    pub id: String,
    pub namespace: String,
    pub tool_name: String,
    pub resource_id: Option<String>,
    pub topic: String,
    pub title: String,
    pub content: String,
    pub confidence: Confidence,
    pub updated_at: Stamp,
    pub ttl_seconds: Option<u64>,
}

pub struct ConstraintView {
    pub id: Seq<char>,
    pub namespace: Seq<char>,
    pub tool_name: Seq<char>,
    pub resource_id: Option<Seq<char>>,
    pub topic: Seq<char>,
    pub title: Seq<char>,
    pub content: Seq<char>,
    pub confidence: ConfidenceView,
    pub updated_at: Stamp,
    pub ttl_seconds: Option<u64>,
}

impl View for ConstraintRecord {
    type V = ConstraintView;

    open spec fn view(&self) -> ConstraintView {
        ConstraintView {
            id: self.id@,
            namespace: self.namespace@,
            tool_name: self.tool_name@,
            resource_id: opt_view(self.resource_id),
            topic: self.topic@,
            title: self.title@,
            content: self.content@,
            confidence: self.confidence@,
            updated_at: self.updated_at,
            ttl_seconds: self.ttl_seconds,
        }
    }
}

impl Clone for ConstraintRecord {
    fn clone(&self) -> (r: Self)
        ensures
            r@ == self@,
    {
        ConstraintRecord {
            id: owned(self.id.as_str()),
            namespace: owned(self.namespace.as_str()),
            tool_name: owned(self.tool_name.as_str()),
            resource_id: clone_opt(&self.resource_id),
            topic: owned(self.topic.as_str()),
            title: owned(self.title.as_str()),
            content: owned(self.content.as_str()),
            confidence: self.confidence.duplicate(),
            updated_at: self.updated_at,
            ttl_seconds: self.ttl_seconds,
        }
    }
}

/// A recurring error, counted each time it is seen again.
pub struct FailurePatternRecord {
    pub id: String,
    pub namespace: String,
    pub tool_name: String,
    pub resource_id: Option<String>,
    pub error_family: String,
    pub pattern: String,
    pub occurrence_count: u32,
    pub first_seen: Stamp,
    pub last_seen: Stamp,
    pub ttl_seconds: Option<u64>,
}

pub struct FailurePatternView {
    pub id: Seq<char>,
    pub namespace: Seq<char>,
    pub tool_name: Seq<char>,
    pub resource_id: Option<Seq<char>>,
    pub error_family: Seq<char>,
    pub pattern: Seq<char>,
    pub occurrence_count: u32,
    pub first_seen: Stamp,
    pub last_seen: Stamp,
    pub ttl_seconds: Option<u64>,
}

impl View for FailurePatternRecord {
    type V = FailurePatternView;

    open spec fn view(&self) -> FailurePatternView {
        FailurePatternView {
            id: self.id@,
            namespace: self.namespace@,
            tool_name: self.tool_name@,
            resource_id: opt_view(self.resource_id),
            error_family: self.error_family@,
            pattern: self.pattern@,
            occurrence_count: self.occurrence_count,
            first_seen: self.first_seen,
            last_seen: self.last_seen,
            ttl_seconds: self.ttl_seconds,
        }
    }
}

impl Clone for FailurePatternRecord {
    fn clone(&self) -> (r: Self)
        ensures
            r@ == self@,
    {
        FailurePatternRecord {
            id: owned(self.id.as_str()),
            namespace: owned(self.namespace.as_str()),
            tool_name: owned(self.tool_name.as_str()),
            resource_id: clone_opt(&self.resource_id),
            error_family: owned(self.error_family.as_str()),
            pattern: owned(self.pattern.as_str()),
            occurrence_count: self.occurrence_count,
            first_seen: self.first_seen,
            last_seen: self.last_seen,
            ttl_seconds: self.ttl_seconds,
        }
    }
}

/// Records that can be copied with their view kept.
pub trait Duplicate: View + Sized {
    fn duplicate(&self) -> (r: Self)
        ensures
            r@ == self@,
    ;
}

impl Duplicate for FactRecord {
    fn duplicate(&self) -> (r: Self) {
        self.clone()
    }
}

impl Duplicate for PlaybookRecord {
    fn duplicate(&self) -> (r: Self) {
        self.clone()
    }
}

impl Duplicate for ObservationRecord {
    fn duplicate(&self) -> (r: Self) {
        self.clone()
    }
}

impl Duplicate for ConstraintRecord {
    fn duplicate(&self) -> (r: Self) {
        self.clone()
    }
}

impl Duplicate for FailurePatternRecord {
    fn duplicate(&self) -> (r: Self) {
        self.clone()
    }
}

/// The views of a sequence of records.
pub open spec fn views<T: View>(s: Seq<T>) -> Seq<T::V> {
    s.map_values(|x: T| x@)
}

// ---------------------------------------------------------------------------
// Request / response types
// ---------------------------------------------------------------------------

/// A request for the stored context of a tool (and resource).
pub struct ContextRetrieveRequest {
    pub namespace: String,
    pub user_id: Option<String>,
    pub tool_name: String,
    pub resource_id: Option<String>,
    pub task_type: Option<String>,
    pub error_text: Option<String>,
    pub query: Option<String>,
}

/// The context bundle returned for a retrieval request.
pub struct ContextRetrieveResponse {
    pub namespace: String,
    pub tool_name: String,
    pub resource_id: Option<String>,
    pub matched_error_family: Option<String>,
    pub facts: Vec<FactRecord>,
    pub playbooks: Vec<PlaybookRecord>,
    pub observations: Vec<ObservationRecord>,
    pub constraints: Vec<ConstraintRecord>,
    pub failure_patterns: Vec<FailurePatternRecord>,
    pub prompt_context: String,
}

/// A request to store a fact.
pub struct StoreFactRequest {
    pub id: Option<String>,
    pub namespace: String,
    pub tool_name: String,
    pub resource_id: Option<String>,
    pub topic: String,
    pub title: String,
    pub content: String,
    pub confidence: Confidence,
}

/// A request to store a playbook.
pub struct StorePlaybookRequest {
    pub id: Option<String>,
    pub namespace: String,
    pub tool_name: String,
    pub error_family: Option<String>,
    pub title: String,
    pub steps: Vec<String>,
    pub confidence: Confidence,
}

/// A request to store an observation.
pub struct StoreObservationRequest {
    pub id: Option<String>,
    pub namespace: String,
    pub tool_name: String,
    pub resource_id: Option<String>,
    pub topic: String,
    pub content: String,
    pub confidence: Confidence,
    pub ttl_seconds: Option<u64>,
}

/// The result of one tool invocation, reported for automatic extraction.
pub struct ToolResultEvent {
    pub namespace: String,
    pub tool_name: String,
    pub command: Option<String>,
    pub resource_id: Option<String>,
    pub stdout: Option<String>,
    pub stderr: Option<String>,
    pub is_error: bool,
    pub agent_id: Option<String>,
    pub session_id: Option<String>,
}

pub struct ToolResultEventView {
    pub namespace: Seq<char>,
    pub tool_name: Seq<char>,
    pub command: Option<Seq<char>>,
    pub resource_id: Option<Seq<char>>,
    pub stdout: Option<Seq<char>>,
    pub stderr: Option<Seq<char>>,
    pub is_error: bool,
    pub agent_id: Option<Seq<char>>,
    pub session_id: Option<Seq<char>>,
}

impl View for ToolResultEvent {
    type V = ToolResultEventView;

    open spec fn view(&self) -> ToolResultEventView {
        ToolResultEventView {
            namespace: self.namespace@,
            tool_name: self.tool_name@,
            command: opt_view(self.command),
            resource_id: opt_view(self.resource_id),
            stdout: opt_view(self.stdout),
            stderr: opt_view(self.stderr),
            is_error: self.is_error,
            agent_id: opt_view(self.agent_id),
            session_id: opt_view(self.session_id),
        }
    }
}

/// The records stored from one tool-result event.
pub struct ToolResultResponse {
    pub stored: Vec<StoredItem>,
}

/// One stored record: its type (`fact`, `constraint`, `failure_pattern`,
/// `observation`) and id.
pub struct StoredItem {
    pub record_type: String,
    pub id: String,
}

/// Query parameters of the debug listings.
pub struct DebugQuery {
    pub namespace: String,
    pub tool_name: String,
    pub resource_id: Option<String>,
    pub error_family: Option<String>,
}

// ---------------------------------------------------------------------------
// Defaults
// ---------------------------------------------------------------------------

/// The namespace used when a request names none: `default`.
pub fn default_namespace() -> (r: String)
    ensures
        r@ == "default"@,
{
    owned("default")
}

/// The confidence used when a request gives none: 1.0.
pub fn default_confidence() -> (r: Confidence)
    ensures
        r@ == (ConfidenceView { literal: "1.0"@, rank: 1000 }),
{
    confidence("1.0", 1000)
}

/// The occurrence count of a newly seen failure pattern.
pub fn default_one() -> (r: u32)
    ensures
        r == 1,
{
    1
}

// ---------------------------------------------------------------------------
// Conversions from store requests
// ---------------------------------------------------------------------------

/// The identifier payload of a fact request.
pub open spec fn fact_payload(r: StoreFactRequest) -> Seq<(Seq<char>, u8, Seq<Seq<char>>)> {
    seq![
        ("namespace"@, 1u8, seq![r.namespace@]),
        ("tool_name"@, 1u8, seq![r.tool_name@]),
        optional_text_entry("resource_id"@, opt_view(r.resource_id)),
        ("topic"@, 1u8, seq![r.topic@]),
        ("title"@, 1u8, seq![r.title@]),
        ("content"@, 1u8, seq![r.content@]),
        ("confidence"@, 3u8, seq![r.confidence@.literal]),
    ]
}

/// The record stored for a fact request at time `now`.
pub open spec fn fact_from_request(r: StoreFactRequest, now: Stamp) -> FactView {
    FactView {
        id: match r.id {
            Some(id) => id@,
            None => spec_stable_identifier("fact"@, fact_payload(r)),
        },
        namespace: r.namespace@,
        tool_name: r.tool_name@,
        resource_id: opt_view(r.resource_id),
        topic: r.topic@,
        title: r.title@,
        content: r.content@,
        confidence: r.confidence@,
        updated_at: now,
    }
}

/// The identifier payload of a playbook request.
pub open spec fn playbook_payload(r: StorePlaybookRequest) -> Seq<
    (Seq<char>, u8, Seq<Seq<char>>),
> {
    seq![
        ("namespace"@, 1u8, seq![r.namespace@]),
        ("tool_name"@, 1u8, seq![r.tool_name@]),
        optional_text_entry("error_family"@, opt_view(r.error_family)),
        ("title"@, 1u8, seq![r.title@]),
        ("steps"@, 2u8, r.steps.deep_view()),
        ("confidence"@, 3u8, seq![r.confidence@.literal]),
    ]
}

/// The record stored for a playbook request at time `now`.
pub open spec fn playbook_from_request(r: StorePlaybookRequest, now: Stamp) -> PlaybookView {
    PlaybookView {
        id: match r.id {
            Some(id) => id@,
            None => spec_stable_identifier("playbook"@, playbook_payload(r)),
        },
        namespace: r.namespace@,
        tool_name: r.tool_name@,
        error_family: opt_view(r.error_family),
        title: r.title@,
        steps: r.steps.deep_view(),
        confidence: r.confidence@,
        updated_at: now,
    }
}

/// The identifier payload of an observation request.
pub open spec fn observation_payload(r: StoreObservationRequest) -> Seq<
    (Seq<char>, u8, Seq<Seq<char>>),
> {
    seq![
        ("namespace"@, 1u8, seq![r.namespace@]),
        ("tool_name"@, 1u8, seq![r.tool_name@]),
        optional_text_entry("resource_id"@, opt_view(r.resource_id)),
        ("topic"@, 1u8, seq![r.topic@]),
        ("content"@, 1u8, seq![r.content@]),
        ("confidence"@, 3u8, seq![r.confidence@.literal]),
    ]
}

/// The record stored for an observation request at time `now`.
pub open spec fn observation_from_request(
    r: StoreObservationRequest,
    now: Stamp,
) -> ObservationView {
    ObservationView {
        id: match r.id {
            Some(id) => id@,
            None => spec_stable_identifier("observation"@, observation_payload(r)),
        },
        namespace: r.namespace@,
        tool_name: r.tool_name@,
        resource_id: opt_view(r.resource_id),
        topic: r.topic@,
        content: r.content@,
        confidence: r.confidence@,
        updated_at: now,
        ttl_seconds: r.ttl_seconds,
    }
}

impl StoreFactRequest {
    /// The record for this request, stamped with `now`: the given id, or a
    /// stable id derived from the request's fields.
    pub fn into_record_at(self, now: Stamp) -> (rec: FactRecord)
        ensures
            rec@ == fact_from_request(self, now),
    {
        let id = match &self.id {
            Some(id) => owned(id.as_str()),
            None => {
                let mut payload: Vec<PayloadField> = Vec::new();
                payload.push(text_field("namespace", self.namespace.as_str()));
                payload.push(text_field("tool_name", self.tool_name.as_str()));
                payload.push(optional_text_field("resource_id", &self.resource_id));
                payload.push(text_field("topic", self.topic.as_str()));
                payload.push(text_field("title", self.title.as_str()));
                payload.push(text_field("content", self.content.as_str()));
                payload.push(number_field("confidence", self.confidence.literal.as_str()));
                assert(payload.deep_view() =~= fact_payload(self));
                stable_identifier("fact", &payload)
            },
        };
        FactRecord {
            id,
            namespace: self.namespace,
            tool_name: self.tool_name,
            resource_id: self.resource_id,
            topic: self.topic,
            title: self.title,
            content: self.content,
            confidence: self.confidence,
            updated_at: now,
        }
    }

    /// The record for this request, stamped with the current time.
    pub fn into_record(self) -> (rec: FactRecord)
        ensures
            exists|now: Stamp| rec@ == fact_from_request(self, now),
    {
        let now = utc_now();
        self.into_record_at(now)
    }
}

impl StorePlaybookRequest {
    /// The record for this request, stamped with `now`: the given id, or a
    /// stable id derived from the request's fields.
    pub fn into_record_at(self, now: Stamp) -> (rec: PlaybookRecord)
        ensures
            rec@ == playbook_from_request(self, now),
    {
        let id = match &self.id {
            Some(id) => owned(id.as_str()),
            None => {
                let mut payload: Vec<PayloadField> = Vec::new();
                payload.push(text_field("namespace", self.namespace.as_str()));
                payload.push(text_field("tool_name", self.tool_name.as_str()));
                payload.push(optional_text_field("error_family", &self.error_family));
                payload.push(text_field("title", self.title.as_str()));
                payload.push(texts_field("steps", &self.steps));
                payload.push(number_field("confidence", self.confidence.literal.as_str()));
                assert(payload.deep_view() =~= playbook_payload(self));
                stable_identifier("playbook", &payload)
            },
        };
        PlaybookRecord {
            id,
            namespace: self.namespace,
            tool_name: self.tool_name,
            error_family: self.error_family,
            title: self.title,
            steps: self.steps,
            confidence: self.confidence,
            updated_at: now,
        }
    }

    /// The record for this request, stamped with the current time.
    pub fn into_record(self) -> (rec: PlaybookRecord)
        ensures
            exists|now: Stamp| rec@ == playbook_from_request(self, now),
    {
        let now = utc_now();
        self.into_record_at(now)
    }
}

impl StoreObservationRequest {
    /// The record for this request, stamped with `now`: the given id, or a
    /// stable id derived from the request's fields.
    pub fn into_record_at(self, now: Stamp) -> (rec: ObservationRecord)
        ensures
            rec@ == observation_from_request(self, now),
    {
        let id = match &self.id {
            Some(id) => owned(id.as_str()),
            None => {
                let mut payload: Vec<PayloadField> = Vec::new();
                payload.push(text_field("namespace", self.namespace.as_str()));
                payload.push(text_field("tool_name", self.tool_name.as_str()));
                payload.push(optional_text_field("resource_id", &self.resource_id));
                payload.push(text_field("topic", self.topic.as_str()));
                payload.push(text_field("content", self.content.as_str()));
                payload.push(number_field("confidence", self.confidence.literal.as_str()));
                assert(payload.deep_view() =~= observation_payload(self));
                stable_identifier("observation", &payload)
            },
        };
        ObservationRecord {
            id,
            namespace: self.namespace,
            tool_name: self.tool_name,
            resource_id: self.resource_id,
            topic: self.topic,
            content: self.content,
            confidence: self.confidence,
            updated_at: now,
            ttl_seconds: self.ttl_seconds,
        }
    }

    /// The record for this request, stamped with the current time.
    pub fn into_record(self) -> (rec: ObservationRecord)
        ensures
            exists|now: Stamp| rec@ == observation_from_request(self, now),
    {
        let now = utc_now();
        self.into_record_at(now)
    }
}

} // verus!
