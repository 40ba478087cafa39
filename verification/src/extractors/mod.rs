//! Extraction of facts, constraints and failure patterns from tool results.
use vstd::prelude::*;

pub mod cli;
pub mod pattern;
pub mod sqlite;
pub mod web;

use crate::ids::{
    optional_text_entry, optional_text_field, spec_stable_identifier, stable_identifier,
    text_field, PayloadField,
};
use crate::models::{
    ConstraintRecord, ConstraintView, FactRecord, FactView, FailurePatternRecord,
    FailurePatternView, ObservationRecord, ObservationView, ToolResultEvent, ToolResultEventView,
    Confidence, ConfidenceView, Stamp, clone_opt, epoch, opt_view, views,
};
use crate::text::{owned, spec_trim, trimmed};

verus! {

/// Seconds that extracted constraints and failure patterns are kept: one day.
pub const EXTRACTED_TTL_SECONDS: u64 = 86400;

/// Output from an extractor: zero or more records to store.
pub struct Extracted {
    pub facts: Vec<FactRecord>,
    pub constraints: Vec<ConstraintRecord>,
    pub failure_patterns: Vec<FailurePatternRecord>,
    pub observations: Vec<ObservationRecord>,
}

#[verifier::ext_equal]
pub struct ExtractedView {
    pub facts: Seq<FactView>,
    pub constraints: Seq<ConstraintView>,
    pub failure_patterns: Seq<FailurePatternView>,
    pub observations: Seq<ObservationView>,
}

impl View for Extracted {
    type V = ExtractedView;

    open spec fn view(&self) -> ExtractedView {
        ExtractedView {
            facts: views(self.facts@),
            constraints: views(self.constraints@),
            failure_patterns: views(self.failure_patterns@),
            observations: views(self.observations@),
        }
    }
}

/// Nothing extracted.
pub open spec fn nothing_extracted() -> ExtractedView {
    ExtractedView { facts: seq![], constraints: seq![], failure_patterns: seq![], observations: seq![] }
}

/// Two extractions, one after the other.
pub open spec fn merged(a: ExtractedView, b: ExtractedView) -> ExtractedView {
    ExtractedView {
        facts: a.facts + b.facts,
        constraints: a.constraints + b.constraints,
        failure_patterns: a.failure_patterns + b.failure_patterns,
        observations: a.observations + b.observations,
    }
}

impl Default for Extracted {
    fn default() -> (r: Self)
        ensures
            r@ == nothing_extracted(),
    {
        let r = Extracted {
            facts: Vec::new(),
            constraints: Vec::new(),
            failure_patterns: Vec::new(),
            observations: Vec::new(),
        };
        assert(r@.facts =~= Seq::<FactView>::empty());
        assert(r@.constraints =~= Seq::<ConstraintView>::empty());
        assert(r@.failure_patterns =~= Seq::<FailurePatternView>::empty());
        assert(r@.observations =~= Seq::<ObservationView>::empty());
        r
    }
}

impl Extracted {
    /// Appends the records of `other` after those already held.
    pub fn merge(&mut self, other: Extracted)
        ensures
            final(self)@ == merged(old(self)@, other@),
    {
        let mut other = other;
        let ghost o = other@;
        self.facts.append(&mut other.facts);
        self.constraints.append(&mut other.constraints);
        self.failure_patterns.append(&mut other.failure_patterns);
        self.observations.append(&mut other.observations);
        assert(self@.facts =~= old(self)@.facts + o.facts);
        assert(self@.constraints =~= old(self)@.constraints + o.constraints);
        assert(self@.failure_patterns =~= old(self)@.failure_patterns + o.failure_patterns);
        assert(self@.observations =~= old(self)@.observations + o.observations);
    }
}

/// A source of records extracted from tool results.
pub trait Extractor {
    /// Whether this extractor applies to the event.
    fn can_handle(&self, event: &ToolResultEvent) -> bool;

    /// The records extracted from the event.
    fn extract(&self, event: &ToolResultEvent) -> Extracted;
}

// ---------------------------------------------------------------------------
// Record builders shared by the extractors
// ---------------------------------------------------------------------------

/// The text of an optional string, empty for none.
pub open spec fn or_empty(o: Option<Seq<char>>) -> Seq<char> {
    match o {
        Some(t) => t,
        None => seq![],
    }
}

/// An optional string slice's text, empty for none (`as_deref().unwrap_or("")`).
pub fn text_or_empty(o: &Option<String>) -> (r: &str)
    ensures
        r@ == or_empty(opt_view(*o)),
{
    match o {
        Some(t) => t.as_str(),
        None => {
            proof {
                reveal_strlit("");
            }
            ""
        },
    }
}

/// The identifier payload of a failure pattern (and of a constraint derived
/// from an error family): namespace, tool, resource, error family, pattern.
pub open spec fn family_payload(
    namespace: Seq<char>,
    tool_name: Seq<char>,
    resource_id: Option<Seq<char>>,
    error_family: Seq<char>,
    pattern: Seq<char>,
) -> Seq<(Seq<char>, u8, Seq<Seq<char>>)> {
    seq![
        ("namespace"@, 1u8, seq![namespace]),
        ("tool_name"@, 1u8, seq![tool_name]),
        optional_text_entry("resource_id"@, resource_id),
        ("error_family"@, 1u8, seq![error_family]),
        ("pattern"@, 1u8, seq![pattern]),
    ]
}

/// The identifier for a payload of namespace, tool, resource, error family and pattern.
pub fn family_identifier(
    prefix: &str,
    namespace: &str,
    tool_name: &str,
    resource_id: &Option<String>,
    error_family: &str,
    pattern: &str,
) -> (r: String)
    ensures
        r@ == spec_stable_identifier(
            prefix@,
            family_payload(namespace@, tool_name@, opt_view(*resource_id), error_family@, pattern@),
        ),
{
    let mut payload: Vec<PayloadField> = Vec::new();
    payload.push(text_field("namespace", namespace));
    payload.push(text_field("tool_name", tool_name));
    payload.push(optional_text_field("resource_id", resource_id));
    payload.push(text_field("error_family", error_family));
    payload.push(text_field("pattern", pattern));
    assert(payload.deep_view() =~= family_payload(
        namespace@,
        tool_name@,
        opt_view(*resource_id),
        error_family@,
        pattern@,
    ));
    stable_identifier(prefix, &payload)
}

/// A failure pattern first seen at `now`.
pub open spec fn new_failure(
    namespace: Seq<char>,
    tool_name: Seq<char>,
    resource_id: Option<Seq<char>>,
    error_family: Seq<char>,
    pattern: Seq<char>,
    now: Stamp,
) -> FailurePatternView {
    FailurePatternView {
        id: spec_stable_identifier(
            "fp"@,
            family_payload(namespace, tool_name, resource_id, error_family, pattern),
        ),
        namespace,
        tool_name,
        resource_id,
        error_family,
        pattern,
        occurrence_count: 1,
        first_seen: now,
        last_seen: now,
        ttl_seconds: Some(EXTRACTED_TTL_SECONDS as u64),
    }
}

/// Builds a failure pattern first seen at `now`.
pub fn failure_pattern(
    namespace: &str,
    tool_name: &str,
    resource_id: &Option<String>,
    error_family: &str,
    pattern: &str,
    now: Stamp,
) -> (r: FailurePatternRecord)
    ensures
        r@ == new_failure(
            namespace@,
            tool_name@,
            opt_view(*resource_id),
            error_family@,
            pattern@,
            now,
        ),
{
    FailurePatternRecord {
        id: family_identifier("fp", namespace, tool_name, resource_id, error_family, pattern),
        namespace: owned(namespace),
        tool_name: owned(tool_name),
        resource_id: clone_opt(resource_id),
        error_family: owned(error_family),
        pattern: owned(pattern),
        occurrence_count: 1,
        first_seen: now,
        last_seen: now,
        ttl_seconds: Some(EXTRACTED_TTL_SECONDS),
    }
}

/// A constraint learned at `now`, with the given id, topic, title, content and
/// confidence.
pub open spec fn new_constraint(
    id: Seq<char>,
    namespace: Seq<char>,
    tool_name: Seq<char>,
    resource_id: Option<Seq<char>>,
    topic: Seq<char>,
    title: Seq<char>,
    content: Seq<char>,
    confidence: ConfidenceView,
    now: Stamp,
) -> ConstraintView {
    ConstraintView {
        id,
        namespace,
        tool_name,
        resource_id,
        topic,
        title,
        content,
        confidence,
        updated_at: now,
        ttl_seconds: Some(EXTRACTED_TTL_SECONDS as u64),
    }
}

/// Builds a constraint learned at `now`.
pub fn constraint(
    id: String,
    namespace: &str,
    tool_name: &str,
    resource_id: &Option<String>,
    topic: &str,
    title: String,
    content: &str,
    confidence: Confidence,
    now: Stamp,
) -> (r: ConstraintRecord)
    ensures
        r@ == new_constraint(
            id@,
            namespace@,
            tool_name@,
            opt_view(*resource_id),
            topic@,
            title@,
            content@,
            confidence@,
            now,
        ),
{
    ConstraintRecord {
        id,
        namespace: owned(namespace),
        tool_name: owned(tool_name),
        resource_id: clone_opt(resource_id),
        topic: owned(topic),
        title,
        content: owned(content),
        confidence,
        updated_at: now,
        ttl_seconds: Some(EXTRACTED_TTL_SECONDS),
    }
}

/// The pattern text of an error: the first line mentioning a marker (or the
/// fallback), trimmed.
pub open spec fn pattern_text(
    line: Option<Seq<char>>,
    fallback: Seq<char>,
) -> Seq<char> {
    spec_trim(
        match line {
            Some(l) => l,
            None => fallback,
        },
    )
}

/// The trimmed line, or the trimmed fallback when there is no line.
pub fn pattern_or(line: Option<String>, fallback: &str) -> (r: String)
    ensures
        r@ == pattern_text(opt_view(line), fallback@),
{
    match line {
        Some(l) => trimmed(l.as_str()),
        None => trimmed(fallback),
    }
}

// ---------------------------------------------------------------------------
// The registry of built-in extractors
// ---------------------------------------------------------------------------

/// The built-in extractors, applied in order: SQLite, web, CLI.
pub struct ExtractorRegistry {
    sqlite: sqlite::SqliteExtractor,
    web: web::WebExtractor,
    cli: cli::CliExtractor,
}

impl Default for ExtractorRegistry {
    fn default() -> (r: Self) {
        ExtractorRegistry {
            sqlite: sqlite::SqliteExtractor,
            web: web::WebExtractor,
            cli: cli::CliExtractor,
        }
    }
}

/// What an extractor contributes: its extraction when it applies, else nothing.
pub open spec fn when_handled(handles: bool, x: ExtractedView) -> ExtractedView {
    if handles {
        x
    } else {
        nothing_extracted()
    }
}

/// What the registry yields for an event, each extractor stamping its records
/// with its own time.
pub open spec fn spec_registry_extract(
    e: ToolResultEventView,
    t_sqlite: Stamp,
    t_web: Stamp,
    t_cli: Stamp,
) -> ExtractedView {
    merged(
        merged(
            merged(
                nothing_extracted(),
                when_handled(sqlite::spec_sqlite_handles(e), sqlite::spec_sqlite_extract(e, t_sqlite)),
            ),
            when_handled(
                crate::text::has_any_substring(or_empty(e.command), web::web_command_markers()),
                web::spec_web_extract(e, t_web),
            ),
        ),
        when_handled(e.is_error, cli::spec_cli_extract(e, t_cli)),
    )
}

impl ExtractorRegistry {
    /// The records of every extractor that applies to the event, in registry order.
    pub fn extract(&self, event: &ToolResultEvent) -> (r: Extracted)
        ensures
            exists|t1: Stamp, t2: Stamp, t3: Stamp| r@ == spec_registry_extract(event@, t1, t2, t3),
    {
        let mut result = Extracted::default();
        assert(merged(nothing_extracted(), nothing_extracted()) =~= nothing_extracted());
        let ghost mut t1: Stamp = epoch();
        let ghost mut t2: Stamp = epoch();
        let ghost mut t3: Stamp = epoch();
        if self.sqlite.can_handle(event) {
            let x = self.sqlite.extract(event);
            proof {
                t1 = choose|now: Stamp| x@ == sqlite::spec_sqlite_extract(event@, now);
            }
            result.merge(x);
        } else {
            assert(merged(result@, nothing_extracted()) =~= result@);
        }
        if self.web.can_handle(event) {
            let x = self.web.extract(event);
            proof {
                t2 = choose|now: Stamp| x@ == web::spec_web_extract(event@, now);
            }
            result.merge(x);
        } else {
            assert(merged(result@, nothing_extracted()) =~= result@);
        }
        if self.cli.can_handle(event) {
            let x = self.cli.extract(event);
            proof {
                t3 = choose|now: Stamp| x@ == cli::spec_cli_extract(event@, now);
            }
            result.merge(x);
        } else {
            assert(merged(result@, nothing_extracted()) =~= result@);
        }
        assert(result@ == spec_registry_extract(event@, t1, t2, t3));
        result
    }
}

} // verus!
