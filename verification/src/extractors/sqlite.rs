//! Extraction from `sqlite3` invocations: table lists, schemas and
//! query errors.
use vstd::prelude::*;

use crate::extractors::web::combined_output;
use crate::extractors::web::combine_output;
use crate::extractors::{
    constraint, failure_pattern, family_identifier, family_payload, new_constraint, new_failure,
    or_empty, pattern_or, pattern_text, text_or_empty, Extracted, ExtractedView, Extractor,
};
use crate::ids::{
    optional_text_entry, optional_text_field, spec_stable_identifier, stable_identifier,
    text_field, PayloadField,
};
use crate::extractors::pattern::{
    compile_pattern, first_group, spec_first_group, spec_pattern_compiles,
};
use crate::models::{
    ConfidenceView, FactRecord, FactView, Stamp, ToolResultEvent, ToolResultEventView, clone_opt,
    confidence, opt_view, utc_now, views,
};
use crate::text::{
    concat, contains_any, contains_text, find_line, first_line_with, has_any_substring,
    has_prefix, has_substring, lemma_any_of_two, lowercase, owned, spec_lines, spec_lowercase,
    starts_with, strs, text_eq,
};

verus! {

/// `.schema <table>`.
pub open spec fn schema_pattern() -> Seq<char> {
    r"\.schema\s+([A-Za-z_][A-Za-z0-9_]*)"@
}

/// `PRAGMA table_info(<table>)`, any case.
pub open spec fn pragma_pattern() -> Seq<char> {
    r"(?i)\bPRAGMA\s+table_info\s*\(\s*([A-Za-z_][A-Za-z0-9_]*)\s*\)"@
}

/// The table a command inspects with `.schema` or `PRAGMA table_info`.
pub open spec fn spec_schema_table(command: Seq<char>) -> Option<Seq<char>> {
    if !spec_pattern_compiles(schema_pattern()) {
        None
    } else {
        match spec_first_group(schema_pattern(), command) {
            Some(t) => Some(t),
            None => if !spec_pattern_compiles(pragma_pattern()) {
                None
            } else {
                spec_first_group(pragma_pattern(), command)
            },
        }
    }
}

/// The table named by `.schema <table>` in a command, or else by
/// `PRAGMA table_info(<table>)`.
pub fn extract_schema_table(command: &str) -> (r: Option<String>)
    ensures
        opt_view(r) == spec_schema_table(command@),
{
    let schema = match compile_pattern(r"\.schema\s+([A-Za-z_][A-Za-z0-9_]*)") {
        Ok(p) => p,
        Err(_) => return None,
    };
    if let Some(t) = first_group(&schema, command) {
        return Some(t);
    }
    let pragma = match compile_pattern(
        r"(?i)\bPRAGMA\s+table_info\s*\(\s*([A-Za-z_][A-Za-z0-9_]*)\s*\)",
    ) {
        Ok(p) => p,
        Err(_) => return None,
    };
    first_group(&pragma, command)
}

// ---------------------------------------------------------------------------
// Error detection
// ---------------------------------------------------------------------------

/// Phrases of an unknown column.
pub open spec fn unknown_column_markers() -> Seq<Seq<char>> {
    seq!["no such column"@, "unknown column"@]
}

/// Phrases of a syntax error.
pub open spec fn syntax_error_markers() -> Seq<Seq<char>> {
    seq!["syntax error"@, "near \""@]
}

/// Words that mark the line quoted as the error pattern.
pub open spec fn sqlite_line_markers() -> Seq<Seq<char>> {
    seq!["error"@, "no such"@]
}

/// The error family of a SQLite output, if it shows one.
pub open spec fn spec_detect_sqlite_error(text: Seq<char>) -> Option<Seq<char>> {
    let low = spec_lowercase(text);
    if has_any_substring(low, unknown_column_markers()) {
        Some("unknown_column"@)
    } else if has_substring(low, "no such table"@) {
        Some("unknown_table"@)
    } else if has_any_substring(low, syntax_error_markers()) {
        Some("syntax_error"@)
    } else {
        None
    }
}

/// Classifies a SQLite output: `unknown_column`, `unknown_table` or `syntax_error`.
pub fn detect_sqlite_error(text: &str) -> (r: Option<String>)
    ensures
        opt_view(r) == spec_detect_sqlite_error(text@),
{
    let lower = lowercase(text);
    let column = vec!["no such column", "unknown column"];
    assert(strs(column@) =~= unknown_column_markers());
    if contains_any(lower.as_str(), &column) {
        return Some(owned("unknown_column"));
    }
    if contains_text(lower.as_str(), "no such table") {
        return Some(owned("unknown_table"));
    }
    let syntax = vec!["syntax error", "near \""];
    assert(strs(syntax@) =~= syntax_error_markers());
    if contains_any(lower.as_str(), &syntax) {
        return Some(owned("syntax_error"));
    }
    None
}

// ---------------------------------------------------------------------------
// The extractor
// ---------------------------------------------------------------------------

/// Extracts from `sqlite3` commands and SQLite resources.
pub struct SqliteExtractor;

/// The identifier payload of a SQLite fact.
pub open spec fn sqlite_fact_payload(
    namespace: Seq<char>,
    resource_id: Option<Seq<char>>,
    topic: Seq<char>,
) -> Seq<(Seq<char>, u8, Seq<Seq<char>>)> {
    seq![
        ("namespace"@, 1u8, seq![namespace]),
        ("tool_name"@, 1u8, seq!["sqlite3"@]),
        optional_text_entry("resource_id"@, resource_id),
        ("topic"@, 1u8, seq![topic]),
    ]
}

/// A SQLite fact learned at `now`.
pub open spec fn sqlite_fact(
    namespace: Seq<char>,
    resource_id: Option<Seq<char>>,
    topic: Seq<char>,
    title: Seq<char>,
    content: Seq<char>,
    now: Stamp,
) -> FactView {
    FactView {
        id: spec_stable_identifier("fact"@, sqlite_fact_payload(namespace, resource_id, topic)),
        namespace,
        tool_name: "sqlite3"@,
        resource_id,
        topic,
        title,
        content,
        confidence: ConfidenceView { literal: "0.95"@, rank: 950 },
        updated_at: now,
    }
}

fn new_sqlite_fact(
    namespace: &str,
    resource_id: &Option<String>,
    topic: String,
    title: String,
    content: &str,
    now: Stamp,
) -> (r: FactRecord)
    ensures
        r@ == sqlite_fact(namespace@, opt_view(*resource_id), topic@, title@, content@, now),
{
    let mut payload: Vec<PayloadField> = Vec::new();
    payload.push(text_field("namespace", namespace));
    payload.push(text_field("tool_name", "sqlite3"));
    payload.push(optional_text_field("resource_id", resource_id));
    payload.push(text_field("topic", topic.as_str()));
    assert(payload.deep_view() =~= sqlite_fact_payload(
        namespace@,
        opt_view(*resource_id),
        topic@,
    ));
    FactRecord {
        id: stable_identifier("fact", &payload),
        namespace: owned(namespace),
        tool_name: owned("sqlite3"),
        resource_id: clone_opt(resource_id),
        topic,
        title,
        content: owned(content),
        confidence: confidence("0.95", 950),
        updated_at: now,
    }
}

/// The output a fact quotes: standard output, or standard error when it is empty.
pub open spec fn sqlite_text(e: ToolResultEventView) -> Seq<char> {
    if or_empty(e.stdout).len() == 0 {
        or_empty(e.stderr)
    } else {
        or_empty(e.stdout)
    }
}

/// The resource named in a title, `unknown` when there is none.
pub open spec fn resource_label(r: Option<Seq<char>>) -> Seq<char> {
    match r {
        Some(t) => t,
        None => "unknown"@,
    }
}

/// The facts of a SQLite event: the table list of a `.tables` command and the
/// schema of an inspected table, when the command succeeded with output.
pub open spec fn sqlite_facts(e: ToolResultEventView, now: Stamp) -> Seq<FactView> {
    let cmd = or_empty(e.command);
    let text = sqlite_text(e);
    let ok = text.len() > 0 && !e.is_error;
    let tables = if has_substring(cmd, ".tables"@) && ok {
        seq![
            sqlite_fact(
                e.namespace,
                e.resource_id,
                "tables"@,
                "Known tables for "@ + resource_label(e.resource_id),
                text,
                now,
            ),
        ]
    } else {
        seq![]
    };
    let schema = match spec_schema_table(cmd) {
        Some(table) => if ok {
            seq![
                sqlite_fact(
                    e.namespace,
                    e.resource_id,
                    "schema:"@ + table,
                    "Schema for "@ + table,
                    text,
                    now,
                ),
            ]
        } else {
            seq![]
        },
        None => seq![],
    };
    tables + schema
}

/// What the SQLite extractor yields for an event at time `now`: facts from
/// successful inspection commands, and for an error in the output a failure
/// pattern and, for unknown columns and tables, a constraint.
pub open spec fn spec_sqlite_extract(e: ToolResultEventView, now: Stamp) -> ExtractedView {
    let combined = combined_output(e);
    let facts = sqlite_facts(e, now);
    match spec_detect_sqlite_error(combined) {
        None => ExtractedView {
            facts,
            constraints: seq![],
            failure_patterns: seq![],
            observations: seq![],
        },
        Some(family) => {
            let pattern = pattern_text(
                first_line_with(spec_lines(combined), sqlite_line_markers()),
                combined,
            );
            ExtractedView {
                facts,
                constraints: if family == "unknown_column"@ || family == "unknown_table"@ {
                    seq![
                        new_constraint(
                            spec_stable_identifier(
                                "constraint"@,
                                family_payload(
                                    e.namespace,
                                    "sqlite3"@,
                                    e.resource_id,
                                    family,
                                    pattern,
                                ),
                            ),
                            e.namespace,
                            "sqlite3"@,
                            e.resource_id,
                            family,
                            "Invalid reference: "@ + family,
                            pattern,
                            ConfidenceView { literal: "0.9"@, rank: 900 },
                            now,
                        ),
                    ]
                } else {
                    seq![]
                },
                failure_patterns: seq![
                    new_failure(e.namespace, "sqlite3"@, e.resource_id, family, pattern, now),
                ],
                observations: seq![],
            }
        },
    }
}

/// Whether the SQLite extractor applies: the command mentions `sqlite3` or
/// the resource is a `sqlite:` one.
pub open spec fn spec_sqlite_handles(e: ToolResultEventView) -> bool {
    has_substring(or_empty(e.command), "sqlite3"@) || match e.resource_id {
        Some(r) => has_prefix(r, "sqlite:"@),
        None => false,
    }
}

impl SqliteExtractor {
    /// The records extracted from the event, stamped with `now`.
    pub fn extract_at(&self, event: &ToolResultEvent, now: Stamp) -> (r: Extracted)
        ensures
            r@ == spec_sqlite_extract(event@, now),
    {
        let mut result = Extracted::default();
        let cmd = text_or_empty(&event.command);
        let stdout = text_or_empty(&event.stdout);
        let stderr = text_or_empty(&event.stderr);
        let text = if stdout.is_empty() {
            stderr
        } else {
            stdout
        };
        let ok = !text.is_empty() && !event.is_error;
        // The table list of `.tables`.
        if contains_text(cmd, ".tables") && ok {
            let label = match &event.resource_id {
                Some(r) => r.as_str(),
                None => "unknown",
            };
            let f = new_sqlite_fact(
                event.namespace.as_str(),
                &event.resource_id,
                owned("tables"),
                concat("Known tables for ", label),
                text,
                now,
            );
            result.facts.push(f);
        }
        let ghost after_tables = views(result.facts@);
        // The schema of `.schema <table>` or `PRAGMA table_info(<table>)`.
        if let Some(table) = extract_schema_table(cmd) {
            if ok {
                let f = new_sqlite_fact(
                    event.namespace.as_str(),
                    &event.resource_id,
                    concat("schema:", table.as_str()),
                    concat("Schema for ", table.as_str()),
                    text,
                    now,
                );
                result.facts.push(f);
                assert(views(result.facts@) =~= after_tables.push(f@));
            }
        }
        assert(views(result.facts@) =~= sqlite_facts(event@, now));
        // Errors in the combined output.
        let combined = combine_output(event);
        if let Some(family) = detect_sqlite_error(combined.as_str()) {
            let markers = vec!["error", "no such"];
            assert(strs(markers@) =~= sqlite_line_markers());
            let line = find_line(combined.as_str(), &markers);
            let pattern = pattern_or(line, combined.as_str());
            let fp = failure_pattern(
                event.namespace.as_str(),
                "sqlite3",
                &event.resource_id,
                family.as_str(),
                pattern.as_str(),
                now,
            );
            result.failure_patterns.push(fp);
            if text_eq(family.as_str(), "unknown_column") || text_eq(
                family.as_str(),
                "unknown_table",
            ) {
                let id = family_identifier(
                    "constraint",
                    event.namespace.as_str(),
                    "sqlite3",
                    &event.resource_id,
                    family.as_str(),
                    pattern.as_str(),
                );
                let c = constraint(
                    id,
                    event.namespace.as_str(),
                    "sqlite3",
                    &event.resource_id,
                    family.as_str(),
                    concat("Invalid reference: ", family.as_str()),
                    pattern.as_str(),
                    confidence("0.9", 900),
                    now,
                );
                result.constraints.push(c);
                assert(views(result.constraints@) =~= seq![c@]);
            } else {
                assert(views(result.constraints@) =~= Seq::empty());
            }
            assert(views(result.failure_patterns@) =~= seq![fp@]);
        }
        assert(result@ =~= spec_sqlite_extract(event@, now));
        result
    }
}

impl Extractor for SqliteExtractor {
    /// Applies when the command mentions `sqlite3` or the resource starts with `sqlite:`.
    fn can_handle(&self, event: &ToolResultEvent) -> (b: bool)
        ensures
            b == spec_sqlite_handles(event@),
    {
        let cmd = text_or_empty(&event.command);
        if contains_text(cmd, "sqlite3") {
            return true;
        }
        match &event.resource_id {
            Some(r) => starts_with(r.as_str(), "sqlite:"),
            None => false,
        }
    }

    /// The records extracted from the event, stamped with the current time.
    fn extract(&self, event: &ToolResultEvent) -> (r: Extracted)
        ensures
            exists|now: Stamp| r@ == spec_sqlite_extract(event@, now),
    {
        let now = utc_now();
        self.extract_at(event, now)
    }
}

// ---------------------------------------------------------------------------
// What an error yields
// ---------------------------------------------------------------------------

/// What the SQLite extractor yields for an error, judged on the lowercase form
/// of standard output and standard error joined by a newline: a mention of
/// "no such column" or "unknown column" is an `unknown_column` error; else one
/// of "no such table" an `unknown_table` error; else one of "syntax error" or
/// `near "` a `syntax_error`. An error gives exactly one failure pattern, of
/// the event's namespace and resource and of tool `sqlite3`, quoting the first
/// line that mentions "error" or "no such" (trimmed), or else the whole
/// output. An unknown column or table also gives exactly one constraint,
/// titled "Invalid reference: " and the family, with the family as topic, the
/// same quoted text as content, and a confidence of 0.9. A syntax error gives
/// no constraint, and output with none of these phrases gives neither.
pub proof fn law_sqlite_errors(e: ToolResultEventView, now: Stamp)
    ensures
        ({
            let combined = combined_output(e);
            let low = spec_lowercase(combined);
            let x = spec_sqlite_extract(e, now);
            let column = has_substring(low, "no such column"@) || has_substring(
                low,
                "unknown column"@,
            );
            let table = has_substring(low, "no such table"@);
            let syntax = has_substring(low, "syntax error"@) || has_substring(low, "near \""@);
            let quoted = pattern_text(
                first_line_with(spec_lines(combined), seq!["error"@, "no such"@]),
                combined,
            );
            &&& (column || table || syntax) ==> {
                &&& x.failure_patterns.len() == 1
                &&& x.failure_patterns[0].pattern == quoted
                &&& x.failure_patterns[0].namespace == e.namespace
                &&& x.failure_patterns[0].tool_name == "sqlite3"@
                &&& x.failure_patterns[0].resource_id == e.resource_id
                &&& x.failure_patterns[0].occurrence_count == 1
            }
            &&& column ==> x.failure_patterns[0].error_family == "unknown_column"@
            &&& (!column && table) ==> x.failure_patterns[0].error_family == "unknown_table"@
            &&& (!column && !table && syntax) ==> x.failure_patterns[0].error_family
                == "syntax_error"@
            &&& (column || table) ==> {
                &&& x.constraints.len() == 1
                &&& x.constraints[0].title == "Invalid reference: "@
                    + x.failure_patterns[0].error_family
                &&& x.constraints[0].topic == x.failure_patterns[0].error_family
                &&& x.constraints[0].content == quoted
                &&& x.constraints[0].confidence == (ConfidenceView { literal: "0.9"@, rank: 900 })
                &&& x.constraints[0].resource_id == e.resource_id
            }
            &&& !(column || table) ==> x.constraints.len() == 0
            &&& !(column || table || syntax) ==> x.failure_patterns.len() == 0
        }),
{
    let combined = combined_output(e);
    let low = spec_lowercase(combined);
    lemma_any_of_two(low, "no such column"@, "unknown column"@);
    lemma_any_of_two(low, "syntax error"@, "near \""@);
    assert(sqlite_line_markers() =~= seq!["error"@, "no such"@]);
    reveal_strlit("syntax_error");
    reveal_strlit("unknown_column");
    reveal_strlit("unknown_table");
}

/// The facts the SQLite extractor learns from a command that succeeded with
/// output (standard output, or standard error when standard output is empty):
/// a `.tables` command gives a fact "Known tables for " and the resource
/// (`unknown` when there is none) with topic `tables`; a command inspecting a
/// table with `.schema` or `PRAGMA table_info` gives a fact "Schema for " and
/// the table, with topic "schema:" and the table, after it. Each quotes the
/// output, is of the event's namespace and resource and of tool `sqlite3`,
/// with a confidence of 0.95. A failed command, or one with no output, gives
/// no fact.
pub proof fn law_sqlite_facts(e: ToolResultEventView, now: Stamp)
    ensures
        ({
            let cmd = or_empty(e.command);
            let text = if or_empty(e.stdout).len() == 0 {
                or_empty(e.stderr)
            } else {
                or_empty(e.stdout)
            };
            let ok = text.len() > 0 && !e.is_error;
            let facts = spec_sqlite_extract(e, now).facts;
            let tables = has_substring(cmd, ".tables"@);
            let first = if tables { 1int } else { 0int };
            &&& !ok ==> facts.len() == 0
            &&& ok ==> facts.len() == first + (if spec_schema_table(cmd) is Some { 1int } else { 0int })
            &&& forall|k: int| 0 <= k < facts.len() ==> {
                &&& (#[trigger] facts[k]).content == text
                &&& facts[k].namespace == e.namespace
                &&& facts[k].resource_id == e.resource_id
                &&& facts[k].tool_name == "sqlite3"@
                &&& facts[k].confidence == (ConfidenceView { literal: "0.95"@, rank: 950 })
            }
            &&& (ok && tables) ==> {
                &&& facts[0].topic == "tables"@
                &&& facts[0].title == "Known tables for "@ + match e.resource_id {
                    Some(r) => r,
                    None => "unknown"@,
                }
            }
            &&& (ok && spec_schema_table(cmd) is Some) ==> {
                &&& facts[first].topic == "schema:"@ + spec_schema_table(cmd)->0
                &&& facts[first].title == "Schema for "@ + spec_schema_table(cmd)->0
            }
        }),
{
}

} // verus!
