//! Extraction from failed command-line invocations: unknown flags and
//! missing arguments.
use vstd::prelude::*;

use crate::extractors::{
    constraint, failure_pattern, family_identifier, family_payload, new_constraint, new_failure,
    nothing_extracted, or_empty, pattern_or, pattern_text, text_or_empty, Extracted,
    ExtractedView, Extractor,
};
use crate::ids::spec_stable_identifier;
use crate::models::{
    ConfidenceView, Stamp, ToolResultEvent, ToolResultEventView, confidence, utc_now, views,
};
use crate::text::{
    concat, contains_any, find_line, first_line_with, has_any_substring, has_substring,
    lemma_any_of_four, lemma_any_of_three, lowercase, owned, spec_lines, spec_lowercase, strs,
    text_eq,
};

verus! {

/// Extracts from any failed command.
pub struct CliExtractor;

/// Words that mark the line quoted as the error pattern.
pub open spec fn cli_line_markers() -> Seq<Seq<char>> {
    seq!["unknown"@, "unrecognized"@, "invalid"@, "missing"@, "error"@]
}

/// Phrases of an unknown or invalid flag.
pub open spec fn unknown_flag_markers() -> Seq<Seq<char>> {
    seq!["unknown option"@, "unknown flag"@, "unrecognized option"@, "invalid option"@]
}

/// Phrases of a missing argument.
pub open spec fn missing_arg_markers() -> Seq<Seq<char>> {
    seq!["missing argument"@, "requires a value"@, "missing required"@]
}

/// The error family and pattern line of a CLI error text, if it is one.
pub open spec fn spec_detect_cli_error(text: Seq<char>) -> Option<(Seq<char>, Seq<char>)> {
    let low = spec_lowercase(text);
    let pattern = pattern_text(first_line_with(spec_lines(text), cli_line_markers()), text);
    if has_any_substring(low, unknown_flag_markers()) {
        Some(("unknown_flag"@, pattern))
    } else if has_any_substring(low, missing_arg_markers()) {
        Some(("missing_arg"@, pattern))
    } else {
        None
    }
}

/// Classifies a CLI error text: `unknown_flag` or `missing_arg`, with the
/// first line mentioning an error word (or the whole text), trimmed.
pub fn detect_cli_error(text: &str) -> (r: Option<(String, String)>)
    ensures
        match r {
            Some((family, pattern)) => spec_detect_cli_error(text@) == Some((family@, pattern@)),
            None => spec_detect_cli_error(text@) is None,
        },
{
    let lower = lowercase(text);
    let line_markers = vec!["unknown", "unrecognized", "invalid", "missing", "error"];
    assert(strs(line_markers@) =~= cli_line_markers());
    let line = find_line(text, &line_markers);
    let pattern = pattern_or(line, text);
    let flag_markers = vec!["unknown option", "unknown flag", "unrecognized option", "invalid option"];
    assert(strs(flag_markers@) =~= unknown_flag_markers());
    if contains_any(lower.as_str(), &flag_markers) {
        return Some((owned("unknown_flag"), pattern));
    }
    let arg_markers = vec!["missing argument", "requires a value", "missing required"];
    assert(strs(arg_markers@) =~= missing_arg_markers());
    if contains_any(lower.as_str(), &arg_markers) {
        return Some((owned("missing_arg"), pattern));
    }
    None
}

/// What the CLI extractor yields for an event at time `now`: for an error in
/// stderr, a failure pattern and, for the two known families, a constraint.
pub open spec fn spec_cli_extract(e: ToolResultEventView, now: Stamp) -> ExtractedView {
    match spec_detect_cli_error(or_empty(e.stderr)) {
        None => nothing_extracted(),
        Some((family, pattern)) => ExtractedView {
            facts: seq![],
            constraints: if family == "unknown_flag"@ || family == "missing_arg"@ {
                seq![
                    new_constraint(
                        spec_stable_identifier(
                            "constraint"@,
                            family_payload(
                                e.namespace,
                                e.tool_name,
                                e.resource_id,
                                family,
                                pattern,
                            ),
                        ),
                        e.namespace,
                        e.tool_name,
                        e.resource_id,
                        family,
                        "CLI error: "@ + family,
                        pattern,
                        ConfidenceView { literal: "0.8"@, rank: 800 },
                        now,
                    ),
                ]
            } else {
                seq![]
            },
            failure_patterns: seq![
                new_failure(e.namespace, e.tool_name, e.resource_id, family, pattern, now),
            ],
            observations: seq![],
        },
    }
}

impl CliExtractor {
    /// The records extracted from the event, stamped with `now`.
    pub fn extract_at(&self, event: &ToolResultEvent, now: Stamp) -> (r: Extracted)
        ensures
            r@ == spec_cli_extract(event@, now),
    {
        let mut result = Extracted::default();
        let stderr = text_or_empty(&event.stderr);
        match detect_cli_error(stderr) {
            None => {},
            Some((family, pattern)) => {
                let fp = failure_pattern(
                    event.namespace.as_str(),
                    event.tool_name.as_str(),
                    &event.resource_id,
                    family.as_str(),
                    pattern.as_str(),
                    now,
                );
                result.failure_patterns.push(fp);
                if text_eq(family.as_str(), "unknown_flag") || text_eq(family.as_str(), "missing_arg") {
                    let id = family_identifier(
                        "constraint",
                        event.namespace.as_str(),
                        event.tool_name.as_str(),
                        &event.resource_id,
                        family.as_str(),
                        pattern.as_str(),
                    );
                    let c = constraint(
                        id,
                        event.namespace.as_str(),
                        event.tool_name.as_str(),
                        &event.resource_id,
                        family.as_str(),
                        concat("CLI error: ", family.as_str()),
                        pattern.as_str(),
                        confidence("0.8", 800),
                        now,
                    );
                    result.constraints.push(c);
                    assert(views(result.constraints@) =~= seq![c@]);
                } else {
                    assert(views(result.constraints@) =~= Seq::empty());
                }
                assert(views(result.failure_patterns@) =~= seq![fp@]);
            },
        }
        assert(result@ =~= spec_cli_extract(event@, now));
        result
    }
}

impl Extractor for CliExtractor {
    /// Applies to every failed command.
    fn can_handle(&self, event: &ToolResultEvent) -> (b: bool)
        ensures
            b == event.is_error,
    {
        event.is_error
    }

    /// The records extracted from the event, stamped with the current time.
    fn extract(&self, event: &ToolResultEvent) -> (r: Extracted)
        ensures
            exists|now: Stamp| r@ == spec_cli_extract(event@, now),
    {
        let now = utc_now();
        self.extract_at(event, now)
    }
}

// ---------------------------------------------------------------------------
// What an error yields
// ---------------------------------------------------------------------------

/// How a CLI error text is classified, on its lowercase form: a mention of
/// "unknown option", "unknown flag", "unrecognized option" or "invalid
/// option" makes it `unknown_flag`; else one of "missing argument", "requires
/// a value" or "missing required" makes it `missing_arg`; a text with none of
/// these is no CLI error. The pattern is the first line mentioning "unknown",
/// "unrecognized", "invalid", "missing" or "error", trimmed, or else the whole
/// text, trimmed.
pub proof fn law_cli_error_families(text: Seq<char>)
    ensures
        ({
            let low = spec_lowercase(text);
            let flag = has_substring(low, "unknown option"@) || has_substring(low, "unknown flag"@)
                || has_substring(low, "unrecognized option"@) || has_substring(
                low,
                "invalid option"@,
            );
            let arg = has_substring(low, "missing argument"@) || has_substring(
                low,
                "requires a value"@,
            ) || has_substring(low, "missing required"@);
            let quoted = pattern_text(
                first_line_with(
                    spec_lines(text),
                    seq!["unknown"@, "unrecognized"@, "invalid"@, "missing"@, "error"@],
                ),
                text,
            );
            &&& flag ==> spec_detect_cli_error(text) == Some(("unknown_flag"@, quoted))
            &&& (!flag && arg) ==> spec_detect_cli_error(text) == Some(("missing_arg"@, quoted))
            &&& (!flag && !arg) ==> spec_detect_cli_error(text) is None
        }),
{
    let low = spec_lowercase(text);
    lemma_any_of_four(low, "unknown option"@, "unknown flag"@, "unrecognized option"@, "invalid option"@);
    lemma_any_of_three(low, "missing argument"@, "requires a value"@, "missing required"@);
    assert(cli_line_markers() =~= seq!["unknown"@, "unrecognized"@, "invalid"@, "missing"@, "error"@]);
}

/// What the CLI extractor yields for an event: for a CLI error in standard
/// error, exactly one failure pattern of that family, quoting its pattern,
/// of the event's namespace, tool and resource, and exactly one constraint
/// titled "CLI error: " and the family, quoting the same pattern, with a
/// confidence of 0.8; for standard error with no CLI error, nothing.
pub proof fn law_cli_extract(e: ToolResultEventView, now: Stamp)
    ensures
        ({
            let x = spec_cli_extract(e, now);
            match spec_detect_cli_error(or_empty(e.stderr)) {
                Some((family, pattern)) => {
                    &&& x.failure_patterns.len() == 1
                    &&& x.failure_patterns[0].error_family == family
                    &&& x.failure_patterns[0].pattern == pattern
                    &&& x.failure_patterns[0].namespace == e.namespace
                    &&& x.failure_patterns[0].tool_name == e.tool_name
                    &&& x.failure_patterns[0].resource_id == e.resource_id
                    &&& x.constraints.len() == 1
                    &&& x.constraints[0].title == "CLI error: "@ + family
                    &&& x.constraints[0].content == pattern
                    &&& x.constraints[0].confidence == (ConfidenceView {
                        literal: "0.8"@,
                        rank: 800,
                    })
                    &&& x.facts.len() == 0
                    &&& x.observations.len() == 0
                },
                None => x.failure_patterns.len() == 0 && x.constraints.len() == 0
                    && x.facts.len() == 0 && x.observations.len() == 0,
            }
        }),
{
    let t = or_empty(e.stderr);
    let low = spec_lowercase(t);
    lemma_any_of_four(low, "unknown option"@, "unknown flag"@, "unrecognized option"@, "invalid option"@);
    lemma_any_of_three(low, "missing argument"@, "requires a value"@, "missing required"@);
    reveal_strlit("unknown_flag");
    reveal_strlit("missing_arg");
}

} // verus!
