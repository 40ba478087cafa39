//! Extraction from web requests: missing pages and invalid URLs.
use vstd::prelude::*;

use crate::extractors::{
    constraint, failure_pattern, new_constraint, new_failure, nothing_extracted, or_empty,
    pattern_or, pattern_text, text_or_empty, Extracted, ExtractedView, Extractor,
};
use crate::ids::{
    optional_text_entry, optional_text_field, spec_stable_identifier, stable_identifier,
    text_field, PayloadField,
};
use crate::models::{
    ConfidenceView, Stamp, ToolResultEvent, ToolResultEventView, confidence, opt_view, utc_now,
    views,
};
use crate::text::{
    contains_any, find_line, first_line_with, has_any_substring, lowercase, owned,
    push_char, push_str, spec_lines, spec_lowercase, strs, text_eq, has_substring,
    lemma_any_of_two, lemma_any_of_three,
};

verus! {

/// Extracts from commands that fetch web resources.
pub struct WebExtractor;

/// Words of a web command.
pub open spec fn web_command_markers() -> Seq<Seq<char>> {
    seq!["curl"@, "wget"@, "http"@]
}

/// Phrases of a missing resource.
pub open spec fn not_found_markers() -> Seq<Seq<char>> {
    seq!["404"@, "not found"@]
}

/// Phrases of an invalid URL.
pub open spec fn invalid_url_markers() -> Seq<Seq<char>> {
    seq!["invalid url"@, "not a url"@, "malformed"@]
}

/// Words that mark the line quoted as the error pattern.
pub open spec fn web_line_markers() -> Seq<Seq<char>> {
    seq!["404"@, "not found"@, "invalid"@, "error"@]
}

/// The error family of a web output, if it shows one.
pub open spec fn spec_detect_web_error(text: Seq<char>) -> Option<Seq<char>> {
    let low = spec_lowercase(text);
    if has_any_substring(low, not_found_markers()) {
        Some("not_found"@)
    } else if has_any_substring(low, invalid_url_markers()) {
        Some("invalid_url"@)
    } else {
        None
    }
}

/// Classifies a web output: `not_found` or `invalid_url`.
pub fn detect_web_error(text: &str) -> (r: Option<String>)
    ensures
        opt_view(r) == spec_detect_web_error(text@),
{
    let lower = lowercase(text);
    let missing = vec!["404", "not found"];
    assert(strs(missing@) =~= not_found_markers());
    if contains_any(lower.as_str(), &missing) {
        return Some(owned("not_found"));
    }
    let invalid = vec!["invalid url", "not a url", "malformed"];
    assert(strs(invalid@) =~= invalid_url_markers());
    if contains_any(lower.as_str(), &invalid) {
        return Some(owned("invalid_url"));
    }
    None
}

/// Standard output and standard error joined by a newline.
pub open spec fn combined_output(e: ToolResultEventView) -> Seq<char> {
    or_empty(e.stdout) + seq!['\n'] + or_empty(e.stderr)
}

/// `format!("{stdout}\n{stderr}")`.
pub fn combine_output(event: &ToolResultEvent) -> (r: String)
    ensures
        r@ == combined_output(event@),
{
    let mut r = owned(text_or_empty(&event.stdout));
    push_char(&mut r, '\n');
    push_str(&mut r, text_or_empty(&event.stderr));
    r
}

/// The identifier payload of an invalid-URL constraint.
pub open spec fn url_constraint_payload(
    namespace: Seq<char>,
    tool_name: Seq<char>,
    resource_id: Option<Seq<char>>,
    pattern: Seq<char>,
) -> Seq<(Seq<char>, u8, Seq<Seq<char>>)> {
    seq![
        ("namespace"@, 1u8, seq![namespace]),
        ("tool_name"@, 1u8, seq![tool_name]),
        optional_text_entry("resource_id"@, resource_id),
        ("pattern"@, 1u8, seq![pattern]),
    ]
}

/// What the web extractor yields for an event at time `now`: for an error in
/// the output, a failure pattern and, for an invalid URL, a constraint.
pub open spec fn spec_web_extract(e: ToolResultEventView, now: Stamp) -> ExtractedView {
    let combined = combined_output(e);
    match spec_detect_web_error(combined) {
        None => nothing_extracted(),
        Some(family) => {
            let pattern = pattern_text(
                first_line_with(spec_lines(combined), web_line_markers()),
                "HTTP error"@,
            );
            ExtractedView {
                facts: seq![],
                constraints: if family == "invalid_url"@ {
                    seq![
                        new_constraint(
                            spec_stable_identifier(
                                "constraint"@,
                                url_constraint_payload(
                                    e.namespace,
                                    e.tool_name,
                                    e.resource_id,
                                    pattern,
                                ),
                            ),
                            e.namespace,
                            e.tool_name,
                            e.resource_id,
                            "invalid_url"@,
                            "Invalid URL detected"@,
                            pattern,
                            ConfidenceView { literal: "0.85"@, rank: 850 },
                            now,
                        ),
                    ]
                } else {
                    seq![]
                },
                failure_patterns: seq![
                    new_failure(e.namespace, e.tool_name, e.resource_id, family, pattern, now),
                ],
                observations: seq![],
            }
        },
    }
}

impl WebExtractor {
    /// The records extracted from the event, stamped with `now`.
    pub fn extract_at(&self, event: &ToolResultEvent, now: Stamp) -> (r: Extracted)
        ensures
            r@ == spec_web_extract(event@, now),
    {
        let mut result = Extracted::default();
        let combined = combine_output(event);
        match detect_web_error(combined.as_str()) {
            None => {},
            Some(family) => {
                let markers = vec!["404", "not found", "invalid", "error"];
                assert(strs(markers@) =~= web_line_markers());
                let line = find_line(combined.as_str(), &markers);
                let pattern = pattern_or(line, "HTTP error");
                let fp = failure_pattern(
                    event.namespace.as_str(),
                    event.tool_name.as_str(),
                    &event.resource_id,
                    family.as_str(),
                    pattern.as_str(),
                    now,
                );
                result.failure_patterns.push(fp);
                if text_eq(family.as_str(), "invalid_url") {
                    let mut payload: Vec<PayloadField> = Vec::new();
                    payload.push(text_field("namespace", event.namespace.as_str()));
                    payload.push(text_field("tool_name", event.tool_name.as_str()));
                    payload.push(optional_text_field("resource_id", &event.resource_id));
                    payload.push(text_field("pattern", pattern.as_str()));
                    assert(payload.deep_view() =~= url_constraint_payload(
                        event.namespace@,
                        event.tool_name@,
                        opt_view(event.resource_id),
                        pattern@,
                    ));
                    let id = stable_identifier("constraint", &payload);
                    let c = constraint(
                        id,
                        event.namespace.as_str(),
                        event.tool_name.as_str(),
                        &event.resource_id,
                        "invalid_url",
                        owned("Invalid URL detected"),
                        pattern.as_str(),
                        confidence("0.85", 850),
                        now,
                    );
                    result.constraints.push(c);
                    assert(views(result.constraints@) =~= seq![c@]);
                } else {
                    assert(views(result.constraints@) =~= Seq::empty());
                }
                assert(views(result.failure_patterns@) =~= seq![fp@]);
            },
        }
        assert(result@ =~= spec_web_extract(event@, now));
        result
    }
}

impl Extractor for WebExtractor {
    /// Applies when the command mentions `curl`, `wget` or `http`.
    fn can_handle(&self, event: &ToolResultEvent) -> (b: bool)
        ensures
            b == has_any_substring(or_empty(event@.command), web_command_markers()),
    {
        let cmd = text_or_empty(&event.command);
        let markers = vec!["curl", "wget", "http"];
        assert(strs(markers@) =~= web_command_markers());
        contains_any(cmd, &markers)
    }

    /// The records extracted from the event, stamped with the current time.
    fn extract(&self, event: &ToolResultEvent) -> (r: Extracted)
        ensures
            exists|now: Stamp| r@ == spec_web_extract(event@, now),
    {
        let now = utc_now();
        self.extract_at(event, now)
    }
}

// ---------------------------------------------------------------------------
// What an error yields
// ---------------------------------------------------------------------------

/// What the web extractor yields, judged on the lowercase form of standard
/// output and standard error joined by a newline: a mention of "404" or "not
/// found" is a `not_found` error; else one of "invalid url", "not a url" or
/// "malformed" an `invalid_url` error. An error gives exactly one failure
/// pattern of that family, of the event's namespace, tool and resource,
/// quoting the first line mentioning "404", "not found", "invalid" or "error"
/// (trimmed), or else "HTTP error". An invalid URL also gives exactly one
/// constraint, "Invalid URL detected", with topic `invalid_url`, the same
/// quoted text and a confidence of 0.85; a missing resource gives none.
/// Output with none of these phrases gives nothing.
pub proof fn law_web_errors(e: ToolResultEventView, now: Stamp)
    ensures
        ({
            let combined = combined_output(e);
            let low = spec_lowercase(combined);
            let x = spec_web_extract(e, now);
            let missing = has_substring(low, "404"@) || has_substring(low, "not found"@);
            let url = has_substring(low, "invalid url"@) || has_substring(low, "not a url"@)
                || has_substring(low, "malformed"@);
            let quoted = pattern_text(
                first_line_with(
                    spec_lines(combined),
                    seq!["404"@, "not found"@, "invalid"@, "error"@],
                ),
                "HTTP error"@,
            );
            &&& missing ==> spec_detect_web_error(combined) == Some("not_found"@)
            &&& (!missing && url) ==> spec_detect_web_error(combined) == Some("invalid_url"@)
            &&& (missing || url) ==> {
                &&& x.failure_patterns.len() == 1
                &&& x.failure_patterns[0].error_family == (if missing {
                    "not_found"@
                } else {
                    "invalid_url"@
                })
                &&& x.failure_patterns[0].pattern == quoted
                &&& x.failure_patterns[0].namespace == e.namespace
                &&& x.failure_patterns[0].tool_name == e.tool_name
                &&& x.failure_patterns[0].resource_id == e.resource_id
            }
            &&& missing ==> x.constraints.len() == 0
            &&& (!missing && url) ==> {
                &&& x.constraints.len() == 1
                &&& x.constraints[0].title == "Invalid URL detected"@
                &&& x.constraints[0].topic == "invalid_url"@
                &&& x.constraints[0].content == quoted
                &&& x.constraints[0].confidence == (ConfidenceView { literal: "0.85"@, rank: 850 })
            }
            &&& !(missing || url) ==> spec_detect_web_error(combined) is None
                && x.failure_patterns.len() == 0 && x.constraints.len() == 0
        }),
{
    let combined = combined_output(e);
    let low = spec_lowercase(combined);
    lemma_any_of_two(low, "404"@, "not found"@);
    lemma_any_of_three(low, "invalid url"@, "not a url"@, "malformed"@);
    assert(web_line_markers() =~= seq!["404"@, "not found"@, "invalid"@, "error"@]);
    reveal_strlit("not_found");
    reveal_strlit("invalid_url");
}

} // verus!
