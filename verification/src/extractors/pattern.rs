//! Regular expressions, matched by the `regex` crate. A compiled pattern
//! keeps the source it was compiled from; its fields are private to this
//! module, so the two stay together.
use vstd::prelude::*;

use crate::models::opt_view;

verus! {

/// The `regex` crate's compiled expression.
#[verifier::external_type_specification]
#[verifier::external_body]
pub struct ExRegex(regex::Regex);

/// The `regex` crate's error type.
#[verifier::external_type_specification]
#[verifier::external_body]
pub struct ExRegexError(regex::Error);

/// A compiled regular expression with the source it was compiled from.
pub struct CompiledPattern {
    source: String,
    regex: regex::Regex,
}

impl CompiledPattern {
    pub closed spec fn source(&self) -> Seq<char> {
        self.source@
    }
}

/// Whether `regex::Regex::new` accepts the pattern.
pub uninterp spec fn spec_pattern_compiles(pattern: Seq<char>) -> bool;

/// The text of capture group 1 of the leftmost match of the pattern in the
/// text (`Regex::captures` then `Captures::get(1)`), if any.
pub uninterp spec fn spec_first_group(pattern: Seq<char>, text: Seq<char>) -> Option<Seq<char>>;

/// `regex::Regex::new`: the contract names whether the pattern compiles and
/// keeps the pattern's source beside the compiled expression.
#[verifier::external_body]
pub(crate) fn compile_pattern(pattern: &str) -> (r: Result<CompiledPattern, regex::Error>)
    ensures
        r is Ok <==> spec_pattern_compiles(pattern@),
        r matches Ok(p) ==> p.source() == pattern@,
{
    let regex = regex::Regex::new(pattern)?;
    Ok(CompiledPattern { source: pattern.to_string(), regex })
}

/// `Regex::captures` and `Captures::get(1)`: the contract names the text of
/// group 1 of the leftmost match, a function of the pattern and the text.
#[verifier::external_body]
pub(crate) fn first_group(p: &CompiledPattern, text: &str) -> (r: Option<String>)
    ensures
        opt_view(r) == spec_first_group(p.source(), text@),
{
    match p.regex.captures(text) {
        Some(c) => c.get(1).map(|m| m.as_str().to_string()),
        None => None,
    }
}

} // verus!
