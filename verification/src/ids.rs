//! Stable identifiers: the SHA-256 digest of a canonical JSON payload,
//! rendered as `<prefix>_<first 12 lowercase hex digits>`.
use sha2::Digest;
use vstd::prelude::*;

use crate::text::{has_prefix, hex_bytes, hex_prefix, owned, push_char, push_str};

verus! {

/// A value of a payload field, as it is written into the canonical JSON object.
pub enum PayloadValue {
    /// JSON `null`.
    Null,
    /// A JSON string.
    Text(String),
    /// A JSON array of strings.
    Texts(Vec<String>),
    /// A JSON number, given by its literal (such as `0.950`).
    Number(String),
}

/// One `"key": value` entry of a payload object.
pub struct PayloadField {
    pub key: String,
    pub value: PayloadValue,
}

/// The plain-value form of a payload field: its key, a tag for the kind of
/// value (0 null, 1 string, 2 array of strings, 3 number) and the texts it carries.
impl DeepView for PayloadField {
    type V = (Seq<char>, u8, Seq<Seq<char>>);

    open spec fn deep_view(&self) -> (Seq<char>, u8, Seq<Seq<char>>) {
        match &self.value {
            PayloadValue::Null => (self.key@, 0u8, seq![]),
            PayloadValue::Text(s) => (self.key@, 1u8, seq![s@]),
            PayloadValue::Texts(v) => (self.key@, 2u8, v.deep_view()),
            PayloadValue::Number(n) => (self.key@, 3u8, seq![n@]),
        }
    }
}

/// The error type of `serde_json`.
#[verifier::external_type_specification]
#[verifier::external_body]
pub struct ExJsonError(serde_json::Error);

/// What `serde_json::to_string` yields for the JSON object built from these
/// fields (`None` when it returns an error).
pub uninterp spec fn spec_payload_json(fields: Seq<(Seq<char>, u8, Seq<Seq<char>>)>) -> Option<
    Seq<char>,
>;

/// What `sha2::Sha256::digest` yields for the UTF-8 bytes of a text.
pub uninterp spec fn spec_sha256(text: Seq<char>) -> Seq<u8>;

/// `serde_json::to_string` of the `serde_json::Value` object made of these
/// fields (a number field goes through `serde_json::Number`'s `FromStr`).
/// The contract only names the result: the JSON text, or `None` on an error.
#[verifier::external_body]
fn payload_json(fields: &Vec<PayloadField>) -> (r: Result<String, serde_json::Error>)
    ensures
        r matches Ok(t) ==> spec_payload_json(fields.deep_view()) == Some(t@),
        r is Err ==> spec_payload_json(fields.deep_view()) is None,
{
    let mut map = serde_json::Map::new();
    for f in fields {
        let value = match &f.value {
            PayloadValue::Null => serde_json::Value::Null,
            PayloadValue::Text(s) => serde_json::Value::String(s.clone()),
            PayloadValue::Texts(v) => serde_json::Value::from(v.clone()),
            PayloadValue::Number(n) => serde_json::Value::Number(n.parse()?),
        };
        map.insert(f.key.clone(), value);
    }
    serde_json::to_string(&serde_json::Value::Object(map))
}

/// `sha2::Sha256::digest` of the UTF-8 bytes of `text`: the contract names the
/// digest and states its length, 32 bytes (the output size of SHA-256).
#[verifier::external_body]
fn sha256(text: &str) -> (r: Vec<u8>)
    ensures
        r@ == spec_sha256(text@),
        r@.len() == 32,
{
    sha2::Sha256::digest(text.as_bytes()).to_vec()
}

/// The canonical text of a payload: its JSON text, or the empty text when
/// serialisation fails.
pub open spec fn canonical_payload(fields: Seq<(Seq<char>, u8, Seq<Seq<char>>)>) -> Seq<char> {
    match spec_payload_json(fields) {
        Some(t) => t,
        None => seq![],
    }
}

/// The identifier for a prefix and a canonical text.
pub open spec fn identifier_for(prefix: Seq<char>, canonical: Seq<char>) -> Seq<char> {
    prefix + seq!['_'] + hex_bytes(spec_sha256(canonical).subrange(0, 6))
}

/// The identifier of a payload under a prefix.
pub open spec fn spec_stable_identifier(
    prefix: Seq<char>,
    fields: Seq<(Seq<char>, u8, Seq<Seq<char>>)>,
) -> Seq<char> {
    identifier_for(prefix, canonical_payload(fields))
}

/// `<prefix>_<hex>` where `<hex>` is the first 12 lowercase hex digits of the
/// SHA-256 digest of the payload's canonical JSON text.
pub fn stable_identifier(prefix: &str, payload: &Vec<PayloadField>) -> (r: String)
    ensures
        r@ == spec_stable_identifier(prefix@, payload.deep_view()),
        r@.len() == prefix@.len() + 13,
        has_prefix(r@, prefix@ + seq!['_']),
{
    let canonical = match payload_json(payload) {
        Ok(t) => t,
        Err(_) => String::new(),
    };
    let digest = sha256(canonical.as_str());
    let hex = hex_prefix(&digest, 6);
    let mut r = owned(prefix);
    push_char(&mut r, '_');
    push_str(&mut r, hex.as_str());
    proof {
        lemma_hex_bytes_len(digest@.subrange(0, 6));
        assert(r@.subrange(0, prefix@.len() + 1int) =~= prefix@ + seq!['_']);
    }
    r
}

proof fn lemma_hex_bytes_len(b: Seq<u8>)
    ensures
        hex_bytes(b).len() == 2 * b.len(),
    decreases b.len(),
{
    if b.len() > 0 {
        lemma_hex_bytes_len(b.drop_last());
    }
}

// ---------------------------------------------------------------------------
// Building payloads
// ---------------------------------------------------------------------------

/// A field holding a JSON string.
pub fn text_field(key: &str, value: &str) -> (f: PayloadField)
    ensures
        f.deep_view() == (key@, 1u8, seq![value@]),
{
    PayloadField { key: owned(key), value: PayloadValue::Text(owned(value)) }
}

/// A field holding a JSON string, or `null` for `None`.
pub fn optional_text_field(key: &str, value: &Option<String>) -> (f: PayloadField)
    ensures
        f.deep_view() == optional_text_entry(key@, value.deep_view()),
{
    match value {
        Some(v) => PayloadField { key: owned(key), value: PayloadValue::Text(owned(v.as_str())) },
        None => PayloadField { key: owned(key), value: PayloadValue::Null },
    }
}

/// The plain form of an optional string field.
pub open spec fn optional_text_entry(key: Seq<char>, value: Option<Seq<char>>) -> (
    Seq<char>,
    u8,
    Seq<Seq<char>>,
) {
    match value {
        Some(v) => (key, 1u8, seq![v]),
        None => (key, 0u8, seq![]),
    }
}

/// A field holding a JSON number, given by its literal.
pub fn number_field(key: &str, literal: &str) -> (f: PayloadField)
    ensures
        f.deep_view() == (key@, 3u8, seq![literal@]),
{
    PayloadField { key: owned(key), value: PayloadValue::Number(owned(literal)) }
}

/// A field holding an array of strings.
pub fn texts_field(key: &str, values: &Vec<String>) -> (f: PayloadField)
    ensures
        f.deep_view() == (key@, 2u8, values.deep_view()),
{
    let mut copy: Vec<String> = Vec::new();
    let mut i: usize = 0;
    while i < values.len()
        invariant
            0 <= i <= values@.len(),
            copy.deep_view() =~= values.deep_view().subrange(0, i as int),
        decreases values.len() - i,
    {
        let s = owned(values[i].as_str());
        let ghost before = copy.deep_view();
        copy.push(s);
        assert(copy.deep_view() =~= before.push(s@));
        assert(values.deep_view().subrange(0, i + 1) =~= values.deep_view().subrange(
            0,
            i as int,
        ).push(values[i as int]@));
        i = i + 1;
    }
    PayloadField { key: owned(key), value: PayloadValue::Texts(copy) }
}

} // verus!
