//! A decoded JSON document as plain values, and the check of a provider's
//! `status` field.

use vstd::prelude::*;
use rustc_serialize::json::Json;

verus! {

/// One node of a decoded JSON document. Object members keep the order in which
/// the decoder hands them out; a number with a fractional part is kept only as
/// the fact that it is one.
#[derive(Debug, PartialEq)]
pub enum JsonValue {
    Null,
    Boolean(bool),
    I64(i64),
    U64(u64),
    F64,
    String(String),
    Array(Vec<JsonValue>),
    Object(Vec<(String, JsonValue)>),
}

/// What went wrong while turning a response into emote records.
#[derive(Debug, Clone, PartialEq)]
pub enum EmoteError {
    /// The body is not a JSON object, or an error status came without a message.
    Decode,
    /// The service reported a status other than 200, with this message.
    Api(String),
    /// A required field is missing or has the wrong type.
    Schema,
    /// The requested channel has no emotes.
    NotFound,
    /// Channel lookups were asked for before the subscriber data was loaded.
    NotLoaded,
}

#[verifier::external_type_specification]
#[verifier::external_body]
pub struct ExJson(Json);

/// The document that the decoder makes of a text, if the text is JSON.
pub uninterp spec fn parsed_json(text: Seq<char>) -> Option<JsonValue>;

/// Relies on rustc_serialize::json::Json::from_str: decodes a whole text as one
/// JSON value, or fails; the outcome depends on the text alone.
#[verifier::external_body]
pub fn parse_json(text: &str) -> (r: Option<JsonValue>)
    ensures
        r == parsed_json(text@),
{
    match Json::from_str(text) {
        Ok(j) => Some(json_node(j)),
        Err(_) => None,
    }
}

/// Relies on the variants of rustc_serialize::json::Json: moves each node of a
/// decoded document into the variant of the same name.
#[verifier::external_body]
fn json_node(j: Json) -> JsonValue {
    match j {
        Json::I64(n) => JsonValue::I64(n),
        Json::U64(n) => JsonValue::U64(n),
        Json::F64(_) => JsonValue::F64,
        Json::String(s) => JsonValue::String(s),
        Json::Boolean(b) => JsonValue::Boolean(b),
        Json::Array(a) => JsonValue::Array(a.into_iter().map(json_node).collect()),
        Json::Object(o) => JsonValue::Object(o.into_iter().map(|(k, v)| (k, json_node(v))).collect()),
        Json::Null => JsonValue::Null,
    }
}

/// The value stored under `key` among an object's members (the first, should a
/// key occur twice).
pub open spec fn member(entries: Seq<(String, JsonValue)>, key: Seq<char>) -> Option<JsonValue>
    decreases entries.len(),
{
    if entries.len() == 0 {
        None
    } else if entries[0].0@ == key {
        Some(entries[0].1)
    } else {
        member(entries.drop_first(), key)
    }
}

/// The field `key` of `v`, when `v` is an object that has it.
pub open spec fn field(v: JsonValue, key: Seq<char>) -> Option<JsonValue> {
    match v {
        JsonValue::Object(entries) => member(entries@, key),
        _ => None,
    }
}

/// The value as an unsigned integer, when it is a non-negative integer.
pub open spec fn as_u64(v: JsonValue) -> Option<u64> {
    match v {
        JsonValue::I64(n) => if n >= 0 { Some(n as u64) } else { None },
        JsonValue::U64(n) => Some(n),
        _ => None,
    }
}

/// The value, when it is a string.
pub open spec fn as_string(v: JsonValue) -> Option<String> {
    match v {
        JsonValue::String(s) => Some(s),
        _ => None,
    }
}

/// The field `key` of `v`, read as a string.
pub open spec fn string_field(v: JsonValue, key: Seq<char>) -> Option<String> {
    match field(v, key) {
        Some(f) => as_string(f),
        None => None,
    }
}

/// The field `key` of `v`, read as an unsigned integer.
pub open spec fn u64_field(v: JsonValue, key: Seq<char>) -> Option<u64> {
    match field(v, key) {
        Some(f) => as_u64(f),
        None => None,
    }
}

/// Whether a response document reports success: it has no `status` field, or
/// that field is the integer 200.
pub open spec fn reports_success(doc: JsonValue) -> bool {
    match field(doc, "status"@) {
        None => true,
        Some(s) => as_u64(s) == Some(200u64),
    }
}

/// What a provider's response document stands for: the document itself, or the
/// error it reports.
pub open spec fn response_outcome(doc: JsonValue) -> Result<JsonValue, EmoteError> {
    if !(doc is Object) {
        Err(EmoteError::Decode)
    } else if reports_success(doc) {
        Ok(doc)
    } else {
        match string_field(doc, "message"@) {
            Some(m) => Err(EmoteError::Api(m)),
            None => Err(EmoteError::Decode),
        }
    }
}

/// Finds where the member `key` stands among an object's members.
pub fn member_position(entries: &Vec<(String, JsonValue)>, key: &str) -> (r: Option<usize>)
    ensures
        match r {
            Some(i) => i < entries@.len() && member(entries@, key@) == Some(entries@[i as int].1),
            None => member(entries@, key@) is None,
        },
{
    let k = String::from_str(key);
    let mut i: usize = 0;
    assert(entries@.skip(0) =~= entries@);
    while i < entries.len()
        invariant
            i <= entries.len(),
            k@ == key@,
            member(entries@, key@) == member(entries@.skip(i as int), key@),
        decreases entries.len() - i,
    {
        proof {
            assert(entries@.skip(i as int).drop_first() =~= entries@.skip(i + 1));
        }
        if entries[i].0 == k {
            return Some(i);
        }
        i += 1;
    }
    None
}

/// Looks up the member `key` among an object's members.
pub fn member_of<'a>(entries: &'a Vec<(String, JsonValue)>, key: &str) -> (r: Option<&'a JsonValue>)
    ensures
        match r {
            Some(x) => member(entries@, key@) == Some(*x),
            None => member(entries@, key@) is None,
        },
{
    match member_position(entries, key) {
        Some(i) => Some(&entries[i].1),
        None => None,
    }
}

/// Looks up the field `key` of `v`; nothing when `v` is not an object.
pub fn get_field<'a>(v: &'a JsonValue, key: &str) -> (r: Option<&'a JsonValue>)
    ensures
        match r {
            Some(x) => field(*v, key@) == Some(*x),
            None => field(*v, key@) is None,
        },
{
    match v {
        JsonValue::Object(entries) => member_of(entries, key),
        _ => None,
    }
}

/// Reads `v` as an unsigned integer.
pub fn value_as_u64(v: &JsonValue) -> (r: Option<u64>)
    ensures
        r == as_u64(*v),
{
    match v {
        JsonValue::I64(n) => if *n >= 0 { Some(*n as u64) } else { None },
        JsonValue::U64(n) => Some(*n),
        _ => None,
    }
}

/// Reads the field `key` of `v` as a string.
pub fn get_string<'a>(v: &'a JsonValue, key: &str) -> (r: Option<&'a String>)
    ensures
        match r {
            Some(x) => string_field(*v, key@) == Some(*x),
            None => string_field(*v, key@) is None,
        },
{
    match get_field(v, key) {
        Some(JsonValue::String(s)) => Some(s),
        _ => None,
    }
}

/// Reads the field `key` of `v` as an unsigned integer.
pub fn get_u64(v: &JsonValue, key: &str) -> (r: Option<u64>)
    ensures
        r == u64_field(*v, key@),
{
    match get_field(v, key) {
        Some(f) => value_as_u64(f),
        None => None,
    }
}

/// Splits a provider's response into the document and the error it reports:
/// a `status` other than 200 is an error carrying the `message` field.
pub fn check_status(doc: JsonValue) -> (r: Result<JsonValue, EmoteError>)
    ensures
        r == response_outcome(doc),
{
    if !matches!(doc, JsonValue::Object(_)) {
        return Err(EmoteError::Decode);
    }
    let ok = match get_field(&doc, "status") {
        None => true,
        Some(s) => match value_as_u64(s) {
            Some(n) => n == 200,
            None => false,
        },
    };
    if ok {
        Ok(doc)
    } else {
        match get_string(&doc, "message") {
            Some(m) => Err(EmoteError::Api(m.clone())),
            None => Err(EmoteError::Decode),
        }
    }
}

/// What a response body stands for: the decoded document, or the error that
/// the body is or reports.
pub open spec fn body_outcome(body: Seq<char>) -> Result<JsonValue, EmoteError> {
    match parsed_json(body) {
        Some(doc) => response_outcome(doc),
        None => Err(EmoteError::Decode),
    }
}

/// Decodes a provider's response body and checks its status.
pub fn decode_response(body: &str) -> (r: Result<JsonValue, EmoteError>)
    ensures
        r == body_outcome(body@),
{
    match parse_json(body) {
        Some(doc) => check_status(doc),
        None => Err(EmoteError::Decode),
    }
}

/// An error is reported by the service exactly when the response carries a
/// `status` other than 200, for any response object whose `message` field is
/// a string.
pub proof fn lemma_api_error_iff_bad_status(doc: JsonValue)
    requires
        doc is Object,
        string_field(doc, "message"@) is Some,
    ensures
        response_outcome(doc) is Err && response_outcome(doc)->Err_0 is Api <==> (match field(
            doc,
            "status"@,
        ) {
            Some(s) => as_u64(s) != Some(200u64),
            None => false,
        }),
{
}

} // verus!
