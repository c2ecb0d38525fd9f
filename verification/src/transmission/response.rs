//! Decoding the provider's reply. The wire carries either a `results`
//! object (counts and an id) or an `errors` array; anything else is a
//! malformed response, surfaced as such and never coerced into either
//! variant.

use vstd::prelude::*;

use crate::json::{jdata_seq, lemma_jdata_seq_index, lemma_jdata_seq_len, JsonData, JsonValue};

verus! {

/// The mathematical shape of a decoded success reply.
pub struct ApiResponseData {
    pub total_rejected_recipients: int,
    pub total_accepted_recipients: int,
    pub id: Seq<char>,
}

/// The mathematical shape of one decoded error entry.
pub struct ApiErrorData {
    pub description: Option<Seq<char>>,
    pub code: Option<Seq<char>>,
    pub message: Option<Seq<char>>,
}

/// The mathematical shape of a decoded reply.
pub enum TransmissionResponseData {
    ApiResponse(ApiResponseData),
    ApiError(Seq<ApiErrorData>),
}

/// The counts and id the provider returns for an accepted transmission.
#[derive(Debug, PartialEq)]
pub struct ApiResponse {
    pub total_rejected_recipients: usize,
    pub total_accepted_recipients: usize,
    pub id: String,
}

impl View for ApiResponse {
    type V = ApiResponseData;

    open spec fn view(&self) -> ApiResponseData {
        ApiResponseData {
            total_rejected_recipients: self.total_rejected_recipients as int,
            total_accepted_recipients: self.total_accepted_recipients as int,
            id: self.id@,
        }
    }
}

/// One structured error the provider returns for a rejected
/// transmission. This is the provider's considered refusal, not an
/// HTTP-level failure.
#[derive(Debug, PartialEq)]
pub struct ApiError {
    pub description: Option<String>,
    pub code: Option<String>,
    pub message: Option<String>,
}

impl View for ApiError {
    type V = ApiErrorData;

    open spec fn view(&self) -> ApiErrorData {
        ApiErrorData {
            description: match self.description {
                Some(ref s) => Some(s@),
                None => None,
            },
            code: match self.code {
                Some(ref s) => Some(s@),
                None => None,
            },
            message: match self.message {
                Some(ref s) => Some(s@),
                None => None,
            },
        }
    }
}

/// A decoded reply: exactly one of the provider's two shapes.
#[derive(Debug, PartialEq)]
pub enum TransmissionResponse {
    ApiResponse(ApiResponse),
    ApiError(Vec<ApiError>),
}

impl View for TransmissionResponse {
    type V = TransmissionResponseData;

    open spec fn view(&self) -> TransmissionResponseData {
        match self {
            TransmissionResponse::ApiResponse(a) => TransmissionResponseData::ApiResponse(a@),
            TransmissionResponse::ApiError(es) => TransmissionResponseData::ApiError(
                Seq::new(es@.len(), |i: int| es@[i]@),
            ),
        }
    }
}

/// The reply parsed as JSON, but carrying neither a decodable `results`
/// key nor a decodable `errors` key.
#[derive(Debug, PartialEq)]
pub struct MalformedResponseError;

/// Why a reply body did not decode: it was not JSON this library can
/// hold, or it was JSON of neither expected shape.
#[derive(Debug, PartialEq)]
pub enum ResponseError {
    NotJson,
    MalformedResponse,
}

/// An optional text field: absent and `null` both mean "no value", a
/// string is the value, anything else does not decode.
pub open spec fn opt_text(d: JsonData, key: Seq<char>) -> Option<Option<Seq<char>>> {
    match d.jget(key) {
        None => Some(None),
        Some(JsonData::Null) => Some(None),
        Some(JsonData::Str(s)) => Some(Some(s)),
        Some(_) => None,
    }
}

/// Decodes the `results` object: the two counts must be integers that
/// fit the machine's size type, and the id must be a string.
pub open spec fn decode_results(d: JsonData) -> Option<ApiResponseData> {
    match (
        d.jget("total_rejected_recipients"@),
        d.jget("total_accepted_recipients"@),
        d.jget("id"@),
    ) {
        (Some(JsonData::Int(rej)), Some(JsonData::Int(acc)), Some(JsonData::Str(id))) => if 0 <= rej
            <= usize::MAX && 0 <= acc <= usize::MAX {
            Some(
                ApiResponseData {
                    total_rejected_recipients: rej,
                    total_accepted_recipients: acc,
                    id,
                },
            )
        } else {
            None
        },
        _ => None,
    }
}

/// Decodes one entry of the `errors` array: an object whose three
/// fields are each absent, `null`, or a string.
pub open spec fn decode_error_entry(d: JsonData) -> Option<ApiErrorData> {
    if d is Obj {
        match (opt_text(d, "description"@), opt_text(d, "code"@), opt_text(d, "message"@)) {
            (Some(de), Some(c), Some(m)) => Some(
                ApiErrorData { description: de, code: c, message: m },
            ),
            _ => None,
        }
    } else {
        None
    }
}

/// Decodes the `errors` array: every entry must decode, in order.
pub open spec fn decode_errors(items: Seq<JsonData>) -> Option<Seq<ApiErrorData>> {
    if forall|i: int| 0 <= i < items.len() ==> decode_error_entry(#[trigger] items[i]) is Some {
        Some(Seq::new(items.len(), |i: int| decode_error_entry(items[i])->0))
    } else {
        None
    }
}

/// Decodes a reply tree: a `results` key decodes to the success
/// variant; otherwise an `errors` key holding an array decodes to the
/// error-list variant; anything else does not decode.
pub open spec fn spec_decode(d: JsonData) -> Option<TransmissionResponseData> {
    match d.jget("results"@) {
        Some(res) => match decode_results(res) {
            Some(a) => Some(TransmissionResponseData::ApiResponse(a)),
            None => None,
        },
        None => match d.jget("errors"@) {
            Some(JsonData::Arr(items)) => match decode_errors(items) {
                Some(es) => Some(TransmissionResponseData::ApiError(es)),
                None => None,
            },
            Some(_) => None,
            None => None,
        },
    }
}

/// Decodes the `results` object, matching `decode_results`.
fn decode_results_exec(res: &JsonValue) -> (r: Option<ApiResponse>)
    ensures
        match r {
            Some(a) => decode_results(res.jdata()) == Some(a@),
            None => decode_results(res.jdata()) is None,
        },
{
    let rej_v = match res.get("total_rejected_recipients") {
        Some(x) => x,
        None => {
            return None;
        },
    };
    let rej_n = match rej_v.as_i64() {
        Some(n) => n,
        None => {
            return None;
        },
    };
    let rej = match usize::try_from(rej_n) {
        Ok(u) => u,
        Err(_) => {
            return None;
        },
    };
    let acc_v = match res.get("total_accepted_recipients") {
        Some(x) => x,
        None => {
            return None;
        },
    };
    let acc_n = match acc_v.as_i64() {
        Some(n) => n,
        None => {
            return None;
        },
    };
    let acc = match usize::try_from(acc_n) {
        Ok(u) => u,
        Err(_) => {
            return None;
        },
    };
    let id_v = match res.get("id") {
        Some(x) => x,
        None => {
            return None;
        },
    };
    let id = match id_v.as_str() {
        Some(s) => s.to_owned(),
        None => {
            return None;
        },
    };
    Some(ApiResponse { total_rejected_recipients: rej, total_accepted_recipients: acc, id })
}

/// Decodes one error entry, matching `decode_error_entry`.
fn decode_error_exec(v: &JsonValue) -> (r: Option<ApiError>)
    ensures
        match r {
            Some(e) => decode_error_entry(v.jdata()) == Some(e@),
            None => decode_error_entry(v.jdata()) is None,
        },
{
    match v {
        JsonValue::Obj(_) => {},
        _ => {
            return None;
        },
    }
    let description = match opt_text_exec(v, "description") {
        Some(o) => o,
        None => {
            return None;
        },
    };
    let code = match opt_text_exec(v, "code") {
        Some(o) => o,
        None => {
            return None;
        },
    };
    let message = match opt_text_exec(v, "message") {
        Some(o) => o,
        None => {
            return None;
        },
    };
    Some(ApiError { description, code, message })
}

/// Reads an optional text field, matching `opt_text`.
fn opt_text_exec(v: &JsonValue, key: &str) -> (r: Option<Option<String>>)
    ensures
        match r {
            Some(o) => opt_text(v.jdata(), key@) == Some(
                match o {
                    Some(s) => Some(s@),
                    None => None::<Seq<char>>,
                },
            ),
            None => opt_text(v.jdata(), key@) is None,
        },
{
    match v.get(key) {
        None => Some(None),
        Some(c) => match c {
            JsonValue::Null => Some(None),
            JsonValue::Str(s) => Some(Some(s.clone())),
            _ => None,
        },
    }
}

/// Decodes the `errors` array elementwise, matching `decode_errors`.
#[verifier::loop_isolation(false)]
fn decode_errors_exec(items: &Vec<JsonValue>) -> (r: Option<Vec<ApiError>>)
    ensures
        match r {
            Some(es) => decode_errors(jdata_seq(items@)) == Some(
                Seq::new(es@.len(), |i: int| es@[i]@),
            ),
            None => decode_errors(jdata_seq(items@)) is None,
        },
{
    proof {
        lemma_jdata_seq_len(items@);
    }
    let mut out: Vec<ApiError> = Vec::new();
    let mut i: usize = 0;
    while i < items.len()
        invariant
            0 <= i <= items@.len(),
            out@.len() == i,
            forall|j: int| 0 <= j < i ==> decode_error_entry(#[trigger] jdata_seq(items@)[j])
                == Some(out@[j]@),
        decreases items@.len() - i,
    {
        proof {
            lemma_jdata_seq_index(items@, i as int);
        }
        match decode_error_exec(&items[i]) {
            Some(e) => {
                out.push(e);
            },
            None => {
                proof {
                    assert(decode_error_entry(jdata_seq(items@)[i as int]) is None);
                }
                return None;
            },
        }
        i = i + 1;
    }
    proof {
        assert(Seq::new(jdata_seq(items@).len(), |k: int| decode_error_entry(
            jdata_seq(items@)[k],
        )->0) =~= Seq::new(out@.len(), |k: int| out@[k]@));
    }
    Some(out)
}

/// The tree a reply text denotes, when it is JSON that this library's
/// tree can hold; what a text denotes depends on the text alone.
pub uninterp spec fn json_tree_of(s: Seq<char>) -> Option<JsonData>;

#[verifier::external_type_specification]
#[verifier::external_body]
pub struct ExValue(serde_json::Value);

/// The conversion step of `parse_json`, which states the contract:
/// maps a parsed serde_json tree onto this library's tree, variant by
/// variant; a number with no 64-bit integer value stops the
/// conversion.
#[verifier::external_body]
fn value_to_json(v: &serde_json::Value) -> Option<JsonValue> {
    match v {
        serde_json::Value::Null => Some(JsonValue::Null),
        serde_json::Value::Bool(b) => Some(JsonValue::Bool(*b)),
        serde_json::Value::Number(n) => n.as_i64().map(JsonValue::Int),
        serde_json::Value::String(s) => Some(JsonValue::Str(s.clone())),
        serde_json::Value::Array(a) => a.iter().map(value_to_json).collect::<Option<Vec<_>>>().map(
            JsonValue::Arr,
        ),
        serde_json::Value::Object(m) => m.iter().map(
            |(k, c)| Some((k.clone(), value_to_json(c)?)),
        ).collect::<Option<Vec<_>>>().map(JsonValue::Obj),
    }
}

/// Relies on serde_json::from_str::<serde_json::Value>: what a text
/// parses to depends on the text alone. Texts that are not JSON, and
/// JSON holding a number with no 64-bit integer value, have no tree.
#[verifier::external_body]
fn parse_json(s: &str) -> (r: Option<JsonValue>)
    ensures
        match r {
            Some(v) => json_tree_of(s@) == Some(v.jdata()),
            None => json_tree_of(s@) is None,
        },
{
    match serde_json::from_str::<serde_json::Value>(s) {
        Ok(v) => value_to_json(&v),
        Err(_) => None,
    }
}

/// Decodes a raw reply body: parses it as JSON, then decodes the tree.
/// `NotJson` when the body has no tree; `MalformedResponse` when the
/// tree has neither expected shape.
pub fn decode_response_body(body: &str) -> (r: Result<TransmissionResponse, ResponseError>)
    ensures
        match r {
            Ok(resp) => json_tree_of(body@) matches Some(d) && spec_decode(d) == Some(resp@),
            Err(ResponseError::NotJson) => json_tree_of(body@) is None,
            Err(ResponseError::MalformedResponse) => json_tree_of(body@) matches Some(d)
                && spec_decode(d) is None,
        },
{
    match parse_json(body) {
        Some(v) => match decode_response(&v) {
            Ok(resp) => Ok(resp),
            Err(_) => Err(ResponseError::MalformedResponse),
        },
        None => Err(ResponseError::NotJson),
    }
}

/// Decodes a reply tree into exactly one of the two response variants;
/// a tree of neither shape is a malformed response.
pub fn decode_response(v: &JsonValue) -> (r: Result<TransmissionResponse, MalformedResponseError>)
    ensures
        match r {
            Ok(resp) => spec_decode(v.jdata()) == Some(resp@),
            Err(_) => spec_decode(v.jdata()) is None,
        },
{
    match v.get("results") {
        Some(res) => match decode_results_exec(res) {
            Some(a) => Ok(TransmissionResponse::ApiResponse(a)),
            None => Err(MalformedResponseError),
        },
        None => match v.get("errors") {
            Some(errs) => match errs {
                JsonValue::Arr(items) => match decode_errors_exec(items) {
                    Some(es) => Ok(TransmissionResponse::ApiError(es)),
                    None => Err(MalformedResponseError),
                },
                _ => Err(MalformedResponseError),
            },
            None => Err(MalformedResponseError),
        },
    }
}

} // verus!
