//! Message classifier: decides for each reconstructed line whether it is an
//! unsolicited event, an RPC response, or noise to be discarded. Decoding of
//! the JSON text itself is done by an outside parser behind trusted wrappers;
//! the classification decision and everything after it is verified.

use vstd::prelude::*;

verus! {

/// The error object a response may carry: a numeric code, preserved but not
/// interpreted here, and a message surfaced verbatim to the caller.
pub struct WireError {
    pub code: i32,
    pub message: Vec<u8>,
}

/// The fields of a decoded response document. A response with an absent `id`
/// is valid traffic (a readiness signal) and is discarded by the correlator.
pub struct WireResponse {
    pub id: Option<u64>,
    pub result: Option<Vec<u8>>,
    pub error: Option<WireError>,
}

/// View of an optional error as plain values.
pub open spec fn err_opt_view(e: Option<WireError>) -> Option<(i32, Seq<u8>)> {
    match e {
        Option::None => Option::None,
        Option::Some(w) => Option::Some((w.code, w.message@)),
    }
}

/// View of an optional byte string.
pub open spec fn bytes_opt_view(o: Option<Vec<u8>>) -> Option<Seq<u8>> {
    match o {
        Option::None => Option::None,
        Option::Some(v) => Option::Some(v@),
    }
}

/// View of a decoded response as plain values: id, result, error.
pub open spec fn resp_view(r: WireResponse) -> (Option<u64>, Option<Seq<u8>>, Option<(
    i32,
    Seq<u8>,
)>) {
    (r.id, bytes_opt_view(r.result), err_opt_view(r.error))
}

/// The event tag of a line, if the line is a JSON document whose `event` field
/// is a string: the value that the outside JSON parser extracts. It depends on
/// the line's bytes alone.
pub uninterp spec fn event_tag_of(line: Seq<u8>) -> Option<Seq<u8>>;

/// The response fields of a line, if the line is a JSON document of response
/// shape: what the outside JSON parser extracts. It depends on the line's
/// bytes alone.
pub uninterp spec fn response_of(line: Seq<u8>) -> Option<(Option<u64>, Option<Seq<u8>>, Option<(
    i32,
    Seq<u8>,
)>)>;

/// Relies on serde_json::from_slice::<serde_json::Value>, Value::get and
/// Value::as_str: returns the string value of the document's `event` field,
/// a function of the line's bytes alone; `None` when the line is not a JSON
/// document or has no string `event` field.
#[verifier::external_body]
fn extract_event_tag(line: &Vec<u8>) -> (r: Option<Vec<u8>>)
    ensures
        match r {
            Option::Some(t) => event_tag_of(line@) == Option::Some(t@),
            Option::None => event_tag_of(line@) is None,
        },
{
    match serde_json::from_slice::<serde_json::Value>(line) {
        Ok(doc) => match doc.get("event") {
            Some(tag) => match tag.as_str() {
                Some(s) => Some(s.as_bytes().to_vec()),
                None => None,
            },
            None => None,
        },
        Err(_) => None,
    }
}

/// Relies on serde_json::from_slice::<serde_json::Value>, Value::get,
/// Value::as_u64, Value::as_str and Value::as_i64: decodes a response-shaped
/// JSON object into its id, result and error fields, a function of the line's
/// bytes alone; `None` when the line is not a JSON object or its error field
/// is not an object carrying a numeric code and a string message.
#[verifier::external_body]
fn extract_response(line: &Vec<u8>) -> (r: Option<WireResponse>)
    ensures
        match r {
            Option::Some(w) => response_of(line@) == Option::Some(resp_view(w)),
            Option::None => response_of(line@) is None,
        },
{
    let doc = match serde_json::from_slice::<serde_json::Value>(line) {
        Ok(v) if v.is_object() => v,
        _ => return None,
    };
    let error = match doc.get("error") {
        None => None,
        Some(e) => Some(WireError {
            code: i32::try_from(e.get("code").and_then(|c| c.as_i64())?).ok()?,
            message: e.get("message").and_then(|m| m.as_str())?.as_bytes().to_vec(),
        }),
    };
    let result = doc.get("result").and_then(|v| v.as_str()).map(|s| s.as_bytes().to_vec());
    Some(WireResponse { id: doc.get("id").and_then(|v| v.as_u64()), result, error })
}

/// The line's classification: an event to forward, a response to correlate,
/// or an unrecognized line to discard silently.
pub enum Classified {
    Event { tag: Vec<u8> },
    Response { resp: WireResponse },
    Unrecognized,
}

/// Classification over plain values.
pub enum ClassifiedView {
    Event { tag: Seq<u8> },
    Response { id: Option<u64>, result: Option<Seq<u8>>, error: Option<(i32, Seq<u8>)> },
    Unrecognized,
}

impl View for Classified {
    type V = ClassifiedView;

    open spec fn view(&self) -> ClassifiedView {
        match *self {
            Classified::Event { tag } => ClassifiedView::Event { tag: tag@ },
            Classified::Response { resp } => ClassifiedView::Response {
                id: resp.id,
                result: bytes_opt_view(resp.result),
                error: err_opt_view(resp.error),
            },
            Classified::Unrecognized => ClassifiedView::Unrecognized,
        }
    }
}

/// ASCII whitespace, the only bytes a blank protocol line may hold.
pub open spec fn is_ws(b: u8) -> bool {
    b == 9 || b == 10 || b == 12 || b == 13 || b == 32
}

/// A line of nothing but whitespace is discarded before classification.
pub open spec fn is_blank(line: Seq<u8>) -> bool {
    forall|i: int| 0 <= i < line.len() ==> is_ws(line[i])
}

/// What one line means: blank lines are discarded; a line whose `event` field
/// is a string is an event, whatever else it holds; otherwise a line of
/// response shape is a response; everything else is discarded.
pub open spec fn spec_classify(line: Seq<u8>) -> ClassifiedView {
    if is_blank(line) {
        ClassifiedView::Unrecognized
    } else {
        match event_tag_of(line) {
            Option::Some(tag) => ClassifiedView::Event { tag },
            Option::None => match response_of(line) {
                Option::Some((id, result, error)) => ClassifiedView::Response { id, result, error },
                Option::None => ClassifiedView::Unrecognized,
            },
        }
    }
}

fn blank(line: &Vec<u8>) -> (r: bool)
    ensures
        r == is_blank(line@),
{
    let mut i: usize = 0;
    while i < line.len()
        invariant
            i <= line@.len(),
            forall|j: int| 0 <= j < i ==> is_ws(line@[j]),
        decreases line@.len() - i,
    {
        let b = line[i];
        if !(b == 9 || b == 10 || b == 12 || b == 13 || b == 32) {
            return false;
        }
        i += 1;
    }
    true
}

/// Classify one reconstructed line. The event check comes first, so a line
/// carrying an `event` tag is never consumed as a response; decoding failures
/// yield `Unrecognized`, never an error.
pub fn classify_line(line: &Vec<u8>) -> (c: Classified)
    ensures
        c@ == spec_classify(line@),
{
    if blank(line) {
        return Classified::Unrecognized;
    }
    match extract_event_tag(line) {
        Option::Some(tag) => Classified::Event { tag },
        Option::None => match extract_response(line) {
            Option::Some(resp) => Classified::Response { resp },
            Option::None => Classified::Unrecognized,
        },
    }
}

} // verus!
