//! Single fields of a stored JSON payload.
use vstd::prelude::*;

verus! {

/// What stands under a field of a JSON object.
#[derive(Debug)]
pub enum JsonField {
    /// Nothing: no such field, no object, or no JSON at all.
    Absent,
    /// A number that fits a signed 64-bit integer.
    Int(i64),
    Text(String),
    /// Anything else.
    Other,
}

/// [`JsonField`] over mathematical text.
pub enum JsonFieldView {
    Absent,
    Int(i64),
    Text(Seq<char>),
    Other,
}

impl View for JsonField {
    type V = JsonFieldView;

    open spec fn view(&self) -> JsonFieldView {
        match self {
            JsonField::Absent => JsonFieldView::Absent,
            JsonField::Int(n) => JsonFieldView::Int(*n),
            JsonField::Text(s) => JsonFieldView::Text(s@),
            JsonField::Other => JsonFieldView::Other,
        }
    }
}

/// What `serde_json` finds under a field of a payload.
pub uninterp spec fn json_field_of(payload: Seq<char>, field: Seq<char>) -> JsonFieldView;

/// Parses a payload with `serde_json::from_str` and looks a field up with
/// `serde_json::Value::get`. The result is named: it is a function of the two
/// texts alone.
#[verifier::external_body]
pub(crate) fn json_field(payload: &str, field: &str) -> (r: JsonField)
    ensures
        r@ == json_field_of(payload@, field@),
{
    let value: serde_json::Value = match serde_json::from_str(payload) {
        Ok(value) => value,
        Err(_) => return JsonField::Absent,
    };
    match value.get(field) {
        None => JsonField::Absent,
        Some(serde_json::Value::Number(n)) => n.as_i64().map_or(JsonField::Other, JsonField::Int),
        Some(serde_json::Value::String(s)) => JsonField::Text(s.clone()),
        Some(_) => JsonField::Other,
    }
}

/// The words in which `serde_json` refuses a payload, where it does.
pub uninterp spec fn json_error_of(payload: Seq<char>) -> Option<Seq<char>>;

/// An optional text, seen as characters.
pub open spec fn text_option(s: Option<String>) -> Option<Seq<char>> {
    match s {
        Some(s) => Some(s@),
        None => None,
    }
}

/// Parses a payload with `serde_json::from_str` and keeps only the words of the
/// error, if there is one. The result is named: it is a function of the payload
/// alone.
#[verifier::external_body]
pub(crate) fn json_error(payload: &str) -> (r: Option<String>)
    ensures
        text_option(r) == json_error_of(payload@),
{
    serde_json::from_str::<serde_json::Value>(payload).err().map(|e| e.to_string())
}

} // verus!
