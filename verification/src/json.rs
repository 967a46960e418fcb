//! Looking things up in a JSON text.

use vstd::prelude::*;

verus! {

/// What stands at a place of a JSON text, as far as it is read here: of a
/// number its value if that is an `i64`, of an array or an object just that.
#[derive(Debug, Clone, PartialEq, Eq)]
pub enum JsonPart {
    Null,
    Bool(bool),
    Number(Option<i64>),
    Text(String),
    Array,
    Object,
}

/// The contents of a part.
pub ghost enum PartView {
    Null,
    Bool(bool),
    Number(Option<i64>),
    Text(Seq<char>),
    Array,
    Object,
}

impl View for JsonPart {
    type V = PartView;

    open spec fn view(&self) -> PartView {
        match *self {
            JsonPart::Null => PartView::Null,
            JsonPart::Bool(b) => PartView::Bool(b),
            JsonPart::Number(n) => PartView::Number(n),
            JsonPart::Text(s) => PartView::Text(s@),
            JsonPart::Array => PartView::Array,
            JsonPart::Object => PartView::Object,
        }
    }
}

/// The view of a lookup: none if the text is not JSON; in it, none if there is
/// nothing at the place.
pub open spec fn lookup_view(r: Option<Option<JsonPart>>) -> Option<Option<PartView>> {
    match r {
        Some(Some(p)) => Some(Some(p@)),
        Some(None) => Some(None),
        None => None,
    }
}

/// What stands in a JSON text at the place that a JSON pointer names; none if
/// the text is not JSON.
pub uninterp spec fn json_at(body: Seq<u8>, pointer: Seq<char>) -> Option<Option<PartView>>;

/// `Value::pointer` of the `serde_json` crate on what its `from_slice` makes
/// of a text. The result is a function of the text and of the pointer: that
/// much is believed. Which texts are JSON, and what a pointer finds in one, is
/// not stated.
#[verifier::external_body]
pub(crate) fn part_at(body: &Vec<u8>, pointer: &str) -> (r: Option<Option<JsonPart>>)
    ensures
        lookup_view(r) == json_at(body@, pointer@),
{
    let value = serde_json::from_slice::<serde_json::Value>(body).ok()?;
    Some(value.pointer(pointer).map(|part| match part {
        serde_json::Value::Null => JsonPart::Null,
        serde_json::Value::Bool(b) => JsonPart::Bool(*b),
        serde_json::Value::Number(n) => JsonPart::Number(n.as_i64()),
        serde_json::Value::String(s) => JsonPart::Text(s.clone()),
        serde_json::Value::Array(_) => JsonPart::Array,
        serde_json::Value::Object(_) => JsonPart::Object,
    }))
}

/// The view of a text, or of the message of why there is none.
pub open spec fn reading_view(r: Result<String, String>) -> Result<Seq<char>, Seq<char>> {
    match r {
        Ok(t) => Ok(t@),
        Err(m) => Err(m@),
    }
}

/// What stands in a JSON text at the place that a JSON pointer names, read as a
/// text; or the message of why it is none.
pub uninterp spec fn json_text(body: Seq<u8>, pointer: Seq<char>) -> Result<Seq<char>, Seq<char>>;

/// `from_value` of the `serde_json` crate, to a `String`, on what a pointer
/// finds in a text. The result is a function of the text and of the pointer,
/// and it is `Ok` exactly on a JSON string, with that string: that much is
/// believed. The wording of the message is not stated.
#[verifier::external_body]
pub(crate) fn read_text(body: &Vec<u8>, pointer: &str) -> (r: Result<String, String>)
    requires
        json_at(body@, pointer@) matches Some(Some(_)),
    ensures
        reading_view(r) == json_text(body@, pointer@),
        r is Ok <==> text_found(json_at(body@, pointer@)) is Some,
        r matches Ok(t) ==> text_found(json_at(body@, pointer@)) == Some(t@),
{
    let value: serde_json::Value = serde_json::from_slice(body).map_err(|e| e.to_string())?;
    let part = value.pointer(pointer).cloned().unwrap_or_default();
    serde_json::from_value::<String>(part).map_err(|e| e.to_string())
}

/// The text that a lookup has found.
pub open spec fn text_found(found: Option<Option<PartView>>) -> Option<Seq<char>> {
    match found {
        Some(Some(PartView::Text(s))) => Some(s),
        _ => None,
    }
}

/// The integer that a lookup has found.
pub open spec fn integer_found(found: Option<Option<PartView>>) -> Option<i64> {
    match found {
        Some(Some(PartView::Number(n))) => n,
        _ => None,
    }
}

/// Takes the text that a lookup has found.
pub fn take_text(found: Option<Option<JsonPart>>) -> (r: Option<String>)
    ensures
        crate::text::text_of(r) == text_found(lookup_view(found)),
{
    match found {
        Some(Some(JsonPart::Text(s))) => Some(s),
        _ => None,
    }
}

/// Takes the integer that a lookup has found.
pub fn take_integer(found: Option<Option<JsonPart>>) -> (r: Option<i64>)
    ensures
        r == integer_found(lookup_view(found)),
{
    match found {
        Some(Some(JsonPart::Number(n))) => n,
        _ => None,
    }
}

// ---------------------------------------------------------------------------
// Laws
// ---------------------------------------------------------------------------

/// Only a text is taken for a text, and only an integer for an integer; what is
/// missing, of another sort or no JSON at all is neither.
pub proof fn parts_are_taken_for_what_they_are(found: Option<Option<PartView>>, s: Seq<char>)
    ensures
        text_found(Some(Some(PartView::Text(s)))) == Some(s),
        integer_found(Some(Some(PartView::Text(s)))) is None,
        text_found(found) is Some <==> (found matches Some(Some(p)) && p is Text),
        integer_found(found) is Some <==> (found matches Some(Some(PartView::Number(Some(_))))),
        found matches Some(Some(PartView::Number(n))) ==> integer_found(found) == n,
{
}

/// The view of a lookup says whether the text is JSON, whether something is
/// there, and what.
pub proof fn lookup_views_tell_all(r: Option<Option<JsonPart>>)
    ensures
        r is None <==> lookup_view(r) is None,
        r matches Some(None) ==> lookup_view(r) == Some(None::<PartView>),
        r matches Some(Some(JsonPart::Text(s))) ==> lookup_view(r) == Some(
            Some(PartView::Text(s@)),
        ),
        r matches Some(Some(JsonPart::Number(n))) ==> lookup_view(r) == Some(
            Some(PartView::Number(n)),
        ),
        r matches Some(Some(p)) ==> lookup_view(r) == Some(Some(p@)),
{
}

} // verus!
