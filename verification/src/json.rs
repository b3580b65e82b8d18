//! A plain model of JSON documents.
//!
//! The metadata parser works on [`JsonValue`], a tree of plain values that the
//! verifier can reason about. Decoding JSON text into that tree is delegated
//! to serde_json behind a small trusted boundary at the end of this file.

use serde_json::Value as SerdeValue;
use vstd::prelude::*;

verus! {

/// A JSON number, reduced to what the metadata parser must distinguish.
///
/// A number token either is a non-negative integer that fits in 64 bits, a
/// negative integer that fits in 64 bits, or something else (a float token or
/// an integer beyond 64 bits); unsigned metadata fields accept only the first
/// kind, and only within the target width.
#[derive(Clone, Copy, PartialEq, Eq, Structural, Debug)]
pub enum JsonNum {
    UInt(u64),
    Neg(i64),
    Other,
}

/// A JSON value as a tree of plain values.
#[derive(Debug)]
pub enum JsonValue {
    Null,
    Bool(bool),
    Num(JsonNum),
    Str(String),
    Arr(Vec<JsonValue>),
    Obj(Vec<(String, JsonValue)>),
}

/// The mathematical model of a [`JsonValue`]: strings become character
/// sequences, vectors become sequences.
pub enum JsonView {
    Null,
    Bool(bool),
    Num(JsonNum),
    Str(Seq<char>),
    Arr(Seq<JsonView>),
    Obj(Seq<(Seq<char>, JsonView)>),
}

/// The model of a JSON value tree.
pub open spec fn json_view(v: JsonValue) -> JsonView
    decreases v,
{
    match v {
        JsonValue::Null => JsonView::Null,
        JsonValue::Bool(b) => JsonView::Bool(b),
        JsonValue::Num(n) => JsonView::Num(n),
        JsonValue::Str(s) => JsonView::Str(s@),
        JsonValue::Arr(a) => JsonView::Arr(json_view_seq(a@)),
        JsonValue::Obj(o) => JsonView::Obj(json_view_entries(o@)),
    }
}

/// The models of an array's elements, in order.
pub open spec fn json_view_seq(s: Seq<JsonValue>) -> Seq<JsonView>
    decreases s,
{
    if s.len() == 0 {
        Seq::empty()
    } else {
        seq![json_view(s[0])] + json_view_seq(s.subrange(1, s.len() as int))
    }
}

/// The models of an object's entries, in order.
pub open spec fn json_view_entries(s: Seq<(String, JsonValue)>) -> Seq<(Seq<char>, JsonView)>
    decreases s,
{
    if s.len() == 0 {
        Seq::empty()
    } else {
        seq![(s[0].0@, json_view(s[0].1))] + json_view_entries(s.subrange(1, s.len() as int))
    }
}

impl View for JsonValue {
    type V = JsonView;

    open spec fn view(&self) -> JsonView {
        json_view(*self)
    }
}

/// The entry for `key` in an object's entry list, scanning from the front.
pub open spec fn obj_lookup(entries: Seq<(Seq<char>, JsonView)>, key: Seq<char>) -> Option<
    JsonView,
>
    decreases entries.len(),
{
    if entries.len() == 0 {
        None
    } else if entries[0].0 == key {
        Some(entries[0].1)
    } else {
        obj_lookup(entries.drop_first(), key)
    }
}

/// What `JsonValue::get` returns: the value under `key` if the receiver is an
/// object with such an entry, `None` otherwise.
pub open spec fn spec_get(v: JsonView, key: Seq<char>) -> Option<JsonView> {
    match v {
        JsonView::Obj(entries) => obj_lookup(entries, key),
        _ => None,
    }
}

/// Character-for-character equality of two string slices.
pub fn str_eq(a: &str, b: &str) -> (r: bool)
    ensures
        r == (a@ == b@),
{
    let oa: String = a.to_owned();
    let ob: String = b.to_owned();
    oa == ob
}

/// How `json_view_seq` acts on each element of a sequence.
pub proof fn lemma_json_view_seq(s: Seq<JsonValue>)
    ensures
        json_view_seq(s).len() == s.len(),
        forall|i: int|
            0 <= i < s.len() ==> #[trigger] json_view_seq(s)[i] == json_view(s[i]),
    decreases s.len(),
{
    if s.len() > 0 {
        lemma_json_view_seq(s.subrange(1, s.len() as int));
    }
}

/// How `json_view_entries` acts on each entry of an object's entry list.
pub proof fn lemma_json_view_entries(s: Seq<(String, JsonValue)>)
    ensures
        json_view_entries(s).len() == s.len(),
        forall|i: int|
            0 <= i < s.len() ==> #[trigger] json_view_entries(s)[i] == (
                s[i].0@,
                json_view(s[i].1),
            ),
    decreases s.len(),
{
    if s.len() > 0 {
        lemma_json_view_entries(s.subrange(1, s.len() as int));
    }
}

/// `obj_lookup` finds the first entry whose key matches.
proof fn lemma_obj_lookup_first_match(es: Seq<(Seq<char>, JsonView)>, key: Seq<char>, j: int)
    requires
        0 <= j < es.len(),
        es[j].0 == key,
        forall|k: int| 0 <= k < j ==> (#[trigger] es[k]).0 != key,
    ensures
        obj_lookup(es, key) == Some(es[j].1),
    decreases j,
{
    if j > 0 {
        lemma_obj_lookup_first_match(es.drop_first(), key, j - 1);
    }
}

/// `obj_lookup` finds nothing when no entry's key matches.
proof fn lemma_obj_lookup_absent(es: Seq<(Seq<char>, JsonView)>, key: Seq<char>)
    requires
        forall|k: int| 0 <= k < es.len() ==> (#[trigger] es[k]).0 != key,
    ensures
        obj_lookup(es, key) is None,
    decreases es.len(),
{
    if es.len() > 0 {
        lemma_obj_lookup_absent(es.drop_first(), key);
    }
}

impl JsonValue {
    /// Looks up `key` if this value is an object, as serde_json's `Value::get`
    /// does: on any other kind of value the result is `None`.
    pub fn get<'a>(&'a self, key: &str) -> (r: Option<&'a JsonValue>)
        ensures
            match r {
                Some(found) => spec_get(self@, key@) == Some(found@),
                None => spec_get(self@, key@) is None,
            },
    {
        match self {
            JsonValue::Obj(entries) => {
                proof {
                    lemma_json_view_entries(entries@);
                }
                let ghost es = json_view_entries(entries@);
                let mut i: usize = 0;
                while i < entries.len()
                    invariant
                        i <= entries.len(),
                        es == json_view_entries(entries@),
                        es.len() == entries@.len(),
                        spec_get(self@, key@) == obj_lookup(es, key@),
                        forall|k: int|
                            0 <= k < entries@.len() ==> #[trigger] es[k] == (
                                entries@[k].0@,
                                json_view(entries@[k].1),
                            ),
                        forall|k: int| 0 <= k < i ==> (#[trigger] es[k]).0 != key@,
                    decreases entries.len() - i,
                {
                    if str_eq(entries[i].0.as_str(), key) {
                        proof {
                            lemma_obj_lookup_first_match(es, key@, i as int);
                        }
                        return Some(&entries[i].1);
                    }
                    i += 1;
                }
                proof {
                    lemma_obj_lookup_absent(es, key@);
                }
                None
            },
            _ => None,
        }
    }
}

#[verifier::external_type_specification]
#[verifier::external_body]
pub struct ExSerdeValue(SerdeValue);

/// The JSON document a text denotes, or `None` where the text is not
/// well-formed JSON. Decoding is delegated to serde_json; its result depends
/// on the text alone, so it is only named here, never written out.
pub uninterp spec fn json_doc_of(text: Seq<char>) -> Option<JsonView>;

/// Rebuilds serde_json's value tree as the library's own, one variant for one
/// variant. Relies on serde_json::Number::as_u64 and as_i64: the former is
/// `Some` exactly on non-negative integers that fit in 64 bits, and when it is
/// `None` the latter is `Some` exactly on negative integers that fit.
#[verifier::external_body]
fn from_serde_value(v: SerdeValue) -> JsonValue {
    match v {
        SerdeValue::Null => JsonValue::Null,
        SerdeValue::Bool(b) => JsonValue::Bool(b),
        SerdeValue::Number(n) => JsonValue::Num(match (n.as_u64(), n.as_i64()) {
            (Some(u), _) => JsonNum::UInt(u),
            (None, Some(i)) => JsonNum::Neg(i),
            _ => JsonNum::Other,
        }),
        SerdeValue::String(s) => JsonValue::Str(s),
        SerdeValue::Array(a) => JsonValue::Arr(a.into_iter().map(from_serde_value).collect()),
        SerdeValue::Object(o) => JsonValue::Obj(
            o.into_iter().map(|(k, x)| (k, from_serde_value(x))).collect(),
        ),
    }
}

/// Relies on serde_json::from_str: a text either denotes one JSON document or
/// is rejected, and which of the two holds — and the document itself — is a
/// function of the text alone. The error carries serde_json's message.
#[verifier::external_body]
pub(crate) fn decode_json(text: &str) -> (r: Result<JsonValue, String>)
    ensures
        match r {
            Ok(v) => json_doc_of(text@) == Some(v@),
            Err(_) => json_doc_of(text@) is None,
        },
{
    match serde_json::from_str::<SerdeValue>(text) {
        Ok(v) => Ok(from_serde_value(v)),
        Err(e) => Err(format!("{}", e)),
    }
}

} // verus!
