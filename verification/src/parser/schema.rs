//! The schema sub-parser: a `fields` array of `{id, name, type, required}`
//! objects, each attribute failing with a field-qualified error.

use crate::json::{decode_json, json_doc_of, spec_get, JsonValue, JsonView};
use crate::parser::util;
use crate::parser::{ParserError, ParserErrorView};
use crate::schema::{NestedField, NestedFieldView, Schema, SchemaView};
use vstd::prelude::*;

verus! {

broadcast use vstd::std_specs::control_flow::group_control_flow_axioms;

/// What parsing one schema field yields: its attributes in the order name,
/// type, id, required, stopping at the first missing or mistyped one.
pub open spec fn spec_parse_field(j: JsonView) -> Result<NestedFieldView, ParserErrorView> {
    match util::spec_get_string(j, "name"@, "schema.fields.name"@) {
        Err(e) => Err(e),
        Ok(name) => match util::spec_get_string(j, "type"@, "schema.fields.type"@) {
            Err(e) => Err(e),
            Ok(field_type) => match util::spec_get_u32(j, "id"@, "schema.fields.id"@) {
                Err(e) => Err(e),
                Ok(id) => match util::spec_get_bool(j, "required"@, "schema.fields.required"@) {
                    Err(e) => Err(e),
                    Ok(required) => Ok(NestedFieldView { id, name, field_type, required }),
                },
            },
        },
    }
}

/// What parsing the elements of a `fields` array yields: every field in
/// order, or the first element's error.
pub open spec fn spec_parse_fields(items: Seq<JsonView>) -> Result<
    Seq<NestedFieldView>,
    ParserErrorView,
>
    decreases items.len(),
{
    if items.len() == 0 {
        Ok(Seq::empty())
    } else {
        match spec_parse_field(items[0]) {
            Err(e) => Err(e),
            Ok(f) => match spec_parse_fields(items.drop_first()) {
                Ok(rest) => Ok(seq![f] + rest),
                Err(e) => Err(e),
            },
        }
    }
}

/// What parsing a schema object yields: a `fields` array is required, every
/// element must parse, and the field ids must be unique — the schema's
/// declared invariant, enforced at construction. A duplicate id is reported
/// as `InvalidFieldType` under the path of the offending attribute.
pub open spec fn spec_parse_schema(j: JsonView) -> Result<SchemaView, ParserErrorView> {
    match spec_get(j, "fields"@) {
        None => Err(ParserErrorView::MissingRequiredField("schema.fields"@)),
        Some(JsonView::Arr(items)) => match spec_parse_fields(items) {
            Ok(fields) => if !(SchemaView { fields }).ids_unique() {
                Err(ParserErrorView::InvalidFieldType("schema.fields.id"@))
            } else {
                Ok(SchemaView { fields })
            },
            Err(e) => Err(e),
        },
        Some(_) => Err(ParserErrorView::InvalidFieldType("schema.fields"@)),
    }
}

/// Parsing every element of a `fields` array succeeds exactly when each
/// element parses.
proof fn lemma_parse_fields_ok(items: Seq<JsonView>, fvs: Seq<NestedFieldView>)
    requires
        items.len() == fvs.len(),
        forall|k: int|
            0 <= k < items.len() ==> #[trigger] spec_parse_field(items[k]) == Ok::<
                NestedFieldView,
                ParserErrorView,
            >(fvs[k]),
    ensures
        spec_parse_fields(items) == Ok::<Seq<NestedFieldView>, ParserErrorView>(fvs),
    decreases items.len(),
{
    if items.len() > 0 {
        lemma_parse_fields_ok(items.drop_first(), fvs.drop_first());
        assert(seq![fvs[0]] + fvs.drop_first() =~= fvs);
    } else {
        assert(fvs =~= Seq::<NestedFieldView>::empty());
    }
}

/// Parsing a `fields` array stops at the first element that fails.
proof fn lemma_parse_fields_err(items: Seq<JsonView>, j: int, e: ParserErrorView)
    requires
        0 <= j < items.len(),
        spec_parse_field(items[j]) == Err::<NestedFieldView, ParserErrorView>(e),
        forall|k: int| 0 <= k < j ==> (#[trigger] spec_parse_field(items[k])) is Ok,
    ensures
        spec_parse_fields(items) == Err::<Seq<NestedFieldView>, ParserErrorView>(e),
    decreases j,
{
    if j > 0 {
        lemma_parse_fields_err(items.drop_first(), j - 1, e);
    }
}

/// Parses one element of a `fields` array.
fn as_field(value: &JsonValue) -> (r: Result<NestedField, ParserError>)
    ensures
        match r {
            Ok(f) => spec_parse_field(value@) == Ok::<NestedFieldView, ParserErrorView>(f@),
            Err(e) => spec_parse_field(value@) == Err::<NestedFieldView, ParserErrorView>(e@),
        },
{
    let name = util::get_string(value, "name", Some("schema.fields.name"))?;
    let field_type = util::get_string(value, "type", Some("schema.fields.type"))?;
    let id = util::get_u32(value, "id", Some("schema.fields.id"))?;
    let required = util::get_bool(value, "required", Some("schema.fields.required"))?;
    Ok(NestedField { id, name, field_type, required })
}

/// Parses a schema from a JSON object value.
pub fn from_json_value(value: &JsonValue) -> (r: Result<Schema, ParserError>)
    ensures
        match r {
            Ok(s) => spec_parse_schema(value@) == Ok::<SchemaView, ParserErrorView>(s@)
                && s@.ids_unique(),
            Err(e) => spec_parse_schema(value@) == Err::<SchemaView, ParserErrorView>(e@),
        },
{
    match value.get("fields") {
        None => Err(ParserError::MissingRequiredField("schema.fields".to_owned())),
        Some(found) => match found {
            JsonValue::Arr(items) => {
                proof {
                    crate::json::lemma_json_view_seq(items@);
                }
                let ghost iv = crate::json::json_view_seq(items@);
                let mut nested_fields: Vec<NestedField> = Vec::new();
                let mut i: usize = 0;
                while i < items.len()
                    invariant
                        i <= items.len(),
                        iv == crate::json::json_view_seq(items@),
                        iv.len() == items@.len(),
                        spec_get(value@, "fields"@) == Some(JsonView::Arr(iv)),
                        forall|k: int|
                            0 <= k < items@.len() ==> #[trigger] iv[k] == crate::json::json_view(
                                items@[k],
                            ),
                        nested_fields@.len() == i,
                        forall|k: int|
                            0 <= k < i ==> #[trigger] spec_parse_field(iv[k]) == Ok::<
                                NestedFieldView,
                                ParserErrorView,
                            >(nested_fields@[k]@),
                    decreases items.len() - i,
                {
                    match as_field(&items[i]) {
                        Ok(f) => {
                            nested_fields.push(f);
                        },
                        Err(e) => {
                            proof {
                                lemma_parse_fields_err(iv, i as int, e@);
                            }
                            return Err(e);
                        },
                    }
                    i += 1;
                }
                proof {
                    lemma_parse_fields_ok(
                        iv,
                        nested_fields@.map_values(|f: NestedField| f@),
                    );
                }
                let schema = Schema::new(nested_fields);
                if !schema.ids_unique_check() {
                    return Err(ParserError::InvalidFieldType("schema.fields.id".to_owned()));
                }
                Ok(schema)
            },
            _ => Err(ParserError::InvalidFieldType("schema.fields".to_owned())),
        },
    }
}

/// Parses a schema from JSON text.
pub fn from_json(json: &str) -> (r: Result<Schema, ParserError>)
    ensures
        match json_doc_of(json@) {
            Some(doc) => match r {
                Ok(s) => spec_parse_schema(doc) == Ok::<SchemaView, ParserErrorView>(s@),
                Err(e) => spec_parse_schema(doc) == Err::<SchemaView, ParserErrorView>(e@),
            },
            None => r matches Err(e) && e@ matches ParserErrorView::InvalidJson(_),
        },
{
    match decode_json(json) {
        Ok(value) => from_json_value(&value),
        Err(message) => Err(ParserError::InvalidJson(message)),
    }
}

} // verus!
