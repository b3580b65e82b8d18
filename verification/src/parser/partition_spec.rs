//! The partition-spec sub-parser: an array of `{source-id, transform, name}`
//! objects whose transform names must resolve through the registry.

use crate::json::{decode_json, json_doc_of, JsonValue, JsonView};
use crate::parser::util;
use crate::parser::{ParserError, ParserErrorView};
use crate::partition::{PartitionField, PartitionFieldView, PartitionSpec, PartitionSpecView};
use crate::transform::{get_transform, spec_get_transform};
use vstd::prelude::*;

verus! {

broadcast use vstd::std_specs::control_flow::group_control_flow_axioms;

/// What parsing one partition-spec entry yields: source id, transform name
/// and partition name in that order, stopping at the first missing attribute;
/// an unresolved transform name is `InvalidPartitionTransform`, never a
/// silent default. An entry carries no width attribute, so a width-taking
/// transform named here gets the registry's declared default width; see
/// `DEFAULT_TRANSFORM_WIDTH`.
pub open spec fn spec_parse_partition_field(j: JsonView) -> Result<
    PartitionFieldView,
    ParserErrorView,
> {
    match util::spec_get_u32(j, "source-id"@, "partition-spec.source-id"@) {
        Err(e) => Err(e),
        Ok(source_id) => match util::spec_get_string(j, "transform"@, "partition-spec.transform"@) {
            Err(e) => Err(e),
            Ok(transform_name) => match util::spec_get_string(j, "name"@, "partition-spec.name"@) {
                Err(e) => Err(e),
                Ok(name) => match spec_get_transform(transform_name) {
                    None => Err(ParserErrorView::InvalidPartitionTransform(transform_name)),
                    Some(transform) => Ok(PartitionFieldView { source_id, name, transform }),
                },
            },
        },
    }
}

/// What parsing the entries of a partition-spec array yields: every field in
/// order, or the first entry's error.
pub open spec fn spec_parse_partition_fields(items: Seq<JsonView>) -> Result<
    Seq<PartitionFieldView>,
    ParserErrorView,
>
    decreases items.len(),
{
    if items.len() == 0 {
        Ok(Seq::empty())
    } else {
        match spec_parse_partition_field(items[0]) {
            Err(e) => Err(e),
            Ok(f) => match spec_parse_partition_fields(items.drop_first()) {
                Ok(rest) => Ok(seq![f] + rest),
                Err(e) => Err(e),
            },
        }
    }
}

/// What parsing a partition spec yields: the value must be an array and
/// every entry must parse.
pub open spec fn spec_parse_partition_spec(j: JsonView) -> Result<
    PartitionSpecView,
    ParserErrorView,
> {
    match j {
        JsonView::Arr(items) => match spec_parse_partition_fields(items) {
            Ok(fields) => Ok(PartitionSpecView { fields }),
            Err(e) => Err(e),
        },
        _ => Err(ParserErrorView::InvalidFieldType("partition-spec"@)),
    }
}

/// Parsing every entry succeeds exactly when each entry parses.
proof fn lemma_parse_pfields_ok(items: Seq<JsonView>, fvs: Seq<PartitionFieldView>)
    requires
        items.len() == fvs.len(),
        forall|k: int|
            0 <= k < items.len() ==> #[trigger] spec_parse_partition_field(items[k]) == Ok::<
                PartitionFieldView,
                ParserErrorView,
            >(fvs[k]),
    ensures
        spec_parse_partition_fields(items) == Ok::<Seq<PartitionFieldView>, ParserErrorView>(fvs),
    decreases items.len(),
{
    if items.len() > 0 {
        lemma_parse_pfields_ok(items.drop_first(), fvs.drop_first());
        assert(seq![fvs[0]] + fvs.drop_first() =~= fvs);
    } else {
        assert(fvs =~= Seq::<PartitionFieldView>::empty());
    }
}

/// Parsing stops at the first entry that fails.
proof fn lemma_parse_pfields_err(items: Seq<JsonView>, j: int, e: ParserErrorView)
    requires
        0 <= j < items.len(),
        spec_parse_partition_field(items[j]) == Err::<PartitionFieldView, ParserErrorView>(e),
        forall|k: int| 0 <= k < j ==> (#[trigger] spec_parse_partition_field(items[k])) is Ok,
    ensures
        spec_parse_partition_fields(items) == Err::<Seq<PartitionFieldView>, ParserErrorView>(e),
    decreases j,
{
    if j > 0 {
        lemma_parse_pfields_err(items.drop_first(), j - 1, e);
    }
}

/// Parses one partition-spec entry.
fn as_partition_field(value: &JsonValue) -> (r: Result<PartitionField, ParserError>)
    ensures
        match r {
            Ok(f) => spec_parse_partition_field(value@) == Ok::<
                PartitionFieldView,
                ParserErrorView,
            >(f@),
            Err(e) => spec_parse_partition_field(value@) == Err::<
                PartitionFieldView,
                ParserErrorView,
            >(e@),
        },
{
    let source_id = util::get_u32(value, "source-id", Some("partition-spec.source-id"))?;
    let transform_name = util::get_string(value, "transform", Some("partition-spec.transform"))?;
    let name = util::get_string(value, "name", Some("partition-spec.name"))?;
    match get_transform(transform_name.as_str()) {
        None => Err(ParserError::InvalidPartitionTransform(transform_name)),
        Some(transform) => Ok(PartitionField::new(source_id, name, transform)),
    }
}

/// Parses a partition spec from a JSON array value.
pub fn from_json_value(value: &JsonValue) -> (r: Result<PartitionSpec, ParserError>)
    ensures
        match r {
            Ok(s) => spec_parse_partition_spec(value@) == Ok::<PartitionSpecView, ParserErrorView>(
                s@,
            ),
            Err(e) => spec_parse_partition_spec(value@) == Err::<
                PartitionSpecView,
                ParserErrorView,
            >(e@),
        },
{
    match value {
        JsonValue::Arr(items) => {
            proof {
                crate::json::lemma_json_view_seq(items@);
            }
            let ghost iv = crate::json::json_view_seq(items@);
            let mut partition_fields: Vec<PartitionField> = Vec::new();
            let mut i: usize = 0;
            while i < items.len()
                invariant
                    i <= items.len(),
                    iv == crate::json::json_view_seq(items@),
                    iv.len() == items@.len(),
                    spec_parse_partition_spec(value@) == (match spec_parse_partition_fields(iv) {
                        Ok(fields) => Ok::<PartitionSpecView, ParserErrorView>(
                            PartitionSpecView { fields },
                        ),
                        Err(e) => Err::<PartitionSpecView, ParserErrorView>(e),
                    }),
                    forall|k: int|
                        0 <= k < items@.len() ==> #[trigger] iv[k] == crate::json::json_view(
                            items@[k],
                        ),
                    partition_fields@.len() == i,
                    forall|k: int|
                        0 <= k < i ==> #[trigger] spec_parse_partition_field(iv[k]) == Ok::<
                            PartitionFieldView,
                            ParserErrorView,
                        >(partition_fields@[k]@),
                decreases items.len() - i,
            {
                match as_partition_field(&items[i]) {
                    Ok(f) => {
                        partition_fields.push(f);
                    },
                    Err(e) => {
                        proof {
                            lemma_parse_pfields_err(iv, i as int, e@);
                        }
                        return Err(e);
                    },
                }
                i += 1;
            }
            proof {
                lemma_parse_pfields_ok(
                    iv,
                    partition_fields@.map_values(|f: PartitionField| f@),
                );
            }
            Ok(PartitionSpec::new(partition_fields))
        },
        _ => Err(ParserError::InvalidFieldType("partition-spec".to_owned())),
    }
}

/// Parses a partition spec from JSON text.
pub fn from_json(json: &str) -> (r: Result<PartitionSpec, ParserError>)
    ensures
        match json_doc_of(json@) {
            Some(doc) => match r {
                Ok(s) => spec_parse_partition_spec(doc) == Ok::<PartitionSpecView, ParserErrorView>(
                    s@,
                ),
                Err(e) => spec_parse_partition_spec(doc) == Err::<
                    PartitionSpecView,
                    ParserErrorView,
                >(e@),
            },
            None => r matches Err(e) && e@ matches ParserErrorView::InvalidJson(_),
        },
{
    match decode_json(json) {
        Ok(value) => from_json_value(&value),
        Err(message) => Err(ParserError::InvalidJson(message)),
    }
}

} // verus!
