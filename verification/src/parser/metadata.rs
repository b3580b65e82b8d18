//! The table-metadata parser: the aggregate of the sub-parsers, all-or-nothing.

use crate::json::{decode_json, json_doc_of, spec_get, JsonValue, JsonView};
use crate::metadata::{
    spec_column_watermark_ok, spec_watermark_covers, watermark_covers, TableMetadata,
    TableMetadataView, TABLE_FORMAT_VERSION,
};
use crate::parser::util;
use crate::parser::{partition_spec, schema, snapshot, ParserError, ParserErrorView};
use crate::partition::{
    spec_binding_fault, spec_compatible, PartitionBindingFault, PartitionSpec, PartitionSpecView,
};
use crate::properties::{map_of, Properties};
use crate::schema::{Schema, SchemaView};
use crate::snapshot::{
    snapshot_ids_unique_check, spec_snapshot_ids_unique, Snapshot, SnapshotView,
};
use vstd::prelude::*;

verus! {

broadcast use vstd::std_specs::control_flow::group_control_flow_axioms;

/// What parsing the `properties` entries yields: a string-to-string mapping
/// where a later entry for the same key wins, or the key of the first
/// non-string value.
pub open spec fn spec_parse_prop_entries(entries: Seq<(Seq<char>, JsonView)>) -> Result<
    Map<Seq<char>, Seq<char>>,
    ParserErrorView,
>
    decreases entries.len(),
{
    if entries.len() == 0 {
        Ok(Map::empty())
    } else {
        match entries[0].1 {
            JsonView::Str(s) => match spec_parse_prop_entries(entries.drop_first()) {
                Ok(m) => Ok(
                    Map::<Seq<char>, Seq<char>>::empty().insert(
                        entries[0].0,
                        s,
                    ).union_prefer_right(m),
                ),
                Err(e) => Err(e),
            },
            _ => Err(ParserErrorView::InvalidFieldType(entries[0].0)),
        }
    }
}

/// What parsing the `properties` value yields: it must be an object of
/// string values.
pub open spec fn spec_parse_properties(j: JsonView) -> Result<
    Map<Seq<char>, Seq<char>>,
    ParserErrorView,
> {
    match j {
        JsonView::Obj(entries) => spec_parse_prop_entries(entries),
        _ => Err(ParserErrorView::InvalidFieldType("properties"@)),
    }
}

/// What parsing the elements of a `snapshots` array yields.
pub open spec fn spec_parse_snapshot_list(items: Seq<JsonView>) -> Result<
    Seq<SnapshotView>,
    ParserErrorView,
>
    decreases items.len(),
{
    if items.len() == 0 {
        Ok(Seq::empty())
    } else {
        match snapshot::spec_parse_snapshot(items[0]) {
            Err(e) => Err(e),
            Ok(s) => match spec_parse_snapshot_list(items.drop_first()) {
                Ok(rest) => Ok(seq![s] + rest),
                Err(e) => Err(e),
            },
        }
    }
}

/// The `schema` object is required and handed to the schema sub-parser.
pub open spec fn spec_get_schema(j: JsonView) -> Result<SchemaView, ParserErrorView> {
    match spec_get(j, "schema"@) {
        None => Err(ParserErrorView::MissingRequiredField("schema"@)),
        Some(s) => schema::spec_parse_schema(s),
    }
}

/// The `partition-spec` array is required and handed to its sub-parser.
pub open spec fn spec_get_partition_spec(j: JsonView) -> Result<
    PartitionSpecView,
    ParserErrorView,
> {
    match spec_get(j, "partition-spec"@) {
        None => Err(ParserErrorView::MissingRequiredField("partition-spec"@)),
        Some(s) => partition_spec::spec_parse_partition_spec(s),
    }
}

/// The `properties` object is required.
pub open spec fn spec_get_properties(j: JsonView) -> Result<
    Map<Seq<char>, Seq<char>>,
    ParserErrorView,
> {
    match spec_get(j, "properties"@) {
        None => Err(ParserErrorView::MissingRequiredField("properties"@)),
        Some(p) => spec_parse_properties(p),
    }
}

/// The `snapshots` array is optional: absent means no snapshot history.
pub open spec fn spec_get_snapshots(j: JsonView) -> Result<Seq<SnapshotView>, ParserErrorView> {
    match spec_get(j, "snapshots"@) {
        None => Ok(Seq::empty()),
        Some(JsonView::Arr(items)) => spec_parse_snapshot_list(items),
        Some(_) => Err(ParserErrorView::InvalidFieldType("snapshots"@)),
    }
}

/// What parsing a table-metadata document yields. The `format-version` must
/// be present and equal the single supported version (a number beyond the
/// unsigned 32-bit width fails the numeric policy first, as `InvalidFieldType`);
/// the required scalar fields follow, then the schema, partition spec,
/// properties and snapshot history. The data model's declared invariants are
/// enforced here, each reported as `InvalidFieldType` under the path of the
/// offending attribute: the watermark must cover every schema field id
/// (`last-column-id`), every partition field must bind to an existing schema
/// field (`partition-spec.source-id`) of a type its transform accepts
/// (`partition-spec.transform`), and snapshot ids must be distinct
/// (`snapshots.snapshot-id`). Any failure is the first error met, and no
/// partial value is visible.
pub open spec fn spec_parse_metadata(j: JsonView) -> Result<TableMetadataView, ParserErrorView> {
    match util::spec_get_u32(j, "format-version"@, "format-version"@) {
        Err(e) => Err(e),
        Ok(format_version) => if format_version != TABLE_FORMAT_VERSION {
            Err(ParserErrorView::UnsupportedFormatVersion(format_version))
        } else {
            match util::spec_get_string(j, "location"@, "location"@) {
                Err(e) => Err(e),
                Ok(location) => match util::spec_get_u32(j, "last-column-id"@, "last-column-id"@) {
                    Err(e) => Err(e),
                    Ok(last_column_id) => match util::spec_get_u32(
                        j,
                        "current-snapshot-id"@,
                        "current-snapshot-id"@,
                    ) {
                        Err(e) => Err(e),
                        Ok(current_snapshot_id) => match util::spec_get_u64(
                            j,
                            "last-updated-ms"@,
                            "last-updated-ms"@,
                        ) {
                            Err(e) => Err(e),
                            Ok(last_updated_millis) => match spec_get_schema(j) {
                                Err(e) => Err(e),
                                Ok(schema) => if !spec_watermark_covers(schema, last_column_id) {
                                    Err(ParserErrorView::InvalidFieldType("last-column-id"@))
                                } else {
                                    match spec_get_partition_spec(j) {
                                        Err(e) => Err(e),
                                        Ok(partition_spec) => match spec_binding_fault(
                                            partition_spec.fields,
                                            schema,
                                        ) {
                                            Some(PartitionBindingFault::UnknownSourceField) => Err(
                                                ParserErrorView::InvalidFieldType(
                                                    "partition-spec.source-id"@,
                                                ),
                                            ),
                                            Some(PartitionBindingFault::IncompatibleTransform) => {
                                                Err(
                                                    ParserErrorView::InvalidFieldType(
                                                        "partition-spec.transform"@,
                                                    ),
                                                )
                                            },
                                            None => match spec_get_properties(j) {
                                                Err(e) => Err(e),
                                                Ok(properties) => match spec_get_snapshots(j) {
                                                    Err(e) => Err(e),
                                                    Ok(snapshots) => if !spec_snapshot_ids_unique(
                                                        snapshots,
                                                    ) {
                                                        Err(
                                                            ParserErrorView::InvalidFieldType(
                                                                "snapshots.snapshot-id"@,
                                                            ),
                                                        )
                                                    } else {
                                                        Ok(
                                                            TableMetadataView {
                                                                location,
                                                                last_updated_millis,
                                                                last_column_id,
                                                                current_snapshot_id,
                                                                schema,
                                                                partition_spec,
                                                                properties,
                                                                snapshots,
                                                            },
                                                        )
                                                    },
                                                },
                                            },
                                        },
                                    }
                                },
                            },
                        },
                    },
                },
            }
        },
    }
}

/// A mapping decomposes around its first entry: the rest of the entries win
/// over it.
proof fn lemma_map_of_front(s: Seq<(Seq<char>, Seq<char>)>)
    requires
        s.len() > 0,
    ensures
        map_of(s) == Map::<Seq<char>, Seq<char>>::empty().insert(
            s[0].0,
            s[0].1,
        ).union_prefer_right(map_of(s.drop_first())),
    decreases s.len(),
{
    let single = Map::<Seq<char>, Seq<char>>::empty().insert(s[0].0, s[0].1);
    if s.len() == 1 {
        assert(s.drop_last() =~= Seq::empty());
        assert(s.drop_first() =~= Seq::empty());
        assert(map_of(s) =~= single.union_prefer_right(map_of(s.drop_first())));
    } else {
        lemma_map_of_front(s.drop_last());
        assert(s.drop_last()[0] == s[0]);
        assert(s.drop_last().drop_first() =~= s.drop_first().drop_last());
        assert(s.drop_first().last() == s.last());
        assert(map_of(s) == map_of(s.drop_last()).insert(s.last().0, s.last().1));
        assert(map_of(s) =~= single.union_prefer_right(map_of(s.drop_first())));
    }
}

/// Parsing the property entries succeeds exactly when every value is a
/// string, and then denotes the entry list's mapping.
proof fn lemma_parse_props_ok(entries: Seq<(Seq<char>, JsonView)>, pairs: Seq<(Seq<char>, Seq<char>)>)
    requires
        entries.len() == pairs.len(),
        forall|k: int|
            0 <= k < entries.len() ==> (#[trigger] entries[k]).0 == pairs[k].0 && entries[k].1
                == JsonView::Str(pairs[k].1),
    ensures
        spec_parse_prop_entries(entries) == Ok::<Map<Seq<char>, Seq<char>>, ParserErrorView>(
            map_of(pairs),
        ),
    decreases entries.len(),
{
    if entries.len() == 0 {
        assert(pairs =~= Seq::<(Seq<char>, Seq<char>)>::empty());
    } else {
        lemma_parse_props_ok(entries.drop_first(), pairs.drop_first());
        lemma_map_of_front(pairs);
    }
}

/// Parsing the property entries stops at the first non-string value, naming
/// its key.
proof fn lemma_parse_props_err(entries: Seq<(Seq<char>, JsonView)>, j: int)
    requires
        0 <= j < entries.len(),
        !(entries[j].1 matches JsonView::Str(_)),
        forall|k: int| 0 <= k < j ==> (#[trigger] entries[k]).1 matches JsonView::Str(_),
    ensures
        spec_parse_prop_entries(entries) == Err::<Map<Seq<char>, Seq<char>>, ParserErrorView>(
            ParserErrorView::InvalidFieldType(entries[j].0),
        ),
    decreases j,
{
    if j > 0 {
        lemma_parse_props_err(entries.drop_first(), j - 1);
    }
}

/// Parses the required `properties` object into a mapping with unique keys.
fn get_properties(value: &JsonValue) -> (r: Result<Properties, ParserError>)
    ensures
        match r {
            Ok(p) => spec_get_properties(value@) == Ok::<
                Map<Seq<char>, Seq<char>>,
                ParserErrorView,
            >(p@) && p.wf(),
            Err(e) => spec_get_properties(value@) == Err::<
                Map<Seq<char>, Seq<char>>,
                ParserErrorView,
            >(e@),
        },
{
    let found = match value.get("properties") {
        Some(found) => found,
        None => {
            return Err(ParserError::MissingRequiredField("properties".to_owned()));
        },
    };
    match found {
        JsonValue::Obj(entries) => {
            proof {
                crate::json::lemma_json_view_entries(entries@);
            }
            let ghost ev = crate::json::json_view_entries(entries@);
            let mut properties = Properties::new();
            let ghost mut pairs = Seq::<(Seq<char>, Seq<char>)>::empty();
            let mut i: usize = 0;
            while i < entries.len()
                invariant
                    i <= entries.len(),
                    ev == crate::json::json_view_entries(entries@),
                    ev.len() == entries@.len(),
                    spec_get_properties(value@) == spec_parse_prop_entries(ev),
                    forall|k: int|
                        0 <= k < entries@.len() ==> #[trigger] ev[k] == (
                            entries@[k].0@,
                            crate::json::json_view(entries@[k].1),
                        ),
                    properties.wf(),
                    pairs.len() == i,
                    forall|k: int|
                        0 <= k < i ==> (#[trigger] ev[k]).0 == pairs[k].0 && ev[k].1
                            == JsonView::Str(pairs[k].1),
                    properties@ == map_of(pairs),
                decreases entries.len() - i,
            {
                match &entries[i].1 {
                    JsonValue::Str(s) => {
                        properties.insert(entries[i].0.as_str(), s.as_str());
                        proof {
                            let prev = pairs;
                            pairs = pairs.push((ev[i as int].0, s@));
                            assert(pairs.drop_last() =~= prev);
                            assert(pairs.last() == (ev[i as int].0, s@));
                            assert(properties@ == map_of(pairs));
                        }
                    },
                    _ => {
                        proof {
                            lemma_parse_props_err(ev, i as int);
                        }
                        return Err(ParserError::InvalidFieldType(entries[i].0.clone()));
                    },
                }
                i += 1;
            }
            proof {
                lemma_parse_props_ok(ev, pairs);
            }
            Ok(properties)
        },
        _ => Err(ParserError::InvalidFieldType("properties".to_owned())),
    }
}

/// Every snapshot of a `snapshots` array parses exactly when each element
/// does.
proof fn lemma_parse_snapshots_ok(items: Seq<JsonView>, svs: Seq<SnapshotView>)
    requires
        items.len() == svs.len(),
        forall|k: int|
            0 <= k < items.len() ==> #[trigger] snapshot::spec_parse_snapshot(items[k]) == Ok::<
                SnapshotView,
                ParserErrorView,
            >(svs[k]),
    ensures
        spec_parse_snapshot_list(items) == Ok::<Seq<SnapshotView>, ParserErrorView>(svs),
    decreases items.len(),
{
    if items.len() > 0 {
        lemma_parse_snapshots_ok(items.drop_first(), svs.drop_first());
        assert(seq![svs[0]] + svs.drop_first() =~= svs);
    } else {
        assert(svs =~= Seq::<SnapshotView>::empty());
    }
}

/// Parsing a `snapshots` array stops at the first element that fails.
proof fn lemma_parse_snapshots_err(items: Seq<JsonView>, j: int, e: ParserErrorView)
    requires
        0 <= j < items.len(),
        snapshot::spec_parse_snapshot(items[j]) == Err::<SnapshotView, ParserErrorView>(e),
        forall|k: int| 0 <= k < j ==> (#[trigger] snapshot::spec_parse_snapshot(items[k])) is Ok,
    ensures
        spec_parse_snapshot_list(items) == Err::<Seq<SnapshotView>, ParserErrorView>(e),
    decreases j,
{
    if j > 0 {
        lemma_parse_snapshots_err(items.drop_first(), j - 1, e);
    }
}

/// Parses the optional `snapshots` array; an absent key means an empty
/// history.
fn get_snapshots(value: &JsonValue) -> (r: Result<Vec<Snapshot>, ParserError>)
    ensures
        match r {
            Ok(v) => spec_get_snapshots(value@) == Ok::<Seq<SnapshotView>, ParserErrorView>(
                v@.map_values(|s: Snapshot| s@),
            ),
            Err(e) => spec_get_snapshots(value@) == Err::<Seq<SnapshotView>, ParserErrorView>(e@),
        },
{
    let found = match value.get("snapshots") {
        Some(found) => found,
        None => {
            let empty: Vec<Snapshot> = Vec::new();
            proof {
                assert(empty@.map_values(|s: Snapshot| s@) =~= Seq::<SnapshotView>::empty());
            }
            return Ok(empty);
        },
    };
    match found {
        JsonValue::Arr(items) => {
            proof {
                crate::json::lemma_json_view_seq(items@);
            }
            let ghost iv = crate::json::json_view_seq(items@);
            let mut snapshots: Vec<Snapshot> = Vec::new();
            let mut i: usize = 0;
            while i < items.len()
                invariant
                    i <= items.len(),
                    iv == crate::json::json_view_seq(items@),
                    iv.len() == items@.len(),
                    spec_get_snapshots(value@) == spec_parse_snapshot_list(iv),
                    forall|k: int|
                        0 <= k < items@.len() ==> #[trigger] iv[k] == crate::json::json_view(
                            items@[k],
                        ),
                    snapshots@.len() == i,
                    forall|k: int|
                        0 <= k < i ==> #[trigger] snapshot::spec_parse_snapshot(iv[k]) == Ok::<
                            SnapshotView,
                            ParserErrorView,
                        >(snapshots@[k]@),
                decreases items.len() - i,
            {
                match snapshot::from_json_value(&items[i]) {
                    Ok(s) => {
                        snapshots.push(s);
                    },
                    Err(e) => {
                        proof {
                            lemma_parse_snapshots_err(iv, i as int, e@);
                        }
                        return Err(e);
                    },
                }
                i += 1;
            }
            proof {
                lemma_parse_snapshots_ok(iv, snapshots@.map_values(|s: Snapshot| s@));
            }
            Ok(snapshots)
        },
        _ => Err(ParserError::InvalidFieldType("snapshots".to_owned())),
    }
}

/// Parses the required `schema` object.
fn get_schema(value: &JsonValue) -> (r: Result<Schema, ParserError>)
    ensures
        match r {
            Ok(s) => spec_get_schema(value@) == Ok::<SchemaView, ParserErrorView>(s@)
                && s@.ids_unique(),
            Err(e) => spec_get_schema(value@) == Err::<SchemaView, ParserErrorView>(e@),
        },
{
    match value.get("schema") {
        Some(found) => schema::from_json_value(found),
        None => Err(ParserError::MissingRequiredField("schema".to_owned())),
    }
}

/// Parses the required `partition-spec` array.
fn get_partition_spec(value: &JsonValue) -> (r: Result<PartitionSpec, ParserError>)
    ensures
        match r {
            Ok(s) => spec_get_partition_spec(value@) == Ok::<PartitionSpecView, ParserErrorView>(
                s@,
            ),
            Err(e) => spec_get_partition_spec(value@) == Err::<PartitionSpecView, ParserErrorView>(
                e@,
            ),
        },
{
    match value.get("partition-spec") {
        Some(found) => partition_spec::from_json_value(found),
        None => Err(ParserError::MissingRequiredField("partition-spec".to_owned())),
    }
}

/// Parses table metadata from a JSON value. Pure and total: every input
/// yields either a metadata value that equals the document exactly, or the
/// first structural error met.
pub fn from_json_value(value: &JsonValue) -> (r: Result<TableMetadata, ParserError>)
    ensures
        match r {
            Ok(m) => {
                &&& spec_parse_metadata(value@) == Ok::<TableMetadataView, ParserErrorView>(m@)
                &&& m.wf()
                &&& m@.schema.ids_unique()
                &&& spec_column_watermark_ok(m@)
                &&& spec_compatible(m@.partition_spec, m@.schema)
                &&& spec_snapshot_ids_unique(m@.snapshots)
            },
            Err(e) => spec_parse_metadata(value@) == Err::<TableMetadataView, ParserErrorView>(e@),
        },
{
    let format_version = util::get_u32(value, "format-version", None)?;
    if format_version != TABLE_FORMAT_VERSION {
        return Err(ParserError::UnsupportedFormatVersion(format_version));
    }
    let location = util::get_string(value, "location", None)?;
    let last_column_id = util::get_u32(value, "last-column-id", None)?;
    let current_snapshot_id = util::get_u32(value, "current-snapshot-id", None)?;
    let last_updated_millis = util::get_u64(value, "last-updated-ms", None)?;
    let schema = get_schema(value)?;
    if !watermark_covers(&schema, last_column_id) {
        return Err(ParserError::InvalidFieldType("last-column-id".to_owned()));
    }
    let partition_spec = get_partition_spec(value)?;
    match partition_spec.first_binding_fault(&schema) {
        Some(PartitionBindingFault::UnknownSourceField) => {
            return Err(ParserError::InvalidFieldType("partition-spec.source-id".to_owned()));
        },
        Some(PartitionBindingFault::IncompatibleTransform) => {
            return Err(ParserError::InvalidFieldType("partition-spec.transform".to_owned()));
        },
        None => {},
    }
    let properties = get_properties(value)?;
    let snapshots = get_snapshots(value)?;
    if !snapshot_ids_unique_check(&snapshots) {
        return Err(ParserError::InvalidFieldType("snapshots.snapshot-id".to_owned()));
    }
    Ok(
        TableMetadata {
            location,
            last_updated_millis,
            last_column_id,
            current_snapshot_id,
            schema,
            partition_spec,
            properties,
            snapshots,
        },
    )
}

/// Parses table metadata from JSON text: malformed text is `InvalidJson`,
/// and any well-formed document parses as `from_json_value` says.
pub fn from_json(json: &str) -> (r: Result<TableMetadata, ParserError>)
    ensures
        match json_doc_of(json@) {
            Some(doc) => match r {
                Ok(m) => {
                    &&& spec_parse_metadata(doc) == Ok::<TableMetadataView, ParserErrorView>(m@)
                    &&& m.wf()
                    &&& m@.schema.ids_unique()
                    &&& spec_column_watermark_ok(m@)
                    &&& spec_compatible(m@.partition_spec, m@.schema)
                    &&& spec_snapshot_ids_unique(m@.snapshots)
                },
                Err(e) => spec_parse_metadata(doc) == Err::<TableMetadataView, ParserErrorView>(
                    e@,
                ),
            },
            None => r matches Err(e) && e@ matches ParserErrorView::InvalidJson(_),
        },
{
    match decode_json(json) {
        Ok(value) => from_json_value(&value),
        Err(message) => Err(ParserError::InvalidJson(message)),
    }
}

} // verus!
