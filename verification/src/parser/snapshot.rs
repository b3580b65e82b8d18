//! The snapshot sub-parser: `{snapshot-id, timestamp-ms, manifests}`, for
//! parsing snapshot history independently of full table metadata.

use crate::json::{decode_json, json_doc_of, JsonValue, JsonView};
use crate::parser::util;
use crate::parser::{ParserError, ParserErrorView};
use crate::snapshot::{Snapshot, SnapshotView};
use vstd::prelude::*;

verus! {

broadcast use vstd::std_specs::control_flow::group_control_flow_axioms;

/// What parsing a snapshot object yields: its identifier, timestamp and
/// manifest locations in that order; a fresh snapshot records no file
/// changes.
pub open spec fn spec_parse_snapshot(j: JsonView) -> Result<SnapshotView, ParserErrorView> {
    if !(j matches JsonView::Obj(_)) {
        Err(ParserErrorView::InvalidFieldType("snapshot"@))
    } else {
        match util::spec_get_u64(j, "snapshot-id"@, "snapshot-id"@) {
            Err(e) => Err(e),
            Ok(snapshot_id) => match util::spec_get_u64(j, "timestamp-ms"@, "timestamp-ms"@) {
                Err(e) => Err(e),
                Ok(timestamp_ms) => match util::spec_get_string_array(
                    j,
                    "manifests"@,
                    "manifests"@,
                ) {
                    Err(e) => Err(e),
                    Ok(manifests) => Ok(
                        SnapshotView {
                            snapshot_id,
                            timestamp_ms,
                            manifests,
                            added_files: Seq::empty(),
                            deleted_files: Seq::empty(),
                        },
                    ),
                },
            },
        }
    }
}

/// Parses a snapshot from a JSON object value.
pub fn from_json_value(value: &JsonValue) -> (r: Result<Snapshot, ParserError>)
    ensures
        match r {
            Ok(s) => spec_parse_snapshot(value@) == Ok::<SnapshotView, ParserErrorView>(s@),
            Err(e) => spec_parse_snapshot(value@) == Err::<SnapshotView, ParserErrorView>(e@),
        },
{
    match value {
        JsonValue::Obj(_) => {
            let snapshot_id = util::get_u64(value, "snapshot-id", None)?;
            let timestamp_ms = util::get_u64(value, "timestamp-ms", None)?;
            let manifests = util::get_string_array(value, "manifests", None)?;
            let s = Snapshot::new(snapshot_id, timestamp_ms, manifests);
            proof {
                assert(s@ =~= (match spec_parse_snapshot(value@) {
                    Ok(sv) => sv,
                    Err(_) => s@,
                }));
            }
            Ok(s)
        },
        _ => Err(ParserError::InvalidFieldType("snapshot".to_owned())),
    }
}

/// Parses a snapshot from JSON text.
pub fn from_json(json: &str) -> (r: Result<Snapshot, ParserError>)
    ensures
        match json_doc_of(json@) {
            Some(doc) => match r {
                Ok(s) => spec_parse_snapshot(doc) == Ok::<SnapshotView, ParserErrorView>(s@),
                Err(e) => spec_parse_snapshot(doc) == Err::<SnapshotView, ParserErrorView>(e@),
            },
            None => r matches Err(e) && e@ matches ParserErrorView::InvalidJson(_),
        },
{
    match decode_json(json) {
        Ok(value) => from_json_value(&value),
        Err(message) => Err(ParserError::InvalidJson(message)),
    }
}

} // verus!
