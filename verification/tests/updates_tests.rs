use iceberg::parser::metadata::from_json;
use iceberg::table::{MemoryTableOperations, Table, TableOperations};
use iceberg::updates::{PendingUpdate, UpdateError, UpdateProperties, UpdateSchema, UpdateState};

fn base_metadata() -> iceberg::metadata::TableMetadata {
    from_json(
        r#"{
            "format-version": 1,
            "location": "s3://test-location/metadata.json",
            "last-column-id": 3,
            "last-updated-ms": 1723320520000,
            "current-snapshot-id": 7,
            "schema": {
                "fields": [
                    {"id": 1, "name": "id", "type": "integer", "required": false}
                ]
            },
            "partition-spec": [
                {"source-id": 1, "transform": "bucket", "name": "id_bucket"}
            ],
            "properties": {
                "property1": "value1",
                "property2": "value2"
            },
            "snapshots": [
                {"snapshot-id": 7, "timestamp-ms": 1723320520000, "manifests": ["m1"]}
            ]
        }"#,
    )
    .unwrap()
}

#[test]
fn test_apply_merges_staged_changes() {
    let ops = MemoryTableOperations::new(base_metadata());
    let mut update = UpdateProperties::new(ops);
    update.set("property1", "patched");
    update.set("property3", "value3");
    update.remove("property2");

    let changes = update.apply().unwrap();
    assert_eq!(changes.len(), 2);
    assert_eq!(changes.get("property1"), Some(&"patched".to_string()));
    assert_eq!(changes.get("property3"), Some(&"value3".to_string()));
    assert_eq!(changes.get("property2"), None);
}

#[test]
fn test_apply_is_idempotent() {
    let ops = MemoryTableOperations::new(base_metadata());
    let mut update = UpdateProperties::new(ops);
    update.set("property3", "value3");
    update.remove("property1");

    let first = update.apply().unwrap();
    let second = update.apply().unwrap();
    assert!(first.eq_props(&second));
    let third = update.apply().unwrap();
    assert!(second.eq_props(&third));
}

#[test]
fn test_removed_key_can_be_reset() {
    let ops = MemoryTableOperations::new(base_metadata());
    let mut update = UpdateProperties::new(ops);
    update.remove("property1");
    update.set("property1", "resurrected");

    let changes = update.apply().unwrap();
    assert_eq!(changes.get("property1"), Some(&"resurrected".to_string()));
}

#[test]
fn test_commit_persists_merged_properties() {
    let ops = MemoryTableOperations::new(base_metadata());
    let mut update = UpdateProperties::new(ops);
    update.set("property3", "value3");
    update.remove("property2");

    // Preview the changes; the commit persists exactly these.
    let preview = update.apply().unwrap();
    assert_eq!(preview.len(), 2);
    assert_eq!(preview.get("property1"), Some(&"value1".to_string()));
    assert_eq!(preview.get("property3"), Some(&"value3".to_string()));
    assert_eq!(preview.get("property2"), None);

    assert_eq!(update.commit(), Ok(()));
    // The commit spent the update: it is terminal, and staging, applying or
    // committing it again is no longer permitted.
    assert_eq!(update.current_state(), UpdateState::Committed);
}

#[test]
fn test_update_lifecycle_states() {
    let ops = MemoryTableOperations::new(base_metadata());
    let mut update = UpdateProperties::new(ops);
    assert_eq!(update.current_state(), UpdateState::New);
    update.set("property3", "value3");
    assert_eq!(update.current_state(), UpdateState::Staged);
    update.remove("property2");
    assert_eq!(update.current_state(), UpdateState::Staged);
    let _ = update.apply().unwrap();
    assert_eq!(update.current_state(), UpdateState::Applied);
    update.set("property4", "value4");
    assert_eq!(update.current_state(), UpdateState::Staged);
    assert_eq!(update.commit(), Ok(()));
    assert_eq!(update.current_state(), UpdateState::Committed);
}

#[test]
fn test_commit_preserves_concurrent_disjoint_change() {
    // Another writer's disjoint change is already persisted when this
    // update's apply refreshes, so untouched keys from both writers coexist
    // in the merged result.
    let mut store = MemoryTableOperations::new(base_metadata());
    let base = store.refresh();
    let other = base.replace_properties({
        let mut p = base.properties.clone();
        p.insert("property4", "value4");
        p
    });
    assert_eq!(store.commit(&base, &other), Ok(()));

    let mut update = UpdateProperties::new(store);
    update.set("property3", "value3");
    let changes = update.apply().unwrap();
    assert_eq!(changes.get("property1"), Some(&"value1".to_string()));
    assert_eq!(changes.get("property2"), Some(&"value2".to_string()));
    assert_eq!(changes.get("property4"), Some(&"value4".to_string()));
    assert_eq!(changes.get("property3"), Some(&"value3".to_string()));
    assert_eq!(update.commit(), Ok(()));
}

#[test]
fn test_stale_base_commit_conflicts_and_preserves_store() {
    let mut ops = MemoryTableOperations::new(base_metadata());
    let stale_base = ops.refresh();

    // Another writer swaps the store to a different value.
    let winner = stale_base.replace_properties({
        let mut p = iceberg::properties::Properties::new();
        p.insert("owner", "other-writer");
        p
    });
    assert_eq!(ops.commit(&stale_base, &winner), Ok(()));

    // A compare-and-swap against the stale base must report a conflict and
    // leave the other writer's value intact.
    let loser = stale_base.replace_properties({
        let mut p = iceberg::properties::Properties::new();
        p.insert("owner", "this-writer");
        p
    });
    assert_eq!(ops.commit(&stale_base, &loser), Err(UpdateError::Conflict));
    let stored = ops.refresh();
    assert_eq!(stored.properties.get("owner"), Some(&"other-writer".to_string()));
    assert_eq!(stored.properties.get("property1"), None);
}

#[test]
fn test_overwrite_stands_for_another_writer() {
    let mut ops = MemoryTableOperations::new(base_metadata());
    let stale_base = ops.refresh();

    let moved = stale_base.replace_properties({
        let mut p = iceberg::properties::Properties::new();
        p.insert("owner", "out-of-band-writer");
        p
    });
    ops.overwrite(moved);

    let seen = ops.current();
    assert_eq!(seen.properties.get("owner"), Some(&"out-of-band-writer".to_string()));

    let attempt = stale_base.replace_properties(iceberg::properties::Properties::new());
    assert_eq!(ops.commit(&stale_base, &attempt), Err(UpdateError::Conflict));
}

#[test]
fn test_commit_with_retries() {
    let ops = MemoryTableOperations::new(base_metadata());
    let mut update = UpdateProperties::new(ops);
    update.set("property3", "value3");
    assert_eq!(update.commit_with_retries(3), Ok(()));
}

#[test]
fn test_pending_update_trait_dispatch() {
    let ops = MemoryTableOperations::new(base_metadata());
    let mut update = UpdateProperties::new(ops);
    update.set("property3", "value3");
    let changes = PendingUpdate::apply(&mut update).unwrap();
    assert_eq!(changes.get("property3"), Some(&"value3".to_string()));
    assert_eq!(PendingUpdate::commit(&mut update), Ok(()));
    assert_eq!(update.current_state(), UpdateState::Committed);
}

#[test]
fn test_table_getters() {
    let ops = MemoryTableOperations::new(base_metadata());
    let table = Table::new(ops);
    assert_eq!(table.location(), "s3://test-location/metadata.json");
    assert_eq!(table.schema().fields.len(), 1);
    assert_eq!(table.partition_spec().fields().len(), 1);
    assert_eq!(table.properties().get("property1"), Some(&"value1".to_string()));
    assert_eq!(table.snapshots().len(), 1);
    let current = table.current_snapshot().unwrap();
    assert_eq!(current.snapshot_id(), 7);
    assert_eq!(current.manifests(), &vec!["m1".to_string()]);
}

#[test]
fn test_table_refresh_and_update_properties() {
    let ops = MemoryTableOperations::new(base_metadata());
    let mut table = Table::new(ops);
    table.refresh();
    let mut update = table.new_update_properties();
    update.set("property3", "value3");
    assert_eq!(update.commit(), Ok(()));
}

#[test]
fn test_metadata_equality() {
    let a = base_metadata();
    let b = base_metadata();
    assert!(a.eq_metadata(&b));
    let c = a.replace_properties({
        let mut p = iceberg::properties::Properties::new();
        p.insert("property1", "value1");
        p.insert("property2", "value2");
        p
    });
    assert!(a.eq_metadata(&c));
    let d = a.replace_properties(iceberg::properties::Properties::new());
    assert!(!a.eq_metadata(&d));
}

#[test]
fn test_declared_invariants_hold_of_base_metadata() {
    let metadata = base_metadata();
    assert!(metadata.schema.ids_unique_check());
    assert!(metadata.column_watermark_ok());
    assert!(metadata.partition_spec.compatible_with(&metadata.schema));
}

fn document_with(schema_fields: &str, last_column_id: &str, partition_spec: &str, snapshots: &str) -> String {
    format!(
        r#"{{
            "format-version": 1,
            "location": "s3://x",
            "last-column-id": {last_column_id},
            "last-updated-ms": 1,
            "current-snapshot-id": 1,
            "schema": {{"fields": [{schema_fields}]}},
            "partition-spec": {partition_spec},
            "properties": {{}},
            "snapshots": {snapshots}
        }}"#
    )
}

#[test]
fn test_duplicate_field_ids_rejected() {
    let json = document_with(
        r#"{"id": 2, "name": "a", "type": "integer", "required": false},
           {"id": 2, "name": "b", "type": "string", "required": false}"#,
        "2",
        "[]",
        "[]",
    );
    let result = from_json(&json);
    assert!(matches!(
        result,
        Err(iceberg::parser::ParserError::InvalidFieldType(ref p)) if p == "schema.fields.id"
    ));
}

#[test]
fn test_stale_column_watermark_rejected() {
    let json = document_with(
        r#"{"id": 2, "name": "a", "type": "integer", "required": false},
           {"id": 3, "name": "b", "type": "string", "required": false}"#,
        "1",
        "[]",
        "[]",
    );
    let result = from_json(&json);
    assert!(matches!(
        result,
        Err(iceberg::parser::ParserError::InvalidFieldType(ref p)) if p == "last-column-id"
    ));
}

#[test]
fn test_dangling_partition_source_rejected() {
    let json = document_with(
        r#"{"id": 1, "name": "a", "type": "integer", "required": false}"#,
        "1",
        r#"[{"source-id": 9, "transform": "identity", "name": "nine"}]"#,
        "[]",
    );
    let result = from_json(&json);
    assert!(matches!(
        result,
        Err(iceberg::parser::ParserError::InvalidFieldType(ref p)) if p == "partition-spec.source-id"
    ));
}

#[test]
fn test_incompatible_partition_transform_rejected() {
    let json = document_with(
        r#"{"id": 1, "name": "a", "type": "string", "required": false}"#,
        "1",
        r#"[{"source-id": 1, "transform": "bucket", "name": "a_bucket"}]"#,
        "[]",
    );
    let result = from_json(&json);
    assert!(matches!(
        result,
        Err(iceberg::parser::ParserError::InvalidFieldType(ref p)) if p == "partition-spec.transform"
    ));
}

#[test]
fn test_duplicate_snapshot_ids_rejected() {
    let json = document_with(
        r#"{"id": 1, "name": "a", "type": "integer", "required": false}"#,
        "1",
        "[]",
        r#"[
            {"snapshot-id": 7, "timestamp-ms": 1, "manifests": []},
            {"snapshot-id": 7, "timestamp-ms": 2, "manifests": []}
        ]"#,
    );
    let result = from_json(&json);
    assert!(matches!(
        result,
        Err(iceberg::parser::ParserError::InvalidFieldType(ref p)) if p == "snapshots.snapshot-id"
    ));
}

#[test]
fn test_update_schema_staging() {
    let mut update = UpdateSchema::new();
    update.add_column("city", "string");
    update.add_child_column("address", "zip", "string");
    update.rename_column("id", "ident");
    update.update_column_type("age", "long");
    update.delete_column("name");
}

#[test]
fn test_rewrite_files_holds_both_lists() {
    let rewrite = iceberg::updates::RewriteFiles::new(
        vec![iceberg::snapshot::DataFile {}],
        vec![iceberg::snapshot::DataFile {}, iceberg::snapshot::DataFile {}],
    );
    assert_eq!(rewrite.files_to_delete.len(), 1);
    assert_eq!(rewrite.files_to_add.len(), 2);
}
