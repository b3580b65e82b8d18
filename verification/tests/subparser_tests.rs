use iceberg::parser::ParserError;

#[test]
fn test_schema_from_json() {
    let schema = iceberg::parser::schema::from_json(
        r#"{"fields": [
            {"id": 1, "name": "id", "type": "integer", "required": false},
            {"id": 2, "name": "name", "type": "string", "required": true}
        ]}"#,
    )
    .unwrap();
    assert_eq!(schema.fields.len(), 2);
    assert_eq!(schema.fields[1].name, "name");
    assert!(schema.fields[1].required);
}

#[test]
fn test_schema_from_json_missing_fields_key() {
    let result = iceberg::parser::schema::from_json(r#"{"columns": []}"#);
    assert!(
        matches!(result, Err(ParserError::MissingRequiredField(ref p)) if p == "schema.fields")
    );
}

#[test]
fn test_schema_from_json_required_not_bool() {
    let result = iceberg::parser::schema::from_json(
        r#"{"fields": [{"id": 1, "name": "id", "type": "integer", "required": "yes"}]}"#,
    );
    assert!(
        matches!(result, Err(ParserError::MissingRequiredField(ref p)) if p == "schema.fields.required")
    );
}

#[test]
fn test_schema_from_json_duplicate_ids() {
    let result = iceberg::parser::schema::from_json(
        r#"{"fields": [
            {"id": 1, "name": "id", "type": "integer", "required": false},
            {"id": 1, "name": "name", "type": "string", "required": true}
        ]}"#,
    );
    assert!(
        matches!(result, Err(ParserError::InvalidFieldType(ref p)) if p == "schema.fields.id")
    );
}

#[test]
fn test_partition_spec_from_json() {
    let spec = iceberg::parser::partition_spec::from_json(
        r#"[
            {"source-id": 1, "transform": "bucket", "name": "id_bucket"},
            {"source-id": 2, "transform": "identity", "name": "name_raw"}
        ]"#,
    )
    .unwrap();
    let fields = spec.fields();
    assert_eq!(fields.len(), 2);
    assert_eq!(fields[0].name, "id_bucket");
    assert!(matches!(fields[1].transform, iceberg::transform::Transform::Identity));
}

#[test]
fn test_partition_spec_from_json_not_an_array() {
    let result = iceberg::parser::partition_spec::from_json(r#"{"source-id": 1}"#);
    assert!(matches!(result, Err(ParserError::InvalidFieldType(ref p)) if p == "partition-spec"));
}

#[test]
fn test_partition_spec_from_json_unknown_transform() {
    let result = iceberg::parser::partition_spec::from_json(
        r#"[{"source-id": 1, "transform": "unknown_xyz", "name": "x"}]"#,
    );
    assert!(
        matches!(result, Err(ParserError::InvalidPartitionTransform(ref n)) if n == "unknown_xyz")
    );
}

#[test]
fn test_snapshot_from_json() {
    let snapshot = iceberg::parser::snapshot::from_json(
        r#"{"snapshot-id": 42, "timestamp-ms": 1723320520000, "manifests": ["a", "b", "c"]}"#,
    )
    .unwrap();
    assert_eq!(snapshot.snapshot_id(), 42);
    assert_eq!(snapshot.timestamp_ms(), 1723320520000);
    assert_eq!(
        snapshot.manifests(),
        &vec!["a".to_string(), "b".to_string(), "c".to_string()]
    );
}

#[test]
fn test_snapshot_from_json_not_an_object() {
    let result = iceberg::parser::snapshot::from_json(r#"[1, 2, 3]"#);
    assert!(matches!(result, Err(ParserError::InvalidFieldType(ref p)) if p == "snapshot"));
}

#[test]
fn test_snapshot_from_json_missing_manifests() {
    let result =
        iceberg::parser::snapshot::from_json(r#"{"snapshot-id": 42, "timestamp-ms": 1}"#);
    assert!(matches!(result, Err(ParserError::MissingRequiredField(ref p)) if p == "manifests"));
}

#[test]
fn test_snapshot_from_json_invalid_json() {
    let result = iceberg::parser::snapshot::from_json(r#"{"snapshot-id""#);
    assert!(matches!(result, Err(ParserError::InvalidJson(_))));
}

#[test]
fn test_properties_map_operations() {
    let mut props = iceberg::properties::Properties::new();
    assert_eq!(props.len(), 0);
    props.insert("a", "1");
    props.insert("b", "2");
    props.insert("a", "3");
    assert_eq!(props.len(), 2);
    assert_eq!(props.get("a"), Some(&"3".to_string()));
    assert_eq!(props.get("b"), Some(&"2".to_string()));
    assert!(!props.contains_key("c"));

    let clone = props.clone();
    assert!(clone.eq_props(&props));

    let (first_key, first_value) = props.entry_at(0);
    assert_eq!(first_key, "a");
    assert_eq!(first_value, "3");
    let (second_key, second_value) = props.entry_at(1);
    assert_eq!(second_key, "b");
    assert_eq!(second_value, "2");

    let mut other = iceberg::properties::Properties::new();
    other.insert("b", "2");
    other.insert("a", "3");
    assert!(props.eq_props(&other));
    other.insert("a", "4");
    assert!(!props.eq_props(&other));
}

#[test]
fn test_properties_merge() {
    let mut base = iceberg::properties::Properties::new();
    base.insert("keep", "old");
    base.insert("drop", "old");
    base.insert("replace", "old");

    let mut updates = iceberg::properties::Properties::new();
    updates.insert("replace", "new");
    updates.insert("fresh", "new");

    let removals = vec!["drop".to_string()];
    let merged = base.merged_with(&updates, &removals);
    assert_eq!(merged.len(), 3);
    assert_eq!(merged.get("keep"), Some(&"old".to_string()));
    assert_eq!(merged.get("replace"), Some(&"new".to_string()));
    assert_eq!(merged.get("fresh"), Some(&"new".to_string()));
    assert_eq!(merged.get("drop"), None);
}
