use iceberg::json::{JsonNum, JsonValue};
use iceberg::parser::metadata::from_json;
use iceberg::parser::ParserError;
use iceberg::schema::NestedField;

fn full_document() -> &'static str {
    r#"{
            "format-version": 1,
            "location": "s3://test-location/metadata.json",
            "last-column-id": 100,
            "last-updated-ms": 1723320520000,
            "current-snapshot-id": 1,
            "schema": {
                "fields": [
                    {"id": 1, "name": "id", "type": "integer", "required": false},
                    {"id": 2, "name": "name", "type": "string", "required": true},
                    {"id": 3, "name": "age", "type": "integer", "required": true}
                ]
            },
            "partition-spec": [
                {
                    "source-id": 1,
                    "transform": "bucket",
                    "name": "id_bucket"
                }
            ],
            "properties": {
                "property1": "value1",
                "property2": "value2"
            }
        }"#
}

#[test]
fn test_from_json() {
    let result = from_json(full_document());
    assert!(result.is_ok(), "Result is not Ok, Error - {:?}", result);

    let metadata = result.unwrap();
    assert_eq!(metadata.location, "s3://test-location/metadata.json");
    assert_eq!(metadata.last_column_id, 100);
    assert_eq!(metadata.current_snapshot_id, 1);
    assert_eq!(metadata.last_updated_millis, 1723320520000);

    assert_eq!(metadata.schema.fields.len(), 3);

    assert_eq!(
        metadata.schema.fields[0],
        NestedField {
            id: 1,
            name: "id".to_string(),
            field_type: "integer".to_string(),
            required: false
        }
    );
    assert_eq!(
        metadata.schema.fields[1],
        NestedField {
            id: 2,
            name: "name".to_string(),
            field_type: "string".to_string(),
            required: true
        }
    );
    assert_eq!(
        metadata.schema.fields[2],
        NestedField {
            id: 3,
            name: "age".to_string(),
            field_type: "integer".to_string(),
            required: true
        }
    );
}

#[test]
fn test_from_json_value_on_a_built_tree() {
    let doc = JsonValue::Obj(vec![
        (
            "format-version".to_string(),
            JsonValue::Num(JsonNum::UInt(1)),
        ),
        ("location".to_string(), JsonValue::Str("s3://x".to_string())),
        ("last-column-id".to_string(), JsonValue::Num(JsonNum::UInt(9))),
        (
            "last-updated-ms".to_string(),
            JsonValue::Num(JsonNum::UInt(5)),
        ),
        (
            "current-snapshot-id".to_string(),
            JsonValue::Num(JsonNum::UInt(0)),
        ),
        (
            "schema".to_string(),
            JsonValue::Obj(vec![("fields".to_string(), JsonValue::Arr(vec![]))]),
        ),
        ("partition-spec".to_string(), JsonValue::Arr(vec![])),
        ("properties".to_string(), JsonValue::Obj(vec![])),
    ]);

    let metadata = iceberg::parser::metadata::from_json_value(&doc).unwrap();
    assert_eq!(metadata.location, "s3://x");
    assert_eq!(metadata.last_column_id, 9);
    assert_eq!(metadata.last_updated_millis, 5);
    assert_eq!(metadata.current_snapshot_id, 0);
    assert_eq!(metadata.schema.fields.len(), 0);
    assert_eq!(metadata.partition_spec.fields().len(), 0);
    assert_eq!(metadata.properties.len(), 0);
}

#[test]
fn test_from_json_invalid_json() {
    let json = r#"{
            "format-version": 1
        "#;

    let result = from_json(json);
    assert!(result.is_err());
    assert!(matches!(result, Err(ParserError::InvalidJson(_))));
}

#[test]
fn test_from_json_missing_format_version() {
    let json = r#"{
            "location": "s3://test-location/metadata.json",
            "last-column-id": 100,
            "last-updated-ms": 1723320520000,
            "current-snapshot-id": 1
        }"#;

    let result = from_json(json);
    assert!(result.is_err());

    if let Err(ParserError::MissingRequiredField(field)) = result {
        assert_eq!(field, "format-version");
    }
}

#[test]
fn test_from_json_unsupported_format_version() {
    let json = r#"{
            "format-version": 2,
            "location": "s3://test-location/metadata.json",
            "last-column-id": 100,
            "last-updated-ms": 1723320520000,
            "current-snapshot-id": 1
        }"#;

    let result = from_json(json);
    assert!(result.is_err());
    assert!(matches!(
        result,
        Err(ParserError::UnsupportedFormatVersion(2))
    ));
}

#[test]
fn parser_test_from_json_invalid_json() {
    let json = r#"{
            "format-version": 1
        "#;

    let result = from_json(json);
    assert!(result.is_err());
    assert!(matches!(result, Err(ParserError::InvalidJson(_))));
}

#[test]
fn parser_test_from_json_missing_format_version() {
    let json = r#"{
            "foo": "bar"
        }"#;

    let result = from_json(json);
    assert!(result.is_err());
    assert!(
        matches!(result, Err(ParserError::MissingRequiredField(ref f)) if f == "format-version")
    );
}

#[test]
fn parser_test_from_json_unsupported_format_version() {
    let json = r#"{
            "format-version": 2
        }"#;

    let result = from_json(json);
    assert!(result.is_err());
    assert!(matches!(
        result,
        Err(ParserError::UnsupportedFormatVersion(2))
    ));
}

#[test]
fn test_full_document_partition_spec_and_properties() {
    let metadata = from_json(full_document()).unwrap();

    let fields = metadata.partition_spec.fields();
    assert_eq!(fields.len(), 1);
    assert_eq!(fields[0].source_id, 1);
    assert_eq!(fields[0].name, "id_bucket");
    assert!(matches!(
        fields[0].transform,
        iceberg::transform::Transform::Bucket(_)
    ));

    assert_eq!(metadata.properties.len(), 2);
    assert_eq!(
        metadata.properties.get("property1"),
        Some(&"value1".to_string())
    );
    assert_eq!(
        metadata.properties.get("property2"),
        Some(&"value2".to_string())
    );

    assert_eq!(metadata.snapshots.len(), 0);
}

#[test]
fn test_unknown_partition_transform() {
    let json = full_document().replace("\"bucket\"", "\"unknown_xyz\"");
    let result = from_json(&json);
    assert!(
        matches!(result, Err(ParserError::InvalidPartitionTransform(ref n)) if n == "unknown_xyz")
    );
}

#[test]
fn test_non_string_property_value() {
    let json = full_document().replace("\"value2\"", "17");
    let result = from_json(&json);
    assert!(matches!(result, Err(ParserError::InvalidFieldType(ref k)) if k == "property2"));
}

#[test]
fn test_negative_number_rejected() {
    let json = full_document().replace("\"last-column-id\": 100", "\"last-column-id\": -100");
    let result = from_json(&json);
    assert!(matches!(result, Err(ParserError::InvalidFieldType(ref p)) if p == "last-column-id"));
}

#[test]
fn test_fractional_number_rejected() {
    let json = full_document().replace("\"last-column-id\": 100", "\"last-column-id\": 100.5");
    let result = from_json(&json);
    assert!(matches!(result, Err(ParserError::InvalidFieldType(ref p)) if p == "last-column-id"));
}

#[test]
fn test_u32_overflow_rejected() {
    let json = full_document().replace(
        "\"last-column-id\": 100",
        "\"last-column-id\": 4294967296",
    );
    let result = from_json(&json);
    assert!(matches!(result, Err(ParserError::InvalidFieldType(ref p)) if p == "last-column-id"));
}

#[test]
fn test_u64_overflow_rejected() {
    let json = full_document().replace(
        "\"last-updated-ms\": 1723320520000",
        "\"last-updated-ms\": 36893488147419103232",
    );
    let result = from_json(&json);
    assert!(matches!(result, Err(ParserError::InvalidFieldType(ref p)) if p == "last-updated-ms"));
}

#[test]
fn test_missing_location() {
    let json = r#"{
            "format-version": 1,
            "last-column-id": 100,
            "last-updated-ms": 1723320520000,
            "current-snapshot-id": 1
        }"#;
    let result = from_json(json);
    assert!(matches!(result, Err(ParserError::MissingRequiredField(ref p)) if p == "location"));
}

#[test]
fn test_missing_schema() {
    let json = r#"{
            "format-version": 1,
            "location": "s3://somewhere",
            "last-column-id": 100,
            "last-updated-ms": 1723320520000,
            "current-snapshot-id": 1
        }"#;
    let result = from_json(json);
    assert!(matches!(result, Err(ParserError::MissingRequiredField(ref p)) if p == "schema"));
}

#[test]
fn test_schema_field_error_paths() {
    let missing_name = full_document().replace("\"name\": \"id\", ", "");
    let result = from_json(&missing_name);
    assert!(
        matches!(result, Err(ParserError::MissingRequiredField(ref p)) if p == "schema.fields.name")
    );

    let bad_id = full_document().replace("{\"id\": 1,", "{\"id\": true,");
    let result = from_json(&bad_id);
    assert!(
        matches!(result, Err(ParserError::MissingRequiredField(ref p)) if p == "schema.fields.id")
    );

    let bad_fields = full_document().replace(
        "\"fields\": [\n                    {\"id\": 1, \"name\": \"id\", \"type\": \"integer\", \"required\": false},\n                    {\"id\": 2, \"name\": \"name\", \"type\": \"string\", \"required\": true},\n                    {\"id\": 3, \"name\": \"age\", \"type\": \"integer\", \"required\": true}\n                ]",
        "\"fields\": 5",
    );
    let result = from_json(&bad_fields);
    assert!(matches!(result, Err(ParserError::InvalidFieldType(ref p)) if p == "schema.fields"));
}

#[test]
fn test_partition_spec_error_paths() {
    let not_an_array = full_document().replace(
        "\"partition-spec\": [",
        "\"partition-spec\": {},
            \"unused\": [",
    );
    let result = from_json(&not_an_array);
    assert!(matches!(result, Err(ParserError::InvalidFieldType(ref p)) if p == "partition-spec"));

    let missing_source = full_document().replace("\"source-id\": 1,", "");
    let result = from_json(&missing_source);
    assert!(
        matches!(result, Err(ParserError::MissingRequiredField(ref p)) if p == "partition-spec.source-id")
    );
}

#[test]
fn test_snapshots_parsed() {
    let json = full_document().replace(
        "\"properties\": {",
        r#""snapshots": [
                {"snapshot-id": 10, "timestamp-ms": 1723320520001, "manifests": ["m1", "m2"]},
                {"snapshot-id": 11, "timestamp-ms": 1723320520002, "manifests": []}
            ],
            "properties": {"#,
    );
    let metadata = from_json(&json).unwrap();
    assert_eq!(metadata.snapshots.len(), 2);
    assert_eq!(metadata.snapshots[0].snapshot_id(), 10);
    assert_eq!(metadata.snapshots[0].timestamp_ms(), 1723320520001);
    assert_eq!(metadata.snapshots[0].manifests(), &vec!["m1".to_string(), "m2".to_string()]);
    assert_eq!(metadata.snapshots[1].snapshot_id(), 11);
    assert_eq!(metadata.snapshots[1].manifests().len(), 0);
}

#[test]
fn test_snapshots_bad_manifest_element() {
    let json = full_document().replace(
        "\"properties\": {",
        r#""snapshots": [
                {"snapshot-id": 10, "timestamp-ms": 1, "manifests": ["m1", 3]}
            ],
            "properties": {"#,
    );
    let result = from_json(&json);
    assert!(matches!(result, Err(ParserError::InvalidFieldType(ref p)) if p == "manifests"));
}
