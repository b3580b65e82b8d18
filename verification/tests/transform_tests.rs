use iceberg::transform::{
    get_transform, Bucket, Scalar, Transform, TransformError, TransformFactory,
    DEFAULT_TRANSFORM_WIDTH,
};
use iceberg::types::FieldType;

#[test]
fn test_get_transform_known_names() {
    assert!(matches!(get_transform("identity"), Some(Transform::Identity)));
    assert!(matches!(
        get_transform("bucket"),
        Some(Transform::Bucket(Bucket { width: DEFAULT_TRANSFORM_WIDTH }))
    ));
    assert!(matches!(
        get_transform("truncate"),
        Some(Transform::Truncate { width: DEFAULT_TRANSFORM_WIDTH })
    ));
    assert!(matches!(get_transform("year"), Some(Transform::Year)));
    assert!(matches!(get_transform("month"), Some(Transform::Month)));
    assert!(matches!(get_transform("day"), Some(Transform::Day)));
    assert!(matches!(get_transform("hour"), Some(Transform::Hour)));
}

#[test]
fn test_get_transform_unknown_names() {
    assert!(get_transform("unknown_xyz").is_none());
    assert!(get_transform("Bucket").is_none());
    assert!(get_transform("bucket[16]").is_none());
    assert!(get_transform("").is_none());
    assert!(matches!(
        TransformFactory::resolve("identity"),
        Some(Transform::Identity)
    ));
    assert!(TransformFactory::resolve("unknown_xyz").is_none());
}

#[test]
fn test_bucket_apply_is_modulo_with_unsigned_result() {
    let bucket = Transform::Bucket(Bucket::new(5));
    assert_eq!(bucket.apply(Scalar::Int(7)), Ok(Scalar::Int(2)));
    assert_eq!(bucket.apply(Scalar::Int(10)), Ok(Scalar::Int(0)));
    assert_eq!(bucket.apply(Scalar::Int(0)), Ok(Scalar::Int(0)));
    assert_eq!(bucket.apply(Scalar::Int(-3)), Ok(Scalar::Int(2)));
    assert_eq!(bucket.apply(Scalar::Int(-10)), Ok(Scalar::Int(0)));
    assert_eq!(bucket.apply(Scalar::Int(i64::MIN)), Ok(Scalar::Int(2)));
}

#[test]
fn test_bucket_apply_type_mismatch() {
    let bucket = Transform::Bucket(Bucket::new(5));
    assert_eq!(
        bucket.apply(Scalar::Str("seven".to_string())),
        Err(TransformError::TypeMismatch)
    );
    assert_eq!(
        bucket.apply(Scalar::Bool(true)),
        Err(TransformError::TypeMismatch)
    );
}

#[test]
fn test_identity_apply() {
    assert_eq!(
        Transform::Identity.apply(Scalar::Str("x".to_string())),
        Ok(Scalar::Str("x".to_string()))
    );
    assert_eq!(Transform::Identity.apply(Scalar::Int(-9)), Ok(Scalar::Int(-9)));
}

#[test]
fn test_extension_points_unsupported() {
    assert_eq!(
        Transform::Year.apply(Scalar::Int(1)),
        Err(TransformError::Unsupported)
    );
    assert_eq!(
        (Transform::Truncate { width: 4 }).apply(Scalar::Str("abcdef".to_string())),
        Err(TransformError::Unsupported)
    );
}

#[test]
fn test_can_transform() {
    let bucket = Transform::Bucket(Bucket::new(5));
    assert!(bucket.can_transform(FieldType::Integer));
    assert!(bucket.can_transform(FieldType::Long));
    assert!(!bucket.can_transform(FieldType::String));
    assert!(Transform::Identity.can_transform(FieldType::Uuid));
    assert!(Transform::Year.can_transform(FieldType::Date));
    assert!(Transform::Hour.can_transform(FieldType::Timestamp));
    assert!(!Transform::Hour.can_transform(FieldType::Date));
}

#[test]
fn test_result_type() {
    let bucket = Transform::Bucket(Bucket::new(5));
    assert_eq!(bucket.get_result_type(FieldType::Integer), FieldType::Integer);
    assert_eq!(
        Transform::Identity.get_result_type(FieldType::String),
        FieldType::String
    );
    assert_eq!(Transform::Year.get_result_type(FieldType::Date), FieldType::Integer);
}

#[test]
fn test_field_type_from_name() {
    assert_eq!(FieldType::from_name("integer"), Some(FieldType::Integer));
    assert_eq!(FieldType::from_name("string"), Some(FieldType::String));
    assert_eq!(FieldType::from_name("map"), Some(FieldType::Mapping));
    assert_eq!(FieldType::from_name("Integer"), None);
    assert_eq!(FieldType::from_name("int"), None);
}

#[test]
fn test_partition_spec_compatibility() {
    let metadata = iceberg::parser::metadata::from_json(
        r#"{
            "format-version": 1,
            "location": "s3://somewhere",
            "last-column-id": 3,
            "last-updated-ms": 1,
            "current-snapshot-id": 1,
            "schema": {
                "fields": [
                    {"id": 1, "name": "id", "type": "integer", "required": false},
                    {"id": 2, "name": "name", "type": "string", "required": true}
                ]
            },
            "partition-spec": [
                {"source-id": 1, "transform": "bucket", "name": "id_bucket"}
            ],
            "properties": {}
        }"#,
    )
    .unwrap();
    assert!(metadata.partition_spec.compatible_with(&metadata.schema));

    let incompatible = iceberg::parser::partition_spec::from_json(
        r#"[{"source-id": 2, "transform": "bucket", "name": "name_bucket"}]"#,
    )
    .unwrap();
    assert!(!incompatible.compatible_with(&metadata.schema));

    let dangling = iceberg::parser::partition_spec::from_json(
        r#"[{"source-id": 9, "transform": "identity", "name": "nine"}]"#,
    )
    .unwrap();
    assert!(!dangling.compatible_with(&metadata.schema));
}
