use iceberg::json::{JsonNum, JsonValue};
use iceberg::query::{QueryEngine, QueryError};
use iceberg::records::{string_columns, RecordsError};

#[test]
fn test_execute_query() {
    let engine = QueryEngine::new();
    let result = engine.execute_query("SELECT * FROM dummy");
    assert!(result.is_ok());
    let rows = result.unwrap();
    assert_eq!(rows.ids.len(), 19); // Length of "SELECT * FROM dummy"
    assert_eq!(rows.values.len(), 19);
    assert_eq!(rows.ids[0], 0);
    assert_eq!(rows.ids[18], 18);
    assert!(rows.values.iter().all(|v| v == "value"));
}

#[test]
fn test_empty_query() {
    let engine = QueryEngine::new();
    let result = engine.execute_query("");
    assert!(matches!(result, Err(QueryError::ParseError(_))));
}

fn record(pairs: &[(&str, &str)]) -> JsonValue {
    JsonValue::Obj(
        pairs
            .iter()
            .map(|(k, v)| (k.to_string(), JsonValue::Str(v.to_string())))
            .collect(),
    )
}

#[test]
fn test_string_columns_from_records() {
    let rows = vec![
        record(&[("name", "Alice"), ("age", "30"), ("city", "New York")]),
        record(&[("name", "Bob"), ("age", "25"), ("city", "San Francisco")]),
    ];

    let table = string_columns(&rows).unwrap();

    assert_eq!(table.fields.len(), 3);
    assert_eq!(table.columns.len(), 3);

    let mut field_names: Vec<&String> = table.fields.iter().collect();
    field_names.sort();
    assert_eq!(field_names, [&"age".to_string(), &"city".to_string(), &"name".to_string()]);

    let by_name = |field: &str| -> &Vec<Option<String>> {
        let idx = table.fields.iter().position(|f| f == field).unwrap();
        &table.columns[idx]
    };

    assert_eq!(by_name("age")[0], Some("30".to_string()));
    assert_eq!(by_name("age")[1], Some("25".to_string()));
    assert_eq!(by_name("city")[0], Some("New York".to_string()));
    assert_eq!(by_name("city")[1], Some("San Francisco".to_string()));
    assert_eq!(by_name("name")[0], Some("Alice".to_string()));
    assert_eq!(by_name("name")[1], Some("Bob".to_string()));
}

#[test]
fn test_string_columns_missing_and_non_string_cells() {
    let rows = vec![
        record(&[("name", "Alice"), ("age", "30")]),
        JsonValue::Obj(vec![
            ("name".to_string(), JsonValue::Str("Bob".to_string())),
            ("age".to_string(), JsonValue::Num(JsonNum::UInt(25))),
        ]),
        JsonValue::Obj(vec![("name".to_string(), JsonValue::Str("Carol".to_string()))]),
    ];

    let table = string_columns(&rows).unwrap();
    assert_eq!(table.fields, ["name".to_string(), "age".to_string()]);
    assert_eq!(
        table.columns[0],
        [
            Some("Alice".to_string()),
            Some("Bob".to_string()),
            Some("Carol".to_string())
        ]
    );
    assert_eq!(table.columns[1], [Some("30".to_string()), None, None]);
}

#[test]
fn test_string_columns_errors() {
    let empty: Vec<JsonValue> = Vec::new();
    assert!(matches!(string_columns(&empty), Err(RecordsError::EmptyInput)));

    let not_an_object = vec![JsonValue::Str("just a string".to_string())];
    assert!(matches!(
        string_columns(&not_an_object),
        Err(RecordsError::NotAnObject)
    ));
}
