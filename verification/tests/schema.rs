use json_surf::document::{field_names, record_to_json, FieldValue, FlatValue};
use json_surf::registry::{SurferBuilder, SurferFieldTypes, SurferSchema};
use json_surf::utils::to_schema;

use tantivy::schema::{BytesOptions, NumericOptions, Schema, STORED, TEXT};

fn dummy_sample() -> FlatValue {
    FlatValue::Record(vec![
        ("x".to_string(), FieldValue::Text("X".to_string())),
        ("y".to_string(), FieldValue::Text("Y".to_string())),
        ("z".to_string(), FieldValue::Unsigned(100)),
    ])
}

#[test]
fn validate_field_names() {
    let data = FlatValue::Record(vec![
        ("x".to_string(), FieldValue::Text("A".to_string())),
        ("y".to_string(), FieldValue::Text("B".to_string())),
        ("z".to_string(), FieldValue::Unsigned(100)),
    ]);
    let computed = field_names(&data).unwrap();
    let expected = vec!["x", "y", "z"];
    assert_eq!(expected, computed);
}

#[test]
fn invalid_field_names() {
    let empty = FlatValue::Other;
    let result = field_names(&empty);
    assert!(result.is_none());
}

#[test]
fn validate_error_on_empty_struct() {
    let value = FlatValue::Other;
    let result = to_schema(&value, None);
    assert!(result.is_err());
}

#[test]
fn validate_schema_builder_for_emptish() {
    let data = FlatValue::Record(vec![("value".to_string(), FieldValue::Unsupported)]);
    let result = to_schema(&data, None);
    assert!(result.is_err());
}

#[test]
fn validate_basic_schema() {
    let data = dummy_sample();
    let (computed, _) = to_schema(&data, None).unwrap();

    let mut expected = Schema::builder();
    expected.add_text_field("x", TEXT | STORED);
    expected.add_text_field("y", TEXT | STORED);
    let options = NumericOptions::default();
    let options = options.set_stored();
    let options = options.set_indexed();
    expected.add_u64_field("z", options);
    let expected = expected.build();

    assert_eq!(expected, computed);
}

#[test]
fn validate_full_schema() {
    let data = FlatValue::Record(vec![
        ("a".to_string(), FieldValue::Text("Empire Of The Clouds".to_string())),
        ("b".to_string(), FieldValue::Truth(true)),
        ("c".to_string(), FieldValue::Unsigned(1)),
        ("d".to_string(), FieldValue::Unsigned(1)),
        ("e".to_string(), FieldValue::Unsigned(1)),
        ("f".to_string(), FieldValue::Unsigned(1)),
        ("g".to_string(), FieldValue::Signed(1)),
        ("h".to_string(), FieldValue::Signed(1)),
        ("i".to_string(), FieldValue::Signed(1)),
        ("j".to_string(), FieldValue::Signed(1)),
        ("k".to_string(), FieldValue::Real("1".to_string())),
        ("l".to_string(), FieldValue::Real("1".to_string())),
        (
            "m".to_string(),
            FieldValue::Blob("The book of souls".as_bytes().to_vec()),
        ),
    ]);
    let (computed, mappings) = to_schema(&data, None).unwrap();

    let mut expected = Schema::builder();
    expected.add_text_field("a", TEXT | STORED);
    expected.add_text_field("b", TEXT | STORED);
    let options = NumericOptions::default();
    let options = options.set_stored();
    let options = options.set_indexed();
    expected.add_u64_field("c", options.clone());
    expected.add_u64_field("d", options.clone());
    expected.add_u64_field("e", options.clone());
    expected.add_u64_field("f", options.clone());
    expected.add_i64_field("g", options.clone());
    expected.add_i64_field("h", options.clone());
    expected.add_i64_field("i", options.clone());
    expected.add_i64_field("j", options.clone());
    expected.add_f64_field("k", options.clone());
    expected.add_f64_field("l", options.clone());
    expected.add_bytes_field("m", BytesOptions::default().set_stored());
    let expected = expected.build();

    assert_eq!(expected, computed);
    let expected_mappings = vec![
        ("a".to_string(), SurferFieldTypes::String),
        ("b".to_string(), SurferFieldTypes::String),
        ("c".to_string(), SurferFieldTypes::U64),
        ("d".to_string(), SurferFieldTypes::U64),
        ("e".to_string(), SurferFieldTypes::U64),
        ("f".to_string(), SurferFieldTypes::U64),
        ("g".to_string(), SurferFieldTypes::I64),
        ("h".to_string(), SurferFieldTypes::I64),
        ("i".to_string(), SurferFieldTypes::I64),
        ("j".to_string(), SurferFieldTypes::I64),
        ("k".to_string(), SurferFieldTypes::F64),
        ("l".to_string(), SurferFieldTypes::F64),
        ("m".to_string(), SurferFieldTypes::Bytes),
    ];
    assert_eq!(mappings, expected_mappings);
}

#[test]
fn validate_schema_builder_for_vec_does_not_work() {
    let fields = vec![
        ("identity".to_string(), FieldValue::Text("Hello".to_string())),
        (
            "buffer".to_string(),
            FieldValue::Blob("World".as_bytes().to_vec()),
        ),
    ];
    let data = FlatValue::Record(fields.clone());
    let (schema, _) = to_schema(&data, None).unwrap();
    let json = record_to_json(&fields).unwrap();
    let document = schema.parse_document(&json);
    assert!(document.is_err());
}

#[test]
fn validate_surfer_schema() {
    let data = dummy_sample();

    let (schema, mappings) = to_schema(&data, None).unwrap();
    let surf_schema = SurferSchema::new(schema, mappings, false, false);

    let mut computed1 = SurferBuilder::default();
    computed1.add_schema("dummy".to_string(), surf_schema.clone());

    let mut computed2 = SurferBuilder::default();
    computed2.add_struct("dummy".to_string(), &data).unwrap();

    assert_eq!(computed1, computed2);
    assert_eq!(
        format!("{:?}", computed1.resolve_schemas()[0].1.resolve_mapping()),
        format!("{:?}", computed2.resolve_schemas()[0].1.resolve_mapping())
    );
}

#[test]
fn schema_inference_is_deterministic() {
    let data = dummy_sample();
    let (_, mappings1) = to_schema(&data, None).unwrap();
    let (_, mappings2) = to_schema(&data, None).unwrap();
    assert_eq!(mappings1, mappings2);
}

#[test]
fn record_to_json_exact() {
    let fields = vec![
        ("a".to_string(), FieldValue::Text("x\"y".to_string())),
        ("b".to_string(), FieldValue::Unsigned(7)),
        ("c".to_string(), FieldValue::Signed(-12)),
        ("d".to_string(), FieldValue::Real("2.5".to_string())),
        ("e".to_string(), FieldValue::Truth(false)),
        ("f".to_string(), FieldValue::Blob(vec![1, 2, 3])),
    ];
    let json = record_to_json(&fields).unwrap();
    assert_eq!(
        json,
        "{\"a\":\"x\\\"y\",\"b\":7,\"c\":-12,\"d\":2.5,\"e\":false,\"f\":[1,2,3]}"
    );
}

#[test]
fn record_to_json_rejects_unsupported() {
    let fields = vec![("a".to_string(), FieldValue::Unsupported)];
    assert!(record_to_json(&fields).is_err());
}

#[test]
fn record_to_json_escapes_controls() {
    let fields = vec![(
        "a".to_string(),
        FieldValue::Text("line\nand\ttab\\end".to_string()),
    )];
    let json = record_to_json(&fields).unwrap();
    assert_eq!(json, "{\"a\":\"line\\nand\\ttab\\\\end\"}");
    let parsed: serde_json::Value = serde_json::from_str(&json).unwrap();
    assert_eq!(parsed["a"].as_str(), Some("line\nand\ttab\\end"));
}
