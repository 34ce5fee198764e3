use json_surf::document::{FieldValue, FlatValue};
use json_surf::prelude::{AndCondition, OrCondition, Surf, Surfer, SurferBuilder};

fn user_sample() -> FlatValue {
    FlatValue::Record(vec![
        ("first".to_string(), FieldValue::Text(String::new())),
        ("last".to_string(), FieldValue::Text(String::new())),
        ("age".to_string(), FieldValue::Unsigned(0)),
    ])
}

fn user(first: &str, last: &str, age: u64) -> FlatValue {
    FlatValue::Record(vec![
        ("first".to_string(), FieldValue::Text(first.to_string())),
        ("last".to_string(), FieldValue::Text(last.to_string())),
        ("age".to_string(), FieldValue::Unsigned(age)),
    ])
}

fn store_with_users() -> Surfer {
    let mut builder = SurferBuilder::default();
    builder.set_home(".store");
    builder
        .add_struct("store".to_string(), &user_sample())
        .unwrap();
    let mut surfer = Surfer::open_in_memory(builder).unwrap();
    surfer.insert_struct("store", &user("John", "Doe", 20)).unwrap();
    surfer.insert_struct("store", &user("Jane", "Doe", 18)).unwrap();
    surfer
}

fn firsts(results: &[String]) -> Vec<String> {
    let mut out: Vec<String> = results
        .iter()
        .map(|s| {
            let v: serde_json::Value = serde_json::from_str(s).unwrap();
            v["first"].as_str().unwrap().to_string()
        })
        .collect();
    out.sort();
    out
}

#[test]
fn and_semantics_returns_only_full_matches() {
    let mut surfer = store_with_users();
    let conditions = vec![OrCondition::new(vec![
        AndCondition::new("age".to_string(), "20".to_string()),
        AndCondition::new("last".to_string(), "doe".to_string()),
    ])];
    let result = surfer
        .multiple_structs_by_field("store", &conditions, None, Some(0f32.to_bits()))
        .unwrap()
        .unwrap();
    assert_eq!(firsts(&result), vec!["John".to_string()]);
}

#[test]
fn and_semantics_is_order_independent() {
    let mut surfer = store_with_users();
    let conditions = vec![OrCondition::new(vec![
        AndCondition::new("last".to_string(), "doe".to_string()),
        AndCondition::new("age".to_string(), "20".to_string()),
    ])];
    let result = surfer
        .multiple_structs_by_field("store", &conditions, None, Some(0f32.to_bits()))
        .unwrap()
        .unwrap();
    assert_eq!(firsts(&result), vec!["John".to_string()]);
}

#[test]
fn or_semantics_unites_groups() {
    let mut surfer = store_with_users();
    let conditions = vec![
        OrCondition::new(vec![
            AndCondition::new("age".to_string(), "20".to_string()),
            AndCondition::new("last".to_string(), "doe".to_string()),
        ]),
        OrCondition::new(vec![AndCondition::new(
            "first".to_string(),
            "jane".to_string(),
        )]),
    ];
    let result = surfer
        .multiple_structs_by_field("store", &conditions, None, Some(0f32.to_bits()))
        .unwrap()
        .unwrap();
    assert_eq!(firsts(&result), vec!["Jane".to_string(), "John".to_string()]);
}

#[test]
fn delete_by_field_removes_exactly_matching_documents() {
    let mut surfer = store_with_users();
    surfer.insert_struct("store", &user("Jonny", "Doe", 10)).unwrap();
    surfer.insert_struct("store", &user("Jinny", "Doe", 10)).unwrap();

    let before = surfer
        .read_all_structs("store", "doe")
        .unwrap()
        .unwrap();
    assert_eq!(before.len(), 4);

    surfer.delete_structs_by_field("store", "age", "10").unwrap();

    let ten = surfer
        .read_all_structs_by_field("store", "age", "10")
        .unwrap()
        .unwrap();
    assert!(ten.is_empty());

    let after = surfer.read_all_structs("store", "doe").unwrap().unwrap();
    assert_eq!(
        firsts(&after),
        vec!["Jane".to_string(), "John".to_string()]
    );
}

#[test]
fn delete_by_text_removes_matches_in_any_text_field() {
    let mut surfer = store_with_users();
    surfer.delete_structs("store", "john").unwrap();
    let after = surfer.read_all_structs("store", "doe").unwrap().unwrap();
    assert_eq!(firsts(&after), vec!["Jane".to_string()]);
}

#[test]
fn round_trip_giant_record() {
    let giant = FlatValue::Record(vec![
        ("a".to_string(), FieldValue::Text("tag1".to_string())),
        ("c".to_string(), FieldValue::Unsigned(10000)),
        ("d".to_string(), FieldValue::Unsigned(1000)),
        ("e".to_string(), FieldValue::Unsigned(100)),
        ("f".to_string(), FieldValue::Unsigned(10)),
        ("g".to_string(), FieldValue::Signed(20000)),
        ("h".to_string(), FieldValue::Signed(2000)),
        ("i".to_string(), FieldValue::Signed(200)),
        ("j".to_string(), FieldValue::Signed(20)),
        ("k".to_string(), FieldValue::Real("10".to_string())),
        ("l".to_string(), FieldValue::Real("1".to_string())),
    ]);
    let mut builder = SurferBuilder::default();
    builder.set_home(".giant");
    builder.add_struct("giant".to_string(), &giant).unwrap();
    let mut surfer = Surfer::open_in_memory(builder).unwrap();
    surfer.insert_structs("giant", &vec![giant]).unwrap();

    let conditions = vec![OrCondition::new(vec![
        AndCondition::new("a".to_string(), "tag1".to_string()),
        AndCondition::new("c".to_string(), "10000".to_string()),
        AndCondition::new("d".to_string(), "1000".to_string()),
        AndCondition::new("e".to_string(), "100".to_string()),
        AndCondition::new("g".to_string(), "20000".to_string()),
        AndCondition::new("f".to_string(), "10".to_string()),
        AndCondition::new("h".to_string(), "2000".to_string()),
        AndCondition::new("i".to_string(), "200".to_string()),
        AndCondition::new("j".to_string(), "20".to_string()),
        AndCondition::new("k".to_string(), "10".to_string()),
        AndCondition::new("l".to_string(), "1".to_string()),
    ])];
    let result = surfer
        .multiple_structs_by_field("giant", &conditions, None, Some(0f32.to_bits()))
        .unwrap()
        .unwrap();
    assert_eq!(result.len(), 1);
    let v: serde_json::Value = serde_json::from_str(&result[0]).unwrap();
    assert_eq!(v["a"].as_str(), Some("tag1"));
    assert_eq!(v["c"].as_u64(), Some(10000));
    assert_eq!(v["d"].as_u64(), Some(1000));
    assert_eq!(v["e"].as_u64(), Some(100));
    assert_eq!(v["f"].as_u64(), Some(10));
    assert_eq!(v["g"].as_i64(), Some(20000));
    assert_eq!(v["h"].as_i64(), Some(2000));
    assert_eq!(v["i"].as_i64(), Some(200));
    assert_eq!(v["j"].as_i64(), Some(20));
    assert_eq!(v["k"].as_f64(), Some(10.0));
    assert_eq!(v["l"].as_f64(), Some(1.0));

    let unscored = surfer
        .multiple_structs_by_field("giant", &conditions, None, None)
        .unwrap()
        .unwrap();
    assert_eq!(unscored.len(), 1);

    assert!(surfer.delete_structs_by_field("giant", "c", "crap").is_err());
    assert!(surfer.delete_structs_by_field("giant", "g", "crap").is_err());
    assert!(surfer.delete_structs_by_field("giant", "k", "crap").is_err());
    assert!(surfer.delete_structs_by_field("giant", "crap", "crap").is_err());
    assert!(surfer.delete_structs_by_field("crap", "crap", "crap").is_err());
}

#[test]
fn bytes_field_rejects_search() {
    let sample = FlatValue::Record(vec![
        ("identity".to_string(), FieldValue::Text(String::new())),
        ("payload".to_string(), FieldValue::Blob(vec![1, 2, 3])),
    ]);
    let mut builder = SurferBuilder::default();
    builder.set_home(".bytes");
    builder.add_struct("blobs".to_string(), &sample).unwrap();
    let mut surfer = Surfer::open_in_memory(builder).unwrap();

    let conditions = vec![OrCondition::new(vec![AndCondition::new(
        "payload".to_string(),
        "abc".to_string(),
    )])];
    assert!(surfer
        .multiple_structs_by_field("blobs", &conditions, None, Some(0f32.to_bits()))
        .is_err());
    assert!(surfer
        .read_structs_by_field("blobs", "payload", "abc", None, None)
        .is_err());
    assert!(surfer.delete_structs_by_field("blobs", "payload", "abc").is_err());
}

#[test]
fn limit_defaults_to_ten_and_explicit_limit_returns_everything() {
    let sample = FlatValue::Record(vec![(
        "body".to_string(),
        FieldValue::Text(String::new()),
    )]);
    let mut builder = SurferBuilder::default();
    builder.set_home(".limits");
    builder.add_struct("texts".to_string(), &sample).unwrap();
    let mut surfer = Surfer::open_in_memory(builder).unwrap();

    let mut batch: Vec<FlatValue> = Vec::new();
    for _ in 0..52 {
        batch.push(FlatValue::Record(vec![(
            "body".to_string(),
            FieldValue::Text("sea whale".to_string()),
        )]));
    }
    surfer.insert_structs("texts", &batch).unwrap();

    let capped = surfer
        .read_structs("texts", "whale", None, None)
        .unwrap()
        .unwrap();
    assert_eq!(capped.len(), 10);

    let all = surfer
        .read_structs("texts", "whale", Some(100), None)
        .unwrap()
        .unwrap();
    assert_eq!(all.len(), 52);
}

#[test]
fn noop_insert_into_unknown_collection() {
    let mut surfer = store_with_users();
    assert!(surfer.insert_struct("missing", &user("Jack", "Doe", 30)).is_ok());
    assert!(surfer
        .insert_structs("missing", &vec![user("Jack", "Doe", 30)])
        .is_ok());
    let read = surfer.read_structs("missing", "jack", None, None).unwrap();
    assert!(read.is_none());
    assert!(surfer.read_all_structs_by_field("missing", "age", "30").is_err());
    assert!(surfer.which_index("missing").is_none());
}

#[test]
fn surf_select_applies_where_clauses() {
    let surfer = store_with_users();
    let mut surf = Surf::new(surfer);
    surf.as_surfer()
        .insert_struct("store", &user("Jonny", "Doe", 10))
        .unwrap();
    surf.as_surfer()
        .insert_struct("store", &user("Jinny", "Doe", 10))
        .unwrap();

    let conditions = vec![OrCondition::from_pair("age".to_string(), "10".to_string())];
    let computed = surf.select("store", &conditions).unwrap().unwrap();
    assert_eq!(
        firsts(&computed),
        vec!["Jinny".to_string(), "Jonny".to_string()]
    );

    let conditions = vec![
        OrCondition::from_pair("age".to_string(), "10".to_string()),
        OrCondition::from_pair("first".to_string(), "john".to_string()),
    ];
    let computed = surf.select("store", &conditions).unwrap().unwrap();
    assert_eq!(
        firsts(&computed),
        vec!["Jinny".to_string(), "John".to_string(), "Jonny".to_string()]
    );

    let name_condition = AndCondition::new("first".to_string(), "jinny".to_string());
    let age_condition = AndCondition::new("age".to_string(), "10".to_string());
    let child_condition = OrCondition::new(vec![name_condition, age_condition]);
    let parent_condition = OrCondition::from_pair("first".to_string(), "john".to_string());
    let conditions = vec![child_condition, parent_condition];
    let computed = surf.select("store", &conditions).unwrap().unwrap();
    assert_eq!(
        firsts(&computed),
        vec!["Jinny".to_string(), "John".to_string()]
    );
}

#[test]
fn unknown_field_and_bad_number_are_fatal() {
    let mut surfer = store_with_users();
    assert!(surfer
        .read_structs_by_field("store", "nosuch", "1", None, None)
        .is_err());
    assert!(surfer
        .read_structs_by_field("store", "age", "notanumber", None, None)
        .is_err());
    assert!(surfer
        .read_structs_by_field("missing", "age", "10", None, None)
        .is_err());
}

#[test]
fn which_index_joins_under_home() {
    let surfer = store_with_users();
    assert_eq!(surfer.home().as_str(), ".store");
    assert_eq!(
        surfer.which_index("store"),
        Some(".store/store".to_string())
    );
    assert!(surfer.which_index("crap").is_none());
    assert!(surfer.resolve_schema("store").is_some());
    assert!(surfer.resolve_schema("crap").is_none());
    assert!(surfer.resolve_index("store").is_some());
}

#[test]
fn read_after_write_sees_the_commit() {
    let mut surfer = store_with_users();
    let first = surfer.read_all_structs("store", "doe").unwrap().unwrap();
    assert_eq!(first.len(), 2);
    surfer.insert_struct("store", &user("Jonny", "Doe", 10)).unwrap();
    let second = surfer.read_all_structs("store", "doe").unwrap().unwrap();
    assert_eq!(second.len(), 3);
}

#[test]
fn missing_storage_directory_skips_the_collection() {
    let mut builder = SurferBuilder::default();
    builder.set_home(".no_such_directory_for_indexes");
    builder
        .add_struct("store".to_string(), &user_sample())
        .unwrap();
    let mut surfer = Surfer::try_from_builder(builder).unwrap();
    assert!(surfer.which_index("store").is_none());
    assert!(surfer.insert_struct("store", &user("John", "Doe", 20)).is_ok());
    assert!(surfer.read_structs("store", "john", None, None).unwrap().is_none());
}

#[test]
fn builder_accessors_report_registrations() {
    let mut builder = SurferBuilder::default();
    assert!(builder.resolve_home().is_none());
    assert!(builder.resolve_schemas().is_empty());
    builder.set_home(".somewhere");
    builder
        .add_struct("store".to_string(), &user_sample())
        .unwrap();
    assert_eq!(builder.resolve_home().as_deref(), Some(".somewhere"));
    assert_eq!(builder.resolve_schemas().len(), 1);
    assert_eq!(builder.resolve_schemas()[0].0.as_str(), "store");
    let mapping = builder.resolve_schemas()[0].1.resolve_mapping();
    assert_eq!(mapping.len(), 3);
}

#[test]
fn insert_rejects_unknown_field() {
    let mut surfer = store_with_users();
    let stray = FlatValue::Record(vec![
        ("first".to_string(), FieldValue::Text("Jack".to_string())),
        ("nickname".to_string(), FieldValue::Text("J".to_string())),
    ]);
    assert!(surfer.insert_struct("store", &stray).is_err());
    assert!(surfer.insert_structs("store", &vec![stray]).is_err());
    let read = surfer
        .read_all_structs_by_field("store", "first", "jack")
        .unwrap()
        .unwrap();
    assert!(read.is_empty());
}
