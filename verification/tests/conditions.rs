use json_surf::prelude::{AndCondition, OrCondition};

#[test]
fn and_condition_accessors() {
    let mut condition = AndCondition::new("age".to_string(), "20".to_string());
    assert_eq!(condition.resolve_field_name().as_str(), "age");
    assert_eq!(condition.resolve_field_value().as_str(), "20");
    condition.update_field_value("21".to_string());
    assert_eq!(condition.resolve_field_name().as_str(), "age");
    assert_eq!(condition.resolve_field_value().as_str(), "21");
}

#[test]
fn or_condition_accessors() {
    let inner = vec![
        AndCondition::new("age".to_string(), "20".to_string()),
        AndCondition::new("last".to_string(), "doe".to_string()),
    ];
    let mut group = OrCondition::new(inner.clone());
    assert_eq!(group.resolve_conditions(), &inner);
    group
        .resolve_conditions_for_edit()
        .push(AndCondition::new("first".to_string(), "john".to_string()));
    assert_eq!(group.resolve_conditions().len(), 3);
}

#[test]
fn or_condition_from_pair_is_single() {
    let group = OrCondition::from_pair("age".to_string(), "10".to_string());
    assert_eq!(group.resolve_conditions().len(), 1);
    assert_eq!(
        group.resolve_conditions()[0],
        AndCondition::new("age".to_string(), "10".to_string())
    );
}
