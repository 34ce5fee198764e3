use json_surf::registry::Control;
use json_surf::utils::{resolve_number_option, resolve_text_option};

use tantivy::schema::{NumericOptions, TextOptions, TEXT};

#[test]
fn validate_resolve_text_option() {
    let key = "dummy";
    let text_options = TEXT;
    let control = vec![(key.to_string(), Control::ControlTextOptions(text_options))];
    let options = resolve_text_option(key, Some(&control));
    assert_eq!(options.is_stored(), false);
}

#[test]
fn validate_resolve_default_text_option() {
    let key = "dummy";
    let options = resolve_text_option(key, None);
    assert_eq!(options.is_stored(), true);
}

#[test]
fn validate_resolve_number_option() {
    let key = "dummy";
    let int_options = NumericOptions::default();
    let control = vec![(key.to_string(), Control::ControlIntOptions(int_options))];
    let options = resolve_number_option(key, Some(&control));
    assert_eq!(options.is_stored(), false);
}

#[test]
fn validate_resolve_default_number_option() {
    let key = "dummy";
    let options = resolve_number_option(key, None);
    assert_eq!(options.is_stored(), true);
}

#[test]
fn invalid_resolve_text_option() {
    let key = "dummy";
    let int_options = NumericOptions::default();
    let control = vec![(key.to_string(), Control::ControlIntOptions(int_options))];
    let options = resolve_text_option(key, Some(&control));
    assert_eq!(options.is_stored(), true);
}

#[test]
fn default_resolve_text_option() {
    let key = "dummy";
    let control = vec![(
        key.to_string(),
        Control::ControlTextOptions(TextOptions::default()),
    )];
    let options = resolve_text_option(key, Some(&control));
    assert_eq!(options.is_stored(), false);
}

#[test]
fn default_resolve_number_option() {
    let key = "dummy";
    let control = vec![(
        key.to_string(),
        Control::ControlIntOptions(NumericOptions::default()),
    )];
    let options = resolve_number_option(key, Some(&control));
    assert_eq!(options.is_stored(), false);
}

#[test]
fn invalid_resolve_number_option() {
    let key = "dummy";
    let text_options = TEXT;
    let control = vec![(key.to_string(), Control::ControlTextOptions(text_options))];
    let options = resolve_number_option(key, Some(&control));
    assert_eq!(options.is_stored(), true);
}
