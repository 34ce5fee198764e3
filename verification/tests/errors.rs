use json_surf::prelude::IndexError;

#[test]
fn validate_index_error() {
    let message = "message".to_string();
    let reason = "reason".to_string();
    let error = IndexError::new(message, reason);
    assert_eq!(error.describe(), format!("Message: {}", error.message()));
    assert_eq!(error.message().as_str(), "message");
    assert_eq!(error.reason().as_str(), "reason");
}

#[test]
fn validate_index_error_from_io_error() {
    let error = std::io::Error::from(std::io::ErrorKind::PermissionDenied);
    let error: IndexError = error.into();
    assert_eq!(error.describe(), format!("Message: {}", error.message()));
}

#[test]
fn validate_index_error_from_tantivy_error() {
    let error = tantivy::TantivyError::IndexAlreadyExists;
    let error: IndexError = error.into();
    assert_eq!(error.describe(), format!("Message: {}", error.message()));
}
