use openrouter_widget::error::AppError;

#[test]
fn error_display_auth() {
    let err = AppError::AuthError("bad key".into());
    assert_eq!(err.to_string(), "Authentication failed: bad key");
}

#[test]
fn error_display_network() {
    let err = AppError::NetworkError("timeout".into());
    assert_eq!(err.to_string(), "Network error: timeout");
}

#[test]
fn error_display_not_found() {
    let err = AppError::NotFound("resource".into());
    assert_eq!(err.to_string(), "Not found: resource");
}

#[test]
fn error_display_storage() {
    let err = AppError::StorageError("disk full".into());
    assert_eq!(err.to_string(), "Storage error: disk full");
}

#[test]
fn error_display_invalid_input() {
    let err = AppError::InvalidInput("bad mode".into());
    assert_eq!(err.to_string(), "Invalid input: bad mode");
}

#[test]
fn error_display_openrouter() {
    let err = AppError::OpenRouterError("rate limited".into());
    assert_eq!(err.to_string(), "OpenRouter error: rate limited");
}

#[test]
fn error_is_debug() {
    let err = AppError::NetworkError("x".into());
    let debug = format!("{err:?}");
    assert!(debug.contains("NetworkError"));
}

#[test]
fn error_constructors_keep_message() {
    assert_eq!(AppError::invalid_input("m").to_string(), "Invalid input: m");
    assert_eq!(AppError::not_found("m").to_string(), "Not found: m");
    assert_eq!(AppError::network("m").to_string(), "Network error: m");
    assert_eq!(AppError::storage("m").to_string(), "Storage error: m");
    assert_eq!(AppError::auth("m").to_string(), "Authentication failed: m");
}
