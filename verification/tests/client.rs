use openrouter_widget::error::AppError;
use openrouter_widget::openrouter::client::{auth_header, handle_response};

#[test]
fn auth_header_is_bearer() {
    assert_eq!(auth_header("sk-or-v1-abc"), "Bearer sk-or-v1-abc");
}

#[test]
fn responses_are_judged_by_status() {
    assert_eq!(handle_response(200, "200 OK", "{}".to_string()).unwrap(), "{}");
    match handle_response(401, "401 Unauthorized", String::new()) {
        Err(AppError::AuthError(m)) => assert_eq!(m, "Invalid API key or key has been revoked"),
        _ => panic!("expected AuthError"),
    }
    match handle_response(403, "403 Forbidden", String::new()) {
        Err(AppError::AuthError(m)) => assert_eq!(m, "Access forbidden. Check your API key permissions."),
        _ => panic!("expected AuthError"),
    }
    match handle_response(502, "502 Bad Gateway", "down".to_string()) {
        Err(AppError::NetworkError(m)) => assert_eq!(m, "OpenRouter server error (502 Bad Gateway): down"),
        _ => panic!("expected NetworkError"),
    }
    match handle_response(429, "429 Too Many Requests", "slow".to_string()) {
        Err(AppError::OpenRouterError(m)) => {
            assert_eq!(m, "Request failed with status 429 Too Many Requests: slow")
        }
        _ => panic!("expected OpenRouterError"),
    }
}
