//! The error taxonomy.

use appwrite::AppwriteError;

#[test]
fn test_error_types() {
    let api_error = AppwriteError::api("Test error", 400);
    assert_eq!(api_error.code(), Some(400));

    let missing_param_error = AppwriteError::missing_parameter("user_id");
    assert!(missing_param_error.message().contains("user_id"));
}

#[test]
fn api_with_details_keeps_everything() {
    let e = AppwriteError::api_with_details(
        "broken".to_string(),
        409,
        Some("conflict".to_string()),
        Some("{\"message\":\"broken\"}".to_string()),
    );
    assert_eq!(e.code(), Some(409));
    assert_eq!(e.error_type(), Some("conflict"));
    assert_eq!(e.response(), Some("{\"message\":\"broken\"}"));
    assert_eq!(e.message(), "API error (409): broken");
}

#[test]
fn non_api_errors_have_no_code() {
    assert_eq!(AppwriteError::invalid_parameter("verb").code(), None);
    assert_eq!(AppwriteError::file_error("gone").code(), None);
    assert_eq!(AppwriteError::missing_parameter("id").error_type(), None);
}

#[test]
fn messages_name_the_failure() {
    assert_eq!(
        AppwriteError::missing_parameter("email").message(),
        "Missing required parameter: email"
    );
    assert_eq!(
        AppwriteError::invalid_parameter("verb").message(),
        "Invalid parameter: verb"
    );
    assert_eq!(AppwriteError::file_error("gone").message(), "File operation error: gone");
    assert_eq!(
        AppwriteError::InvalidEndpoint("ftp://x".to_string()).message(),
        "Invalid endpoint URL: ftp://x"
    );
    assert_eq!(AppwriteError::Json("{".to_string()).message(), "JSON error: {");
    assert_eq!(AppwriteError::Http("refused".to_string()).message(), "HTTP request failed: refused");
}
