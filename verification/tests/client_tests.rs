//! Client configuration, parameter flattening, request preparation and
//! response interpretation.

use appwrite::client::{
    flatten_params, interpret_response, location_response, multipart_form_fields, split_warnings,
    BodyPlan,
};
use appwrite::{AppwriteError, Client, JsonValue};

#[test]
fn test_client_creation() {
    let client = Client::new()
        .set_endpoint("https://example.com/v1")
        .expect("Valid endpoint")
        .set_project("test-project")
        .set_key("test-key");
    assert_eq!(client.endpoint, "https://example.com/v1");
}

#[test]
fn set_endpoint_accepts_http_and_https_urls() {
    assert!(Client::new().set_endpoint("http://localhost:8080/v1").is_ok());
    assert!(Client::new().set_endpoint("https://cloud.appwrite.io/v1").is_ok());
}

#[test]
fn set_endpoint_rejects_other_schemes_and_junk() {
    for bad in ["ftp://example.com", "example.com", "", "https://"] {
        match Client::new().set_endpoint(bad) {
            Err(AppwriteError::InvalidEndpoint(s)) => assert_eq!(s, bad),
            _ => panic!("expected InvalidEndpoint for {bad:?}"),
        }
    }
}

#[test]
fn add_header_lowercases_and_later_insert_wins() {
    let client = Client::new().add_header("X-Custom", "one").add_header("x-custom", "two");
    let found: Vec<&(String, String)> =
        client.headers.iter().filter(|p| p.0 == "x-custom").collect();
    assert_eq!(found.len(), 1);
    assert_eq!(found[0].1, "two");
}

#[test]
fn flattening_nests_keys_and_drops_nulls() {
    let params = vec![
        (
            "a".to_string(),
            JsonValue::Obj(vec![("b".to_string(), JsonValue::Int(1))]),
        ),
        (
            "c".to_string(),
            JsonValue::Arr(vec![JsonValue::Int(2), JsonValue::Int(3)]),
        ),
        ("gone".to_string(), JsonValue::Null),
    ];
    let flat = flatten_params(&params);
    assert_eq!(
        flat,
        vec![
            ("a[b]".to_string(), "1".to_string()),
            ("c[0]".to_string(), "2".to_string()),
            ("c[1]".to_string(), "3".to_string()),
        ]
    );
}

#[test]
fn flattening_stringifies_scalars() {
    let params = vec![
        ("s".to_string(), JsonValue::Str("text".to_string())),
        ("t".to_string(), JsonValue::Bool(true)),
        ("f".to_string(), JsonValue::Bool(false)),
        ("n".to_string(), JsonValue::Int(-5)),
    ];
    let flat = flatten_params(&params);
    assert_eq!(
        flat,
        vec![
            ("s".to_string(), "text".to_string()),
            ("t".to_string(), "true".to_string()),
            ("f".to_string(), "false".to_string()),
            ("n".to_string(), "-5".to_string()),
        ]
    );
}

#[test]
fn multipart_fields_stringify_and_skip_nulls() {
    let params = vec![
        ("name".to_string(), JsonValue::Str("x".to_string())),
        ("count".to_string(), JsonValue::Int(3)),
        ("flag".to_string(), JsonValue::Bool(true)),
        ("list".to_string(), JsonValue::Arr(vec![JsonValue::Int(1)])),
        ("none".to_string(), JsonValue::Null),
    ];
    let fields = multipart_form_fields(&params);
    assert_eq!(
        fields,
        vec![
            ("name".to_string(), "x".to_string()),
            ("count".to_string(), "3".to_string()),
            ("flag".to_string(), "true".to_string()),
            ("list".to_string(), "[1]".to_string()),
        ]
    );
}

#[test]
fn prepare_call_rejects_bad_verbs() {
    let client = Client::new();
    match client.prepare_call("not a verb", "/x", None, None) {
        Err(AppwriteError::InvalidParameter(m)) => {
            assert_eq!(m, "Invalid HTTP method: NOT A VERB");
        },
        _ => panic!("expected InvalidParameter"),
    }
}

#[test]
fn prepare_call_uppercases_and_builds_the_url() {
    let client = Client::new().set_endpoint("https://example.com/v1").unwrap();
    let plan = client.prepare_call("get", "/account", None, None).unwrap();
    assert_eq!(plan.method, "GET");
    assert_eq!(plan.url, "https://example.com/v1/account");
    assert!(matches!(plan.body, BodyPlan::Empty));
}

#[test]
fn prepare_call_puts_get_params_in_the_query() {
    let client = Client::new();
    let params = vec![("x".to_string(), JsonValue::Int(1))];
    let plan = client.prepare_call("GET", "/p", None, Some(params)).unwrap();
    match plan.body {
        BodyPlan::QueryParams(q) => {
            assert_eq!(q, vec![("x".to_string(), "1".to_string())]);
        },
        _ => panic!("expected query parameters"),
    }
}

#[test]
fn prepare_call_sends_json_when_the_content_type_says_so() {
    let client = Client::new();
    let headers = vec![("Content-Type".to_string(), "application/json".to_string())];
    let params = vec![("x".to_string(), JsonValue::Int(1))];
    let plan = client.prepare_call("post", "/p", Some(headers), Some(params)).unwrap();
    match plan.body {
        BodyPlan::JsonBody(b) => assert_eq!(b, r#"{"x":1}"#),
        _ => panic!("expected a JSON body"),
    }
}

#[test]
fn prepare_call_defaults_to_a_form_body() {
    let client = Client::new();
    let params = vec![("x".to_string(), JsonValue::Int(1))];
    let plan = client.prepare_call("post", "/p", None, Some(params)).unwrap();
    match plan.body {
        BodyPlan::FormBody(f) => {
            assert_eq!(f, vec![("x".to_string(), "1".to_string())]);
        },
        _ => panic!("expected a form body"),
    }
}

#[test]
fn prepare_call_builds_multipart_fields() {
    let client = Client::new();
    let headers = vec![(
        "content-type".to_string(),
        "multipart/form-data; boundary=x".to_string(),
    )];
    let params = vec![("name".to_string(), JsonValue::Str("f.bin".to_string()))];
    let plan = client.prepare_call("post", "/p", Some(headers), Some(params)).unwrap();
    match plan.body {
        BodyPlan::MultipartBody(f) => {
            assert_eq!(f, vec![("name".to_string(), "f.bin".to_string())]);
        },
        _ => panic!("expected multipart fields"),
    }
}

#[test]
fn extra_headers_override_defaults_case_insensitively() {
    let client = Client::new();
    let headers = vec![("Content-Type".to_string(), "application/json".to_string())];
    let plan = client.prepare_call("post", "/p", Some(headers), None).unwrap();
    let found: Vec<&(String, String)> =
        plan.headers.iter().filter(|p| p.0 == "content-type").collect();
    assert_eq!(found.len(), 1);
    assert_eq!(found[0].1, "application/json");
}

#[test]
fn non_2xx_json_response_becomes_an_api_error() {
    let body = r#"{"message":"Invalid credentials","type":"user_invalid_credentials"}"#;
    match interpret_response(401, "application/json", body) {
        Err(e) => {
            assert_eq!(e.code(), Some(401));
            assert_eq!(e.error_type(), Some("user_invalid_credentials"));
            assert_eq!(e.response(), Some(body));
            match e {
                AppwriteError::Api { message, .. } => assert_eq!(message, "Invalid credentials"),
                _ => panic!("expected an API error"),
            }
        },
        Ok(_) => panic!("expected an error"),
    }
}

#[test]
fn non_2xx_non_json_response_keeps_the_raw_body() {
    match interpret_response(500, "text/plain", "boom") {
        Err(AppwriteError::Api { message, code, error_type, response }) => {
            assert_eq!(message, "boom");
            assert_eq!(code, 500);
            assert_eq!(error_type, None);
            assert_eq!(response, Some("boom".to_string()));
        },
        _ => panic!("expected an API error"),
    }
}

#[test]
fn success_json_response_is_decoded() {
    let v = interpret_response(200, "application/json", r#"{"ok":true}"#).unwrap();
    assert_eq!(v.to_json_string(), r#"{"ok":true}"#);
}

#[test]
fn success_non_json_response_is_the_raw_text() {
    let v = interpret_response(204, "text/plain", "done").unwrap();
    match v {
        JsonValue::Str(s) => assert_eq!(s, "done"),
        _ => panic!("expected a string"),
    }
}

#[test]
fn malformed_success_json_is_a_serialization_error() {
    match interpret_response(200, "application/json", "{oops") {
        Err(AppwriteError::Json(m)) => assert_eq!(m, "{oops"),
        _ => panic!("expected a JSON error"),
    }
}

#[test]
fn location_mode_returns_the_header_value() {
    match location_response("https://example.com/cb") {
        JsonValue::Str(s) => assert_eq!(s, "https://example.com/cb"),
        _ => panic!("expected a string"),
    }
}

#[test]
fn warnings_split_on_semicolons() {
    assert_eq!(split_warnings("a;b;c"), vec!["a", "b", "c"]);
    assert_eq!(split_warnings("only"), vec!["only"]);
    assert_eq!(split_warnings(""), vec![""]);
}

#[test]
fn default_headers_identify_the_client() {
    let client = Client::new();
    let get = |k: &str| {
        client
            .headers
            .iter()
            .find(|p| p.0 == k)
            .map(|p| p.1.clone())
    };
    assert_eq!(get("content-type"), Some(String::new()));
    assert_eq!(get("x-sdk-name"), Some("Rust".to_string()));
    assert_eq!(get("x-sdk-platform"), Some("server".to_string()));
    assert_eq!(get("x-sdk-language"), Some("rust".to_string()));
    assert_eq!(get("x-sdk-version"), Some("0.1.0".to_string()));
    assert_eq!(get("x-appwrite-response-format"), Some("1.7.0".to_string()));
}

#[test]
fn chunk_size_is_configurable() {
    let client = Client::new();
    assert_eq!(client.chunk_size(), 5 * 1024 * 1024);
    let client = client.set_chunk_size(1024);
    assert_eq!(client.chunk_size(), 1024);
}
