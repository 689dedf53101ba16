use rustman::{
    ApiKeyLocation, AuthConfig, ErrorKind, HttpMethod, JsonValue, RequestBody, RequestDefinition,
    RequestValidator, TestAssertion, ValidationError, ValidationResult,
};

fn request(name: &str, url: &str) -> RequestDefinition {
    RequestDefinition {
        name: name.to_string(),
        method: HttpMethod::GET,
        url: url.to_string(),
        headers: None,
        params: None,
        body: None,
        auth: None,
        tests: None,
    }
}

fn assertion(code: Option<u16>) -> TestAssertion {
    TestAssertion { status_code: code, response_time_less_than: None, json_path: None, exists: None, equals: None }
}

const URL_WARNING: &str = "Consider using environment variables for URLs";

#[test]
fn valid_document_passes() {
    let r = request("Get user", "{{base}}/users");
    assert_eq!(r.validate(), Ok(()));
}

#[test]
fn missing_name_and_url_reports_name_only() {
    let r = request("   ", "");
    assert_eq!(r.validate(), Err(ValidationError::MissingField("name".to_string())));
    let result = RequestValidator::validate_file("a.yaml".to_string(), Ok(r));
    assert!(!result.is_valid);
    assert_eq!(result.errors, vec![ValidationError::MissingField("name".to_string())]);
}

#[test]
fn blank_url_is_missing() {
    let r = request("n", " \t\n");
    assert_eq!(r.validate(), Err(ValidationError::MissingField("url".to_string())));
}

#[test]
fn header_names_are_checked_in_order() {
    let mut r = request("n", "{{u}}");
    r.headers = Some(vec![
        ("Accept".to_string(), "x".to_string()),
        ("Bad\u{7}Name".to_string(), "y".to_string()),
        ("  ".to_string(), "z".to_string()),
    ]);
    assert_eq!(r.validate(), Err(ValidationError::InvalidHeader("Bad\u{7}Name".to_string())));
    r.headers = Some(vec![("  ".to_string(), "z".to_string())]);
    assert_eq!(r.validate(), Err(ValidationError::InvalidHeader("  ".to_string())));
    r.headers = Some(vec![("Naïve".to_string(), "z".to_string())]);
    assert_eq!(r.validate(), Err(ValidationError::InvalidHeader("Naïve".to_string())));
    r.headers = Some(vec![("X-Token".to_string(), "z".to_string()), ("Content-Type".to_string(), "a".to_string())]);
    assert_eq!(r.validate(), Ok(()));
}

#[test]
fn null_json_body_is_rejected() {
    let mut r = request("n", "{{u}}");
    r.body = Some(RequestBody::Json(JsonValue { text: "null".to_string() }));
    assert_eq!(r.validate(), Err(ValidationError::InvalidJson("Body cannot be null".to_string())));
    r.body = Some(RequestBody::Json(JsonValue { text: "{\"a\":null}".to_string() }));
    assert_eq!(r.validate(), Ok(()));
    r.body = Some(RequestBody::Text("null".to_string()));
    assert_eq!(r.validate(), Ok(()));
}

#[test]
fn status_codes_outside_range_are_rejected() {
    let mut r = request("n", "{{u}}");
    r.tests = Some(vec![assertion(Some(100)), assertion(None), assertion(Some(599))]);
    assert_eq!(r.validate(), Ok(()));
    r.tests = Some(vec![assertion(Some(200)), assertion(Some(99)), assertion(Some(600))]);
    assert_eq!(r.validate(), Err(ValidationError::InvalidJson("Invalid status code: 99".to_string())));
    r.tests = Some(vec![assertion(Some(65535))]);
    assert_eq!(r.validate(), Err(ValidationError::InvalidJson("Invalid status code: 65535".to_string())));
    r.tests = Some(vec![assertion(Some(0))]);
    assert_eq!(r.validate(), Err(ValidationError::InvalidJson("Invalid status code: 0".to_string())));
}

#[test]
fn rules_apply_in_order() {
    let mut r = request("n", "{{u}}");
    r.headers = Some(vec![("".to_string(), "v".to_string())]);
    r.body = Some(RequestBody::Json(JsonValue { text: "null".to_string() }));
    r.tests = Some(vec![assertion(Some(1))]);
    assert_eq!(r.validate().unwrap_err().kind(), ErrorKind::InvalidHeader);
    r.headers = None;
    assert_eq!(r.validate().unwrap_err().detail(), "Body cannot be null");
    r.body = None;
    assert_eq!(r.validate().unwrap_err().detail(), "Invalid status code: 1");
}

#[test]
fn method_names_are_case_sensitive() {
    assert_eq!(HttpMethod::from_name("PATCH"), Ok(HttpMethod::PATCH));
    assert_eq!(HttpMethod::from_name("OPTIONS"), Ok(HttpMethod::OPTIONS));
    assert_eq!(HttpMethod::from_name("get"), Err(ValidationError::InvalidMethod("get".to_string())));
}

#[test]
fn warnings_for_literal_url_and_secrets() {
    let mut r = request("n", "https://api.example.com");
    r.auth = Some(AuthConfig::Bearer { token: "abc".to_string() });
    let result = RequestValidator::validate_file("r.yaml".to_string(), Ok(r.clone()));
    assert!(result.is_valid);
    assert_eq!(
        result.warnings,
        vec![URL_WARNING.to_string(), "Consider using environment variables for auth tokens".to_string()]
    );

    r.url = "http://x/{{id}}".to_string();
    r.auth = Some(AuthConfig::ApiKey { key: "k".to_string(), value: "v".to_string(), location: ApiKeyLocation::Query });
    let result = RequestValidator::validate_file("r.yaml".to_string(), Ok(r.clone()));
    assert_eq!(result.warnings, vec!["Consider using environment variables for API keys".to_string()]);

    r.url = "ftp://x".to_string();
    r.auth = Some(AuthConfig::Basic { username: "u".to_string(), password: "p".to_string() });
    let result = RequestValidator::validate_file("r.yaml".to_string(), Ok(r.clone()));
    assert!(result.warnings.is_empty());

    r.auth = Some(AuthConfig::Bearer { token: "{{token}}".to_string() });
    let result = RequestValidator::validate_file("r.yaml".to_string(), Ok(r));
    assert!(result.warnings.is_empty());
}

#[test]
fn invalid_document_keeps_its_warnings() {
    let r = request("n", "http://a{b}");
    let mut r2 = r.clone();
    r2.tests = Some(vec![assertion(Some(700))]);
    let result = RequestValidator::validate_file("r.json".to_string(), Ok(r2));
    assert!(!result.is_valid);
    assert_eq!(result.errors.len(), 1);
    assert_eq!(result.warnings, vec![URL_WARNING.to_string()]);
}

#[test]
fn load_error_is_recorded_alone() {
    let result = RequestValidator::validate_file(
        "bad.json".to_string(),
        Err(ValidationError::Parse("trailing comma".to_string())),
    );
    assert_eq!(result.file_path, "bad.json");
    assert!(!result.is_valid);
    assert_eq!(result.errors, vec![ValidationError::Parse("trailing comma".to_string())]);
    assert!(result.warnings.is_empty());
}

#[test]
fn batch_tolerates_a_malformed_file() {
    let files = vec![
        ("bad.yaml".to_string(), Err(ValidationError::Parse("oops".to_string()))),
        ("good.yaml".to_string(), Ok(request("ok", "{{u}}"))),
    ];
    let results = RequestValidator::validate_directory(files);
    assert_eq!(results.len(), 2);
    assert_eq!(results[0].file_path, "bad.yaml");
    assert!(!results[0].is_valid);
    assert_eq!(results[1].file_path, "good.yaml");
    assert!(results[1].is_valid);
}

#[test]
fn summary_counts() {
    let files = vec![
        ("a.yaml".to_string(), Err(ValidationError::FileIo("denied".to_string()))),
        ("b.yaml".to_string(), Ok(request("ok", "https://x"))),
        ("c.json".to_string(), Ok(request("", "https://x"))),
        ("d.json".to_string(), Ok(request("fine", "{{u}}"))),
    ];
    let results = RequestValidator::validate_directory(files);
    let s = RequestValidator::summarize(&results);
    assert_eq!(s.total_files, 4);
    assert_eq!(s.valid_files, 2);
    assert_eq!(s.total_errors, 2);
    assert_eq!(s.total_warnings, 2);
    let empty: Vec<ValidationResult> = Vec::new();
    assert_eq!(RequestValidator::summarize(&empty).total_files, 0);
}

#[test]
fn result_appends() {
    let mut r = ValidationResult::new("f.yaml".to_string());
    assert!(r.is_valid);
    r.add_warning("w".to_string());
    assert!(r.is_valid);
    r.add_error(ValidationError::InvalidUrl("u".to_string()));
    assert!(!r.is_valid);
    assert_eq!(r.errors, vec![ValidationError::InvalidUrl("u".to_string())]);
    assert_eq!(r.warnings, vec!["w".to_string()]);
}
