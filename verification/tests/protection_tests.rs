use deepseek_mcp_bridge::redact::{contains_redactable, redact};
use deepseek_mcp_bridge::sanitize::InputSanitizer;
use deepseek_mcp_bridge::security::{sanitize_error_message, ApiKeyManager, SecureErrorHandler};
use deepseek_mcp_bridge::validation::{
    validate_content_type, validate_request_size, JsonValue, McpRequestValidator,
};

fn obj(fields: Vec<(&str, JsonValue)>) -> JsonValue {
    JsonValue::Obj(fields.into_iter().map(|(k, v)| (k.to_string(), v)).collect())
}

fn s(text: &str) -> JsonValue {
    JsonValue::Str(text.to_string())
}

#[test]
fn test_input_sanitizer() {
    let sanitizer = InputSanitizer::new().unwrap();

    // Valid input should pass
    assert!(sanitizer.sanitize_string("Hello world", "test").is_ok());

    // SQL injection should fail
    assert!(sanitizer.sanitize_string("'; DROP TABLE users; --", "test").is_err());

    // Path traversal should fail
    assert!(sanitizer.sanitize_string("../../../etc/passwd", "test").is_err());

    // Script injection should fail
    assert!(sanitizer.sanitize_string("<script>alert('xss')</script>", "test").is_err());
}

#[test]
fn test_path_validation() {
    let sanitizer = InputSanitizer::new().unwrap();

    // Valid path should pass
    assert!(sanitizer.validate_file_path("./src/main.rs").is_ok());

    // Path traversal should fail
    assert!(sanitizer.validate_file_path("../../../etc/passwd").is_err());

    // System directory access should fail
    assert!(sanitizer.validate_file_path("/etc/passwd").is_err());
}

#[test]
fn test_api_key_manager() {
    let manager = ApiKeyManager::new("test_api_key_12345678901234567890").unwrap();

    // Valid key should pass
    assert!(manager.validate_key("test_api_key_12345678901234567890"));

    // Invalid key should fail
    assert!(!manager.validate_key("wrong_key"));
}

#[test]
fn test_api_key_format_rejected() {
    // too short
    assert!(ApiKeyManager::new("shortkey").is_err());
    // disallowed characters
    assert!(ApiKeyManager::new("bad key with spaces 123456789012345678").is_err());
}

#[test]
fn test_api_key_hash_is_not_the_key() {
    let key = "test_api_key_12345678901234567890";
    let manager = ApiKeyManager::new(key).unwrap();
    // the stored hash is the base64 form of a 32-byte digest, not the key
    assert_ne!(manager.key_hash, key);
    assert_eq!(manager.key_hash.len(), 44);
}

#[test]
fn test_request_validator() {
    let validator = McpRequestValidator::new().unwrap();

    // Valid initialize request
    let valid_request = obj(vec![
        ("jsonrpc", s("2.0")),
        ("id", JsonValue::Int(1)),
        ("method", s("initialize")),
        (
            "params",
            obj(vec![
                ("protocolVersion", s("2024-11-05")),
                ("capabilities", obj(vec![])),
                ("clientInfo", obj(vec![("name", s("test-client")), ("version", s("1.0.0"))])),
            ]),
        ),
    ]);
    let result = validator.validate_request(200, Some(valid_request));
    assert!(result.is_valid, "Valid request should pass: {:?}", result.errors);

    // Invalid request (missing required fields)
    let invalid_request = obj(vec![("jsonrpc", s("2.0")), ("method", s("initialize"))]);
    let result = validator.validate_request(60, Some(invalid_request));
    assert!(!result.is_valid, "Invalid request should fail");
}

#[test]
fn test_file_path_validation() {
    let validator = McpRequestValidator::new().unwrap();

    // Valid file paths
    let valid_files = JsonValue::Arr(vec![s("./src/main.rs"), s("./config.json")]);
    assert!(validator.validate_file_paths(&valid_files).is_ok());

    // Invalid file paths (path traversal)
    let invalid_files = JsonValue::Arr(vec![s("../../../etc/passwd")]);
    assert!(validator.validate_file_paths(&invalid_files).is_err());

    // System directory access
    let system_files = JsonValue::Arr(vec![s("/etc/passwd")]);
    assert!(validator.validate_file_paths(&system_files).is_err());
}

#[test]
fn test_content_type_validation() {
    // Valid content type
    assert!(validate_content_type(Some("application/json")).is_ok());

    // Invalid content type
    assert!(validate_content_type(Some("text/plain")).is_err());

    // Missing content type
    assert!(validate_content_type(None).is_err());
}

#[test]
fn test_request_size_validation() {
    assert!(validate_request_size(10, 100).is_ok());
    assert!(validate_request_size(100, 100).is_ok());
    assert!(validate_request_size(101, 100).is_err());
}

#[test]
fn test_wrong_protocol_version_names_expected_one() {
    let validator = McpRequestValidator::new().unwrap();
    let request = obj(vec![
        ("jsonrpc", s("1.0")),
        ("method", s("initialize")),
        ("params", obj(vec![])),
    ]);
    let result = validator.validate_request(80, Some(request));
    assert!(!result.is_valid);
    assert_eq!(result.errors[0], "Invalid JSON-RPC version, expected 2.0");
}

#[test]
fn test_unknown_tool_rejected() {
    let validator = McpRequestValidator::new().unwrap();
    let request = obj(vec![
        ("jsonrpc", s("2.0")),
        ("method", s("tools/call")),
        ("params", obj(vec![("name", s("rm_rf_tool"))])),
    ]);
    let result = validator.validate_request(80, Some(request));
    assert!(!result.is_valid);
    assert_eq!(result.errors[0], "Unknown or disallowed tool: rm_rf_tool");
}

#[test]
fn test_allowed_tool_accepted() {
    let validator = McpRequestValidator::new().unwrap();
    let request = obj(vec![
        ("jsonrpc", s("2.0")),
        ("method", s("tools/call")),
        ("params", obj(vec![("name", s("query_deepseek")), ("arguments", obj(vec![]))])),
    ]);
    let result = validator.validate_request(90, Some(request));
    assert!(result.is_valid, "{:?}", result.errors);
}

#[test]
fn test_oversized_payload_rejected() {
    let validator = McpRequestValidator::new().unwrap();
    let result = validator.validate_request(2 * 1024 * 1024, Some(obj(vec![])));
    assert!(!result.is_valid);
    assert_eq!(result.errors[0], "Request payload too large");
}

#[test]
fn test_malformed_payload_rejected() {
    let validator = McpRequestValidator::new().unwrap();
    let result = validator.validate_request(10, None);
    assert!(!result.is_valid);
    assert_eq!(result.errors[0], "Invalid JSON format");
}

#[test]
fn test_sanitization_strips_and_trims() {
    let validator = McpRequestValidator::new().unwrap();
    let request = obj(vec![
        ("jsonrpc", s("2.0")),
        ("method", s("health")),
        ("note", s("  hello\u{feff} world  ")),
    ]);
    let result = validator.validate_request(80, Some(request));
    assert!(result.is_valid);
    match result.sanitized_data.unwrap() {
        JsonValue::Obj(fields) => {
            let note = fields.iter().find(|(k, _)| k == "note").unwrap();
            match &note.1 {
                JsonValue::Str(t) => assert_eq!(t, "hello world"),
                _ => panic!("note should stay a string"),
            }
        }
        _ => panic!("envelope should stay an object"),
    }
}

#[test]
fn test_redact_masks_secrets() {
    assert_eq!(redact("api_key: sk-1234567890"), "[API_KEY]");
    assert_eq!(redact("user@example.com"), "[EMAIL]");
    assert_eq!(redact("bearer abc123"), "[BEARER_TOKEN]");
    assert_eq!(redact("from 10.0.0.1 ok"), "from [IP_ADDRESS] ok");
    assert_eq!(redact("password=hunter2!"), "[PASSWORD]");
    assert_eq!(redact("tokens: a b"), "[TOKEN] b");
}

#[test]
fn test_redact_idempotent_on_examples() {
    let samples = [
        "api_key: sk-1234567890",
        "user@example.com wrote from 10.1.2.3",
        "no secrets here",
        "bearer xyz and password: p@ss",
        "mixed api-key=aaa token: bbb 192.168.0.1",
    ];
    for sample in samples {
        let once = redact(sample);
        let twice = redact(&once);
        assert_eq!(once, twice, "redaction must be idempotent on {sample:?}");
    }
}

#[test]
fn test_redact_leaves_no_secret_substrings() {
    let out = redact("contact user@example.com at 10.1.2.3 with api_key: sk-99");
    assert!(!out.contains("user@example.com"));
    assert!(!out.contains("10.1.2.3"));
    assert!(!out.contains("sk-99"));
}

#[test]
fn test_redactable_detector_matches_redaction() {
    assert!(contains_redactable("api_key: sk-1"));
    assert!(contains_redactable("ping 10.0.0.1"));
    assert!(!contains_redactable("plain text"));
    // a clean redaction output is a fixed point
    let once = redact("password: hunter2 sent to user@example.com");
    assert!(!contains_redactable(&once));
    assert_eq!(redact(&once), once);
}

#[test]
fn test_redact_masks_ip_after_masked_text() {
    // the mail pass runs first; the IPv4 pass then sees the placeholder's
    // bracket as a word boundary and masks the adjacent address too
    assert_eq!(redact("a@b.co1.2.3.4"), "[EMAIL][IP_ADDRESS]");
    assert_eq!(redact("]10.0.0.1"), "][IP_ADDRESS]");
    assert_eq!(
        sanitize_error_message("sent to c@d.ee10.20.30.40"),
        "sent to [REDACTED][REDACTED]"
    );
}

#[test]
fn test_redact_truncates_long_values() {
    let long = "x".repeat(620);
    let out = redact(&long);
    assert_eq!(out.len(), 500);
    assert!(out.ends_with("..."));
}

#[test]
fn test_error_sanitizer_production_mode() {
    let handler = SecureErrorHandler::new(true);
    let out = handler.sanitize_error("password: hunter2 at /var/lib/app/data", "request", 7_000);
    assert_eq!(out.error, "Request processing failed");
    assert_eq!(out.timestamp_ms, 7_000);
    assert!(out.details.is_none());
    assert!(out.context.is_none());
}

#[test]
fn test_error_sanitizer_development_mode() {
    let handler = SecureErrorHandler::new(false);
    let out = handler.sanitize_error("password: hunter2 at /var/lib/app/data", "request", 8_000);
    let details = out.details.unwrap();
    assert!(!details.contains("hunter2"));
    assert!(!details.contains("/var/lib/app/data"));
    assert!(details.contains("[REDACTED]"));
    assert_eq!(out.context.unwrap(), "request");
    assert_eq!(out.timestamp_ms, 8_000);
}

#[test]
fn test_error_message_scrubbing() {
    let out = sanitize_error_message("wrote to /var/log/app/secret.log for bob@corp.example");
    assert_eq!(out, "wrote to [REDACTED].log for [REDACTED]");
}
