use kwtsms::errors::{enrich_error, KwtSmsError, API_ERRORS};

#[test]
fn test_api_errors_has_all_codes() {
    assert!(API_ERRORS.contains_key("ERR001"));
    assert!(API_ERRORS.contains_key("ERR033"));
    assert!(API_ERRORS.contains_key("ERR_INVALID_INPUT"));
    assert_eq!(API_ERRORS.len(), 29);
}

#[test]
fn test_enrich_error_adds_action() {
    let mut data: serde_json::Value = serde_json::from_str(
        r#"{"result": "ERROR", "code": "ERR003", "description": "Authentication error"}"#,
    )
    .unwrap();
    enrich_error(&mut data);
    assert!(data["action"].as_str().unwrap().contains("KWTSMS_USERNAME"));
}

#[test]
fn test_enrich_error_no_action_on_ok() {
    let mut data: serde_json::Value =
        serde_json::from_str(r#"{"result": "OK", "balance": 100}"#).unwrap();
    enrich_error(&mut data);
    assert!(data.get("action").is_none());
}

#[test]
fn test_enrich_error_unknown_code() {
    let mut data: serde_json::Value = serde_json::from_str(
        r#"{"result": "ERROR", "code": "ERR999", "description": "Unknown error"}"#,
    )
    .unwrap();
    enrich_error(&mut data);
    assert!(data.get("action").is_none());
}

#[test]
fn test_kwtsms_error_display() {
    let e = KwtSmsError::Network("timeout".to_string());
    assert!(e.to_string().contains("timeout"));

    let e = KwtSmsError::Api {
        code: "ERR003".to_string(),
        description: "Auth error".to_string(),
        action: "Check credentials".to_string(),
    };
    assert!(e.to_string().contains("ERR003"));

    let e = KwtSmsError::InvalidInput("bad phone".to_string());
    assert!(e.to_string().contains("bad phone"));
}
