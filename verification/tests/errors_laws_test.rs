use kwtsms::errors::{enrich_error, KwtSmsError, API_ERRORS};

#[test]
fn display_text_is_exact() {
    assert_eq!(KwtSmsError::Network("timeout".to_string()).to_string(), "Network error: timeout");
    let e = KwtSmsError::Api {
        code: "ERR003".to_string(),
        description: "Auth error".to_string(),
        action: "Check credentials".to_string(),
    };
    assert_eq!(e.to_string(), "[ERR003] Auth error: Check credentials");
    assert_eq!(KwtSmsError::InvalidInput("bad phone".to_string()).to_string(), "Invalid input: bad phone");
}

#[test]
fn table_lookups() {
    assert_eq!(API_ERRORS.get("ERR014"), None);
    assert_eq!(API_ERRORS.get("ERR1"), None);
    assert_eq!(API_ERRORS.get("err001"), None);
    assert_eq!(
        API_ERRORS.get("ERR005"),
        Some("This account is blocked. Contact kwtSMS support.")
    );
    assert!(API_ERRORS.contains_key("ERR_INVALID_INPUT"));
    let entries = API_ERRORS.entries();
    assert_eq!(entries.len(), API_ERRORS.len());
    for (code, action) in entries {
        assert_eq!(API_ERRORS.get(code), Some(action));
    }
}

#[test]
fn enrich_leaves_non_objects_and_incomplete_errors() {
    let mut arr: serde_json::Value = serde_json::from_str(r#"["ERROR", "ERR003"]"#).unwrap();
    let before = arr.clone();
    enrich_error(&mut arr);
    assert_eq!(arr, before);

    let mut no_code: serde_json::Value = serde_json::from_str(r#"{"result": "ERROR"}"#).unwrap();
    let before = no_code.clone();
    enrich_error(&mut no_code);
    assert_eq!(no_code, before);

    let mut numeric_code: serde_json::Value =
        serde_json::from_str(r#"{"result": "ERROR", "code": 3}"#).unwrap();
    let before = numeric_code.clone();
    enrich_error(&mut numeric_code);
    assert_eq!(numeric_code, before);
}

#[test]
fn enrich_replaces_existing_action() {
    let mut data: serde_json::Value =
        serde_json::from_str(r#"{"result": "ERROR", "code": "ERR009", "action": "old"}"#).unwrap();
    enrich_error(&mut data);
    assert_eq!(data["action"], "Message is empty. Provide a non-empty message text.");
}

#[test]
fn enrich_keeps_every_other_field() {
    let mut data: serde_json::Value = serde_json::from_str(
        r#"{"result": "ERROR", "code": "ERR010", "description": "Zero", "balance": 0, "list": [1, "a"]}"#,
    )
    .unwrap();
    let before = data.clone();
    enrich_error(&mut data);
    let mut expected = before.as_object().unwrap().clone();
    expected.insert(
        "action".to_string(),
        serde_json::Value::String(API_ERRORS.get("ERR010").unwrap().to_string()),
    );
    assert_eq!(data, serde_json::Value::Object(expected));
}
