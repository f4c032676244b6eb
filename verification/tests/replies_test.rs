use kwtsms::client::{batch_reply_of, BulkProgress};
use kwtsms::errors::{KwtSmsError, API_ERRORS};
use kwtsms::replies::{
    empty_message_reply, error_reply, invalid_entries_json, missing_msg_id_reply, no_valid_numbers_reply,
    bulk_reply, send_reply,
};
use kwtsms::types::InvalidEntry;

fn parse(text: &str) -> serde_json::Value {
    serde_json::from_str(text).unwrap()
}

fn entry(input: &str, error: &str) -> InvalidEntry {
    InvalidEntry { input: input.to_string(), error: error.to_string() }
}

#[test]
fn rejected_entries_as_json() {
    let v = invalid_entries_json(&[entry("abc", "bad"), entry("12", "short")]);
    assert_eq!(v, parse(r#"[{"input": "abc", "error": "bad"}, {"input": "12", "error": "short"}]"#));
    assert_eq!(invalid_entries_json(&[]), parse("[]"));
}

#[test]
fn error_replies() {
    let api = KwtSmsError::Api {
        code: "ERR003".to_string(),
        description: "Auth".to_string(),
        action: "Check".to_string(),
    };
    assert_eq!(
        error_reply(&api),
        parse(r#"{"result": "ERROR", "code": "ERR003", "description": "Auth", "action": "Check"}"#)
    );
    let net = KwtSmsError::Network("timeout".to_string());
    assert_eq!(
        error_reply(&net),
        parse(r#"{"result": "ERROR", "description": "Network error: timeout"}"#)
    );
}

#[test]
fn refused_sends() {
    let r = empty_message_reply();
    assert_eq!(r["result"], "ERROR");
    assert_eq!(r["code"], "ERR009");
    assert_eq!(r["description"], "Message is empty after cleaning.");
    assert_eq!(r["action"], API_ERRORS.get("ERR009").unwrap());
    assert_eq!(r.as_object().unwrap().len(), 4);

    let r = no_valid_numbers_reply(&[entry("x", "bad")]);
    assert_eq!(r["code"], "ERR_INVALID_INPUT");
    assert_eq!(r["description"], "No valid phone numbers provided.");
    assert_eq!(r["action"], API_ERRORS.get("ERR_INVALID_INPUT").unwrap());
    assert_eq!(r["invalid"], parse(r#"[{"input": "x", "error": "bad"}]"#));
    assert_eq!(r.as_object().unwrap().len(), 5);
}

#[test]
fn send_replies() {
    let ok = parse(r#"{"result": "OK", "msg-id": "abc", "numbers": 1}"#);
    assert_eq!(send_reply(Ok(ok.clone()), &[]), ok);
    let merged = send_reply(Ok(ok.clone()), &[entry("x", "bad")]);
    assert_eq!(
        merged,
        parse(r#"{"result": "OK", "msg-id": "abc", "numbers": 1, "invalid": [{"input": "x", "error": "bad"}]}"#)
    );
    let failed = send_reply(Err(KwtSmsError::Network("timeout".to_string())), &[]);
    assert_eq!(
        failed,
        parse(r#"{"result": "ERROR", "description": "Network error: timeout", "invalid": []}"#)
    );
    let api = KwtSmsError::Api {
        code: "ERR010".to_string(),
        description: "Zero balance".to_string(),
        action: "Recharge".to_string(),
    };
    assert_eq!(
        send_reply(Err(api), &[entry("y", "bad")]),
        parse(
            r#"{"result": "ERROR", "code": "ERR010", "description": "Zero balance", "action": "Recharge",
                "invalid": [{"input": "y", "error": "bad"}]}"#
        )
    );
}

#[test]
fn missing_message_id() {
    assert_eq!(
        missing_msg_id_reply(),
        parse(r#"{"result": "ERROR", "code": "ERR_INVALID_INPUT", "description": "Message ID is required."}"#)
    );
}

#[test]
fn batch_reply_fields() {
    let r = batch_reply_of(&parse(
        r#"{"result": "OK", "msg-id": "m1", "numbers": 3, "points-charged": 6, "balance-after": 10.5}"#,
    ));
    assert_eq!(r.result.as_deref(), Some("OK"));
    assert_eq!(r.msg_id.as_deref(), Some("m1"));
    assert_eq!(r.numbers, Some(3));
    assert_eq!(r.points, Some(6));
    assert_eq!(r.code, None);
    let r = batch_reply_of(&parse(r#"{"result": "ERROR", "code": "ERR013", "description": "Queue full", "numbers": -1}"#));
    assert_eq!(r.code.as_deref(), Some("ERR013"));
    assert_eq!(r.description.as_deref(), Some("Queue full"));
    assert_eq!(r.numbers, None);
    assert_eq!(r.msg_id, None);
}

#[test]
fn bulk_reply_totals() {
    let mut p = BulkProgress::new(2);
    p.record_reply(1, &batch_reply_of(&parse(r#"{"result": "OK", "msg-id": "m1", "numbers": 200, "points-charged": 200}"#)));
    p.record_failure(2, "Network error: timeout".to_string());
    let r = bulk_reply(&p, &[]);
    assert_eq!(
        r,
        parse(
            r#"{"result": "PARTIAL", "bulk": true, "batches": 2, "numbers": 200, "points-charged": 200,
                "msg-ids": ["m1"], "errors": [{"batch": 2, "code": "NETWORK", "description": "Network error: timeout"}]}"#
        )
    );
    let with_invalid = bulk_reply(&p, &[entry("x", "bad")]);
    assert_eq!(with_invalid["invalid"], parse(r#"[{"input": "x", "error": "bad"}]"#));
    assert_eq!(with_invalid.as_object().unwrap().len(), 8);
    let none = bulk_reply(&BulkProgress::new(0), &[]);
    assert_eq!(none["result"], "OK");
}
