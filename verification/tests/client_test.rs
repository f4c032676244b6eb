use kwtsms::client::{
    api_url, make_batches, msg_id_missing, plan_send, queue_full_retry_delay, rate_limit_retry,
    reply_error_text, reply_is_ok, sort_recipients, status_body_error, BatchReply, BulkProgress,
    BulkStatus, ClientConfig, SendPlan, validate_outcome, validate_reply, with_senderids,
};
use kwtsms::errors::KwtSmsError;

#[test]
fn config_trims_and_defaults() {
    let c = ClientConfig::new("  user ", " pass\t", None, true, None).unwrap();
    assert_eq!(c.username, "user");
    assert_eq!(c.password, "pass");
    assert_eq!(c.sender_id, "KWT-SMS");
    assert!(c.test_mode);
    assert_eq!(c.log_file, "");
    assert_eq!(c.test_flag(), "1");
    let c = ClientConfig::new("u", "p", Some("MY-APP"), false, Some("x.log")).unwrap();
    assert_eq!(c.sender_id, "MY-APP");
    assert_eq!(c.log_file, "x.log");
    assert_eq!(c.test_flag(), "0");
}

#[test]
fn config_requires_credentials() {
    assert_eq!(
        ClientConfig::new("  ", "p", None, false, None).unwrap_err(),
        KwtSmsError::InvalidInput("Username is required".to_string())
    );
    assert_eq!(
        ClientConfig::new("u", "", None, false, None).unwrap_err(),
        KwtSmsError::InvalidInput("Password is required".to_string())
    );
}

#[test]
fn recipients_are_split_validated_and_deduplicated() {
    let r = sort_recipients(&["+96598765432, 0096598765432", " ", "abc", "96598765432,,123", "971501234567"]);
    assert_eq!(r.valid, vec!["96598765432".to_string(), "971501234567".to_string()]);
    assert_eq!(r.invalid.len(), 2);
    assert_eq!(r.invalid[0].input, "abc");
    assert_eq!(r.invalid[0].error, "'abc' is not a valid phone number, no digits found");
    assert_eq!(r.invalid[1].input, "123");
    assert_eq!(r.invalid[1].error, "'123' is too short (3 digits, minimum is 7)");
}

#[test]
fn plan_empty_message() {
    assert!(matches!(plan_send("KWT-SMS", &["96598765432"], "\u{1F600}\u{1F601}", None), SendPlan::EmptyMessage));
    assert!(matches!(plan_send("KWT-SMS", &["96598765432"], "  ", None), SendPlan::EmptyMessage));
}

#[test]
fn plan_no_valid_numbers() {
    match plan_send("KWT-SMS", &["user@gmail.com"], "Hi", None) {
        SendPlan::NoValidNumbers { invalid } => {
            assert_eq!(invalid.len(), 1);
            assert_eq!(invalid[0].input, "user@gmail.com");
        }
        _ => panic!("expected no valid numbers"),
    }
}

#[test]
fn plan_single_request() {
    match plan_send("KWT-SMS", &["+96598765432", "abc", "971501234567"], "<b>Hi</b> \u{0661}", Some("APP")) {
        SendPlan::Single { mobile, message, sender, invalid } => {
            assert_eq!(mobile, "96598765432,971501234567");
            assert_eq!(message, "Hi 1");
            assert_eq!(sender, "APP");
            assert_eq!(invalid.len(), 1);
        }
        _ => panic!("expected a single request"),
    }
    match plan_send("KWT-SMS", &["96598765432"], "Hi", None) {
        SendPlan::Single { sender, .. } => assert_eq!(sender, "KWT-SMS"),
        _ => panic!("expected a single request"),
    }
}

fn numbers(n: usize) -> Vec<String> {
    (0..n).map(|i| format!("9999{:07}", i)).collect()
}

#[test]
fn plan_bulk_over_200() {
    let nums = numbers(401);
    let refs: Vec<&str> = nums.iter().map(|s| s.as_str()).collect();
    match plan_send("KWT-SMS", &refs, "Hello", None) {
        SendPlan::Bulk { batches, message, .. } => {
            assert_eq!(batches.len(), 3);
            assert_eq!(batches[0].split(',').count(), 200);
            assert_eq!(batches[1].split(',').count(), 200);
            assert_eq!(batches[2], nums[400]);
            assert_eq!(message, "Hello");
        }
        _ => panic!("expected a bulk send"),
    }
    let two_hundred = numbers(200);
    let refs: Vec<&str> = two_hundred.iter().map(|s| s.as_str()).collect();
    assert!(matches!(plan_send("KWT-SMS", &refs, "Hello", None), SendPlan::Single { .. }));
}

#[test]
fn batches_partition_the_numbers() {
    let nums = numbers(450);
    let batches = make_batches(&nums);
    assert_eq!(batches.len(), 3);
    let rejoined: Vec<String> = batches.iter().flat_map(|b| b.split(',').map(String::from)).collect();
    assert_eq!(rejoined, nums);
    assert!(make_batches(&Vec::new()).is_empty());
}

fn reply(result: &str, code: Option<&str>) -> BatchReply {
    BatchReply {
        result: Some(result.to_string()),
        msg_id: Some(format!("id-{}", result)),
        numbers: Some(200),
        points: Some(400),
        code: code.map(String::from),
        description: None,
    }
}

#[test]
fn bulk_progress_adds_up() {
    let mut p = BulkProgress::new(3);
    p.record_reply(1, &reply("OK", None));
    assert_eq!(p.status(), BulkStatus::Partial);
    p.record_reply(2, &reply("ERROR", Some("ERR010")));
    p.record_failure(3, "Network error: timeout".to_string());
    assert_eq!(p.successes, 1);
    assert_eq!(p.numbers, 200);
    assert_eq!(p.points, 400);
    assert_eq!(p.msg_ids, vec!["id-OK".to_string()]);
    assert_eq!(p.errors.len(), 2);
    assert_eq!(p.errors[0].batch, 2);
    assert_eq!(p.errors[0].code, "ERR010");
    assert_eq!(p.errors[0].description, "Unknown error");
    assert_eq!(p.errors[1].code, "NETWORK");
    assert_eq!(p.status().as_str(), "PARTIAL");

    let mut all = BulkProgress::new(1);
    all.record_reply(1, &reply("OK", None));
    assert_eq!(all.status().as_str(), "OK");
    let mut none = BulkProgress::new(1);
    none.record_reply(1, &BatchReply { result: None, msg_id: None, numbers: None, points: None, code: None, description: None });
    assert_eq!(none.status().as_str(), "ERROR");
    assert_eq!(none.errors[0].code, "UNKNOWN");
}

#[test]
fn bulk_totals_wrap_around() {
    let mut p = BulkProgress::new(2);
    p.record_reply(1, &BatchReply { result: Some("OK".to_string()), msg_id: None, numbers: Some(u32::MAX as u64), points: Some((1u64 << 32) + 5), code: None, description: None });
    p.record_reply(2, &BatchReply { result: Some("OK".to_string()), msg_id: None, numbers: Some(2), points: None, code: None, description: None });
    assert_eq!(p.numbers, 1);
    assert_eq!(p.points, 5);
}

#[test]
fn queue_full_backoff_steps() {
    assert_eq!(queue_full_retry_delay(Some("ERR013"), 0), Some(30));
    assert_eq!(queue_full_retry_delay(Some("ERR013"), 1), Some(60));
    assert_eq!(queue_full_retry_delay(Some("ERR013"), 2), Some(120));
    assert_eq!(queue_full_retry_delay(Some("ERR013"), 3), None);
    assert_eq!(queue_full_retry_delay(Some("ERR028"), 0), None);
    assert_eq!(queue_full_retry_delay(None, 0), None);
}

#[test]
fn rate_limit_retries() {
    assert!(rate_limit_retry(Some("ERR028"), 0, 3));
    assert!(!rate_limit_retry(Some("ERR028"), 3, 3));
    assert!(!rate_limit_retry(Some("ERR013"), 0, 3));
    assert!(!rate_limit_retry(None, 0, 3));
}

#[test]
fn reply_texts() {
    assert_eq!(reply_error_text(Some("Auth"), Some("Check it")), "Auth Check it");
    assert_eq!(reply_error_text(Some("Auth"), Some("")), "Auth");
    assert_eq!(reply_error_text(None, None), "Unknown error");
    assert!(reply_is_ok(Some("OK")));
    assert!(!reply_is_ok(Some("ok")));
    assert!(!reply_is_ok(None));
}

#[test]
fn status_bodies() {
    assert_eq!(
        status_body_error(Some("ERR003"), Some("Auth"), None),
        Some(KwtSmsError::Api { code: "ERR003".to_string(), description: "Auth".to_string(), action: String::new() })
    );
    assert_eq!(status_body_error(Some("ERR003"), None, Some("x")), None);
}

#[test]
fn urls_and_ids() {
    assert_eq!(api_url("send"), "https://www.kwtsms.com/API/send/");
    assert!(msg_id_missing(""));
    assert!(msg_id_missing("  "));
    assert!(!msg_id_missing("abc"));
}

fn strings(items: &[&str]) -> Vec<String> {
    items.iter().map(|s| s.to_string()).collect()
}

#[test]
fn validate_outcome_of_ok_and_failed_replies() {
    let r = validate_outcome(Some("OK"), strings(&["96598765432"]), strings(&["123"]), vec![], None, None);
    assert_eq!(r.ok, strings(&["96598765432"]));
    assert_eq!(r.er, strings(&["123"]));
    assert!(r.nr.is_empty());
    assert_eq!(r.error, None);

    let r = validate_outcome(Some("ERROR"), strings(&["x"]), vec![], vec![], Some("Bad auth"), Some("Check it"));
    assert!(r.ok.is_empty() && r.er.is_empty() && r.nr.is_empty());
    assert_eq!(r.error, Some("Bad auth Check it".to_string()));

    let r = validate_outcome(None, vec![], vec![], vec![], None, Some(""));
    assert_eq!(r.error, Some("Unknown error".to_string()));
}

#[test]
fn validate_reply_reads_the_mobile_lists() {
    let data: serde_json::Value = serde_json::from_str(
        r#"{"result": "OK", "mobile": {"OK": ["96598765432", 7, "96550000000"], "ER": "none", "NR": []}}"#,
    )
    .unwrap();
    let r = validate_reply(&data);
    assert_eq!(r.ok, strings(&["96598765432", "96550000000"]));
    assert!(r.er.is_empty());
    assert!(r.nr.is_empty());
    assert_eq!(r.error, None);

    let no_mobile: serde_json::Value = serde_json::from_str(r#"{"result": "OK"}"#).unwrap();
    let r = validate_reply(&no_mobile);
    assert!(r.ok.is_empty() && r.error.is_none());

    let failed: serde_json::Value = serde_json::from_str(
        r#"{"result": "ERROR", "description": "Auth", "action": "Fix", "mobile": {"OK": ["1"]}}"#,
    )
    .unwrap();
    let r = validate_reply(&failed);
    assert!(r.ok.is_empty());
    assert_eq!(r.error, Some("Auth Fix".to_string()));
}

#[test]
fn senderids_are_copied_on_ok() {
    let mut data: serde_json::Value =
        serde_json::from_str(r#"{"result": "OK", "senderid": ["KWT-SMS", "SHOP"]}"#).unwrap();
    with_senderids(&mut data);
    let expected: serde_json::Value = serde_json::from_str(
        r#"{"result": "OK", "senderid": ["KWT-SMS", "SHOP"], "senderids": ["KWT-SMS", "SHOP"]}"#,
    )
    .unwrap();
    assert_eq!(data, expected);

    let mut bare: serde_json::Value = serde_json::from_str(r#"{"result": "OK"}"#).unwrap();
    with_senderids(&mut bare);
    assert_eq!(bare, serde_json::from_str::<serde_json::Value>(r#"{"result": "OK", "senderids": []}"#).unwrap());

    let mut failed: serde_json::Value =
        serde_json::from_str(r#"{"result": "ERROR", "senderid": ["A"]}"#).unwrap();
    with_senderids(&mut failed);
    assert!(failed.get("senderids").is_none());
}
