use kwtsms::logger::{days_to_date, log_line, mask_password, utc_timestamp};

#[test]
fn timestamps() {
    assert_eq!(utc_timestamp(0, 0), "1970-01-01T00:00:00.000Z");
    assert_eq!(utc_timestamp(951782400 + 3661, 5), "2000-02-29T01:01:01.005Z");
    assert_eq!(utc_timestamp(1704067199, 999), "2023-12-31T23:59:59.999Z");
}

#[test]
fn dates() {
    assert_eq!(days_to_date(0), (1970, 1, 1));
    assert_eq!(days_to_date(19723), (2024, 1, 1));
    assert_eq!(days_to_date(11016), (2000, 2, 29));
    assert_eq!(days_to_date(u64::MAX / 86400).0 > 9999, true);
    // Each day after the previous one is the next date.
    let mut prev = days_to_date(0);
    for d in 1..3000u64 {
        let cur = days_to_date(d);
        assert!(cur > prev);
        prev = cur;
    }
}

#[test]
fn password_is_masked() {
    let mut v: serde_json::Value =
        serde_json::from_str(r#"{"username": "u", "password": "secret"}"#).unwrap();
    mask_password(&mut v);
    assert_eq!(v["password"], "***");
    assert_eq!(v["username"], "u");
    let mut w: serde_json::Value = serde_json::from_str(r#"{"username": "u"}"#).unwrap();
    mask_password(&mut w);
    assert!(w.get("password").is_none());
}

#[test]
fn leap_day_is_followed_by_the_first_of_march() {
    assert_eq!(days_to_date(11016), (2000, 2, 29));
    assert_eq!(days_to_date(11017), (2000, 3, 1));
    assert_eq!(days_to_date(364), (1970, 12, 31));
    assert_eq!(days_to_date(365), (1971, 1, 1));
    assert_eq!(days_to_date(47540), (2100, 2, 28));
    assert_eq!(days_to_date(47541), (2100, 3, 1));
}

#[test]
fn masking_keeps_other_fields() {
    let mut v: serde_json::Value = serde_json::from_str(
        r#"{"username": "u", "password": 42, "mobile": ["965"], "test": 1}"#,
    )
    .unwrap();
    mask_password(&mut v);
    let expected: serde_json::Value = serde_json::from_str(
        r#"{"username": "u", "password": "***", "mobile": ["965"], "test": 1}"#,
    )
    .unwrap();
    assert_eq!(v, expected);
    let mut arr: serde_json::Value = serde_json::from_str(r#"["password"]"#).unwrap();
    mask_password(&mut arr);
    assert_eq!(arr, serde_json::from_str::<serde_json::Value>(r#"["password"]"#).unwrap());
}

#[test]
fn log_line_holds_the_entry() {
    let request: serde_json::Value =
        serde_json::from_str(r#"{"username": "u", "password": "secret", "mobile": "96598765432"}"#)
            .unwrap();
    let response: serde_json::Value = serde_json::from_str(r#"{"result": "OK", "points": 2}"#).unwrap();
    let line = log_line(951782400 + 3661, 5, "send", &request, &response, true, None).unwrap();
    assert!(!line.contains('\n'));
    let entry: serde_json::Value = serde_json::from_str(&line).unwrap();
    let expected: serde_json::Value = serde_json::from_str(
        r#"{"ts": "2000-02-29T01:01:01.005Z", "endpoint": "send",
            "request": {"username": "u", "password": "***", "mobile": "96598765432"},
            "response": {"result": "OK", "points": 2}, "ok": true, "error": null}"#,
    )
    .unwrap();
    assert_eq!(entry, expected);

    let failed = log_line(0, 0, "balance", &request, &serde_json::Value::Null, false, Some("HTTP 500: oops"))
        .unwrap();
    let entry: serde_json::Value = serde_json::from_str(&failed).unwrap();
    assert_eq!(entry["ts"], "1970-01-01T00:00:00.000Z");
    assert_eq!(entry["error"], "HTTP 500: oops");
    assert_eq!(entry["ok"], false);
    assert!(entry["response"].is_null());
    assert_eq!(entry.as_object().unwrap().len(), 6);
}
