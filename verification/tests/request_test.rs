use kwtsms::errors::KwtSmsError;
use kwtsms::request::{request_body, status_fallback_body, status_reply, success_reply};

fn parse(text: &str) -> serde_json::Value {
    serde_json::from_str(text).unwrap()
}

#[test]
fn request_body_is_the_payload_as_json() {
    let payload = parse(r#"{"username": "u", "mobile": "96598765432"}"#);
    let body = request_body(&payload).unwrap();
    assert_eq!(parse(&body), payload);
    assert!(!body.contains(' '));
}

#[test]
fn success_reply_enriches_and_logs() {
    let reply = success_reply(r#"{"result": "ERROR", "code": "ERR003", "description": "Auth"}"#);
    let data = reply.result.unwrap();
    assert_eq!(data["action"], kwtsms::errors::API_ERRORS.get("ERR003").unwrap());
    assert_eq!(data["description"], "Auth");
    let log = reply.log.unwrap();
    assert_eq!(log.response, data);
    assert!(!log.ok);
    assert_eq!(log.error, None);

    let ok = success_reply(r#"{"result": "OK", "available": 10}"#);
    assert!(ok.log.unwrap().ok);
    assert_eq!(ok.result.unwrap(), parse(r#"{"result": "OK", "available": 10}"#));
}

#[test]
fn success_reply_rejects_a_body_that_is_not_json() {
    let reply = success_reply("<html>oops</html>");
    let parse_error = serde_json::from_str::<serde_json::Value>("<html>oops</html>").unwrap_err();
    assert_eq!(
        reply.result,
        Err(KwtSmsError::Network(format!("Invalid JSON response: {}", parse_error)))
    );
    assert!(reply.log.is_none());
}

#[test]
fn status_reply_with_an_api_error() {
    let reply = status_reply(403, r#"{"result": "ERROR", "code": "ERR003", "description": "Auth"}"#);
    let action = kwtsms::errors::API_ERRORS.get("ERR003").unwrap().to_string();
    assert_eq!(
        reply.result,
        Err(KwtSmsError::Api { code: "ERR003".to_string(), description: "Auth".to_string(), action: action.clone() })
    );
    let log = reply.log.unwrap();
    assert_eq!(log.response["action"], action.as_str());
    assert!(!log.ok);
    assert_eq!(log.error, None);
}

#[test]
fn status_reply_with_json_but_no_error_fields() {
    let reply = status_reply(500, r#"{"message": "busy"}"#);
    assert_eq!(reply.result, Ok(parse(r#"{"message": "busy"}"#)));
    assert!(!reply.log.unwrap().ok);
    let no_description = status_reply(403, r#"{"code": "ERR003"}"#);
    assert_eq!(no_description.result, Ok(parse(r#"{"code": "ERR003"}"#)));
}

#[test]
fn status_reply_with_a_body_that_is_not_json() {
    let reply = status_reply(502, "Bad Gateway");
    assert_eq!(reply.result, Err(KwtSmsError::Network("HTTP 502: Bad Gateway".to_string())));
    let log = reply.log.unwrap();
    assert!(log.response.is_null());
    assert!(!log.ok);
    assert_eq!(log.error, Some("HTTP 502: Bad Gateway".to_string()));
}

#[test]
fn fallback_body_names_the_status() {
    assert_eq!(status_fallback_body(503), "HTTP 503 error");
    assert_eq!(status_fallback_body(0), "HTTP 0 error");
}
