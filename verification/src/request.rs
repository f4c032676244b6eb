//! What an API call computes around its HTTP exchange: the request body sent,
//! how a reply body becomes the call's result, and what is logged of it.
use vstd::prelude::*;
use vstd::string::StringExecFns;

use crate::client::{opt_string_as_str, status_body_error};
use crate::errors::{enrich_error, enriched, KwtSmsError};
use crate::json::{
    json_clone, json_from_str, json_get_str, json_is_null, json_null, json_parse, json_render,
    json_str_field, json_to_string,
};
use crate::phone::opt_view;
use crate::text::{decimal, push_decimal};

verus! {

/// What is logged of an API call: the response (`null` where no JSON reply was
/// read), whether the reply was OK, and the error text where there is one.
pub struct LogRecord {
    pub response: serde_json::Value,
    pub ok: bool,
    pub error: Option<String>,
}

/// The outcome of an API call once its reply body is read: the call's result,
/// and what is logged of it (nothing where `log` is `None`).
pub struct Reply {
    pub result: Result<serde_json::Value, KwtSmsError>,
    pub log: Option<LogRecord>,
}

/// `result` is a network error with the text `msg`.
pub open spec fn is_network_error(result: Result<serde_json::Value, KwtSmsError>, msg: Seq<char>) -> bool {
    result matches Err(KwtSmsError::Network(m)) && m@ == msg
}

/// The result of an HTTP error status whose body is the JSON value `data`: an
/// API error where `data` has a string code and a string description (with its
/// string action, or an empty one), else `data` itself.
pub open spec fn status_result(data: serde_json::Value, result: Result<serde_json::Value, KwtSmsError>) -> bool {
    match (json_str_field(data, "code"@), json_str_field(data, "description"@)) {
        (Some(c), Some(d)) => match result {
            Err(KwtSmsError::Api { code, description, action }) => {
                &&& code@ == c
                &&& description@ == d
                &&& action@ == match json_str_field(data, "action"@) {
                    Some(a) => a,
                    None => Seq::empty(),
                }
            },
            _ => false,
        },
        _ => result == Ok::<serde_json::Value, KwtSmsError>(data),
    }
}

/// The error text of an HTTP error status whose body is not JSON.
pub open spec fn status_text(status: u16, body: Seq<char>) -> Seq<char> {
    "HTTP "@ + decimal(status as nat) + ": "@ + body
}

/// The body of a request: the payload as JSON text, or a network error where
/// it cannot be rendered.
pub fn request_body(payload: &serde_json::Value) -> (r: Result<String, KwtSmsError>)
    ensures
        match json_render(*payload) {
            Ok(t) => r matches Ok(s) && s@ == t,
            Err(e) => r matches Err(KwtSmsError::Network(m)) && m@ == "JSON serialize error: "@ + e,
        },
{
    match json_to_string(payload) {
        Ok(s) => Ok(s),
        Err(e) => {
            let mut m = String::from_str("JSON serialize error: ");
            m.append(e.as_str());
            Err(KwtSmsError::Network(m))
        },
    }
}

/// The outcome of a reply with a success status. A body that is not JSON is
/// a network error, and nothing is logged. A JSON body is enriched with its
/// action and returned; it is logged, OK when its `result` is `"OK"`.
pub fn success_reply(body: &str) -> (r: Reply)
    ensures
        match json_parse(body@) {
            Err(e) => {
                &&& is_network_error(r.result, "Invalid JSON response: "@ + e)
                &&& r.log is None
            },
            Ok(v) => match (r.result, r.log) {
                (Ok(d), Some(l)) => {
                    &&& enriched(v, d)
                    &&& l.response == d
                    &&& l.ok == (json_str_field(d, "result"@) == Some("OK"@))
                    &&& l.error is None
                },
                _ => false,
            },
        },
{
    match json_from_str(body) {
        Ok(parsed) => {
            let mut data = parsed;
            enrich_error(&mut data);
            let result = json_get_str(&data, "result");
            let ok = match &result {
                Some(s) => crate::text::str_eq(s.as_str(), "OK"),
                None => false,
            };
            proof {
                reveal_strlit("OK");
            }
            let record = LogRecord { response: json_clone(&data), ok, error: None };
            Reply { result: Ok(data), log: Some(record) }
        },
        Err(e) => {
            let mut m = String::from_str("Invalid JSON response: ");
            m.append(e.as_str());
            Reply { result: Err(KwtSmsError::Network(m)), log: None }
        },
    }
}

/// The outcome of a reply with an HTTP error status, whose body is `body`. A
/// JSON body is enriched and logged as not OK; it is an API error where it has
/// a code and a description, else the result. Any other body is a network
/// error `HTTP {status}: {body}`, logged with a `null` response.
pub fn status_reply(status: u16, body: &str) -> (r: Reply)
    ensures
        match json_parse(body@) {
            Ok(v) => match r.log {
                Some(l) => {
                    &&& enriched(v, l.response)
                    &&& !l.ok
                    &&& l.error is None
                    &&& status_result(l.response, r.result)
                },
                None => false,
            },
            Err(_) => match r.log {
                Some(l) => {
                    &&& is_network_error(r.result, status_text(status, body@))
                    &&& json_is_null(l.response)
                    &&& !l.ok
                    &&& opt_view(l.error) == Some(status_text(status, body@))
                },
                None => false,
            },
        },
{
    match json_from_str(body) {
        Ok(parsed) => {
            let mut data = parsed;
            enrich_error(&mut data);
            let code = json_get_str(&data, "code");
            let description = json_get_str(&data, "description");
            let action = json_get_str(&data, "action");
            let err = status_body_error(opt_string_as_str(&code), opt_string_as_str(&description), opt_string_as_str(&action));
            let record = LogRecord { response: json_clone(&data), ok: false, error: None };
            match err {
                Some(e) => Reply { result: Err(e), log: Some(record) },
                None => Reply { result: Ok(data), log: Some(record) },
            }
        },
        Err(_) => {
            let mut m = String::from_str("HTTP ");
            push_decimal(&mut m, status as u128);
            m.append(": ");
            m.append(body);
            let record = LogRecord { response: json_null(), ok: false, error: Some(m.clone()) };
            Reply { result: Err(KwtSmsError::Network(m)), log: Some(record) }
        },
    }
}

/// The body read for an HTTP error status whose body cannot be read:
/// `HTTP {status} error`.
pub fn status_fallback_body(status: u16) -> (s: String)
    ensures
        s@ == "HTTP "@ + decimal(status as nat) + " error"@,
{
    let mut s = String::from_str("HTTP ");
    push_decimal(&mut s, status as u128);
    s.append(" error");
    s
}

} // verus!
