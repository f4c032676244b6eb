//! The JSON replies that the client composes itself: the error replies of a
//! call that failed or was refused before it was sent, and the list of the
//! numbers that local validation rejected.
use vstd::prelude::*;

use crate::client::{strings_view, BulkProgress};
use crate::errors::{action_for, action_for_code, KwtSmsError};
use crate::json::{
    json_array, json_as_array, json_as_bool, json_as_str, json_as_u64, json_bool, json_fields,
    json_insert, json_is_object, json_number, json_object, json_string,
};
use crate::types::{BatchError, InvalidEntry};

verus! {

/// The field `key` of the fields `f` is the string `text`.
pub open spec fn has_str(f: Map<Seq<char>, serde_json::Value>, key: Seq<char>, text: Seq<char>) -> bool {
    f.contains_key(key) && json_as_str(f[key]) == Some(text)
}

/// `x` is the JSON object `{"input": .., "error": ..}` of the rejected entry `e`.
pub open spec fn is_entry_json(x: serde_json::Value, e: InvalidEntry) -> bool {
    &&& json_is_object(x)
    &&& json_fields(x).dom() == set!["input"@, "error"@]
    &&& has_str(json_fields(x), "input"@, e.input@)
    &&& has_str(json_fields(x), "error"@, e.error@)
}

/// `v` is the JSON array of the rejected entries `entries`, in order.
pub open spec fn is_entries_json(v: serde_json::Value, entries: Seq<InvalidEntry>) -> bool {
    match json_as_array(v) {
        Some(items) => {
            &&& items.len() == entries.len()
            &&& forall|i: int| 0 <= i < items.len() ==> is_entry_json(#[trigger] items[i], entries[i])
        },
        None => false,
    }
}

/// The fields `f` are those of the error reply of `e`: `result` is `ERROR`;
/// an API error gives its code, description and action, any other error its
/// text as the description.
pub open spec fn is_error_fields(f: Map<Seq<char>, serde_json::Value>, e: KwtSmsError) -> bool {
    &&& has_str(f, "result"@, "ERROR"@)
    &&& match e {
        KwtSmsError::Api { code, description, action } => {
            &&& f.dom() == set!["result"@, "code"@, "description"@, "action"@]
            &&& has_str(f, "code"@, code@)
            &&& has_str(f, "description"@, description@)
            &&& has_str(f, "action"@, action@)
        },
        _ => {
            &&& f.dom() == set!["result"@, "description"@]
            &&& has_str(f, "description"@, e.display_text())
        },
    }
}

/// The fields `f` are those of a refused send: `result` is `ERROR`, with the
/// code, the description and the code's action (empty for an unknown code).
pub open spec fn is_refusal_fields(
    f: Map<Seq<char>, serde_json::Value>,
    code: Seq<char>,
    description: Seq<char>,
) -> bool {
    &&& f.dom() == set!["result"@, "code"@, "description"@, "action"@]
    &&& has_str(f, "result"@, "ERROR"@)
    &&& has_str(f, "code"@, code)
    &&& has_str(f, "description"@, description)
    &&& has_str(
        f,
        "action"@,
        match action_for(code) {
            Some(a) => a,
            None => Seq::empty(),
        },
    )
}

proof fn lemma_keys_distinct()
    ensures
        "result"@ != "code"@ && "result"@ != "description"@ && "result"@ != "action"@,
        "code"@ != "description"@ && "code"@ != "action"@ && "description"@ != "action"@,
        "invalid"@ != "result"@ && "invalid"@ != "code"@,
        "invalid"@ != "description"@ && "invalid"@ != "action"@,
        "input"@ != "error"@,
{
    reveal_strlit("result");
    reveal_strlit("code");
    reveal_strlit("description");
    reveal_strlit("action");
    reveal_strlit("invalid");
    reveal_strlit("input");
    reveal_strlit("error");
    assert("result"@.len() == 6 && "code"@.len() == 4 && "description"@.len() == 11);
    assert("action"@.len() == 6 && "invalid"@.len() == 7);
    assert("input"@.len() == 5 && "error"@.len() == 5);
    assert("result"@[0] != "action"@[0]);
    assert("input"@[0] != "error"@[0]);
}

fn entry_json(e: &InvalidEntry) -> (r: serde_json::Value)
    ensures
        is_entry_json(r, *e),
{
    let mut x = json_object();
    json_insert(&mut x, "input", json_string(e.input.as_str()));
    json_insert(&mut x, "error", json_string(e.error.as_str()));
    proof {
        lemma_keys_distinct();
    }
    assert(json_fields(x).dom() =~= set!["input"@, "error"@]);
    x
}

/// The rejected entries as a JSON array of `{"input": .., "error": ..}` objects.
pub fn invalid_entries_json(entries: &[InvalidEntry]) -> (r: serde_json::Value)
    ensures
        is_entries_json(r, entries@),
{
    let mut items: Vec<serde_json::Value> = Vec::new();
    let mut i: usize = 0;
    while i < entries.len()
        invariant
            i <= entries.len(),
            items@.len() == i,
            forall|j: int| 0 <= j < i ==> is_entry_json(#[trigger] items@[j], entries@[j]),
        decreases entries.len() - i,
    {
        items.push(entry_json(&entries[i]));
        i = i + 1;
    }
    json_array(items)
}

fn error_object(e: &KwtSmsError) -> (r: serde_json::Value)
    ensures
        json_is_object(r),
        is_error_fields(json_fields(r), *e),
{
    let mut x = json_object();
    json_insert(&mut x, "result", json_string("ERROR"));
    match e {
        KwtSmsError::Api { code, description, action } => {
            json_insert(&mut x, "code", json_string(code.as_str()));
            json_insert(&mut x, "description", json_string(description.as_str()));
            json_insert(&mut x, "action", json_string(action.as_str()));
            proof {
                lemma_keys_distinct();
            }
            assert(json_fields(x).dom() =~= set!["result"@, "code"@, "description"@, "action"@]);
        },
        _ => {
            let text = e.to_string();
            json_insert(&mut x, "description", json_string(text.as_str()));
            proof {
                lemma_keys_distinct();
            }
            assert(json_fields(x).dom() =~= set!["result"@, "description"@]);
        },
    }
    x
}

/// The reply that the client returns for a call that failed with `e`.
pub fn error_reply(e: &KwtSmsError) -> (r: serde_json::Value)
    ensures
        json_is_object(r),
        is_error_fields(json_fields(r), *e),
{
    error_object(e)
}

fn refusal_object(code: &str, description: &str) -> (r: serde_json::Value)
    ensures
        json_is_object(r),
        is_refusal_fields(json_fields(r), code@, description@),
{
    let action = match action_for_code(code) {
        Some(a) => a,
        None => "",
    };
    proof {
        reveal_strlit("");
        assert(""@ =~= Seq::<char>::empty());
    }
    assert(action@ == match action_for(code@) {
        Some(a) => a,
        None => Seq::empty(),
    });
    let mut x = json_object();
    json_insert(&mut x, "result", json_string("ERROR"));
    json_insert(&mut x, "code", json_string(code));
    json_insert(&mut x, "description", json_string(description));
    json_insert(&mut x, "action", json_string(action));
    proof {
        lemma_keys_distinct();
    }
    assert(json_fields(x).dom() =~= set!["result"@, "code"@, "description"@, "action"@]);
    x
}

/// The reply to a send whose message is empty once cleaned: error `ERR009`.
pub fn empty_message_reply() -> (r: serde_json::Value)
    ensures
        json_is_object(r),
        is_refusal_fields(json_fields(r), "ERR009"@, "Message is empty after cleaning."@),
{
    refusal_object("ERR009", "Message is empty after cleaning.")
}

/// The reply to a send with no valid number: error `ERR_INVALID_INPUT`, with
/// the rejected entries under `invalid`.
pub fn no_valid_numbers_reply(invalid: &[InvalidEntry]) -> (r: serde_json::Value)
    ensures
        json_is_object(r),
        is_refusal_fields(
            json_fields(r).remove("invalid"@),
            "ERR_INVALID_INPUT"@,
            "No valid phone numbers provided."@,
        ),
        json_fields(r).contains_key("invalid"@),
        is_entries_json(json_fields(r)["invalid"@], invalid@),
{
    let mut x = refusal_object("ERR_INVALID_INPUT", "No valid phone numbers provided.");
    let ghost before = json_fields(x);
    json_insert(&mut x, "invalid", invalid_entries_json(invalid));
    proof {
        lemma_keys_distinct();
        assert(json_fields(x).remove("invalid"@) =~= before);
    }
    x
}

/// The reply to a status or delivery-report request without a message id:
/// `result` `ERROR`, code `ERR_INVALID_INPUT` and a description, nothing else.
pub fn missing_msg_id_reply() -> (r: serde_json::Value)
    ensures
        json_is_object(r),
        json_fields(r).dom() == set!["result"@, "code"@, "description"@],
        has_str(json_fields(r), "result"@, "ERROR"@),
        has_str(json_fields(r), "code"@, "ERR_INVALID_INPUT"@),
        has_str(json_fields(r), "description"@, "Message ID is required."@),
{
    let mut x = json_object();
    json_insert(&mut x, "result", json_string("ERROR"));
    json_insert(&mut x, "code", json_string("ERR_INVALID_INPUT"));
    json_insert(&mut x, "description", json_string("Message ID is required."));
    proof {
        lemma_keys_distinct();
    }
    assert(json_fields(x).dom() =~= set!["result"@, "code"@, "description"@]);
    x
}

/// The reply of a single send with the result `result` of its request, given
/// the entries that local validation rejected. A reply is returned as it came,
/// with the rejected entries added under `invalid` where there are any (and it
/// is an object); an error becomes its error reply with the rejected entries
/// under `invalid`.
pub fn send_reply(result: Result<serde_json::Value, KwtSmsError>, invalid: &[InvalidEntry]) -> (r:
    serde_json::Value)
    ensures
        match result {
            Ok(data) => if invalid@.len() > 0 && json_is_object(data) {
                &&& json_is_object(r)
                &&& json_fields(r).remove("invalid"@) == json_fields(data).remove("invalid"@)
                &&& json_fields(r).contains_key("invalid"@)
                &&& is_entries_json(json_fields(r)["invalid"@], invalid@)
            } else {
                r == data
            },
            Err(e) => {
                &&& json_is_object(r)
                &&& is_error_fields(json_fields(r).remove("invalid"@), e)
                &&& json_fields(r).contains_key("invalid"@)
                &&& is_entries_json(json_fields(r)["invalid"@], invalid@)
            },
        },
{
    match result {
        Ok(data) => {
            let mut data = data;
            if invalid.len() > 0 {
                let ghost before = json_fields(data);
                json_insert(&mut data, "invalid", invalid_entries_json(invalid));
                assert(json_fields(data).remove("invalid"@) =~= before.remove("invalid"@));
            }
            data
        },
        Err(e) => {
            let mut x = error_object(&e);
            let ghost before = json_fields(x);
            json_insert(&mut x, "invalid", invalid_entries_json(invalid));
            proof {
                lemma_keys_distinct();
                assert(json_fields(x).remove("invalid"@) =~= before);
            }
            x
        },
    }
}

/// The field `key` of the fields `f` is the number `n`.
pub open spec fn has_u64(f: Map<Seq<char>, serde_json::Value>, key: Seq<char>, n: u64) -> bool {
    f.contains_key(key) && json_as_u64(f[key]) == Some(n)
}

/// `v` is the JSON array of the strings `texts`, in order.
pub open spec fn is_texts_json(v: serde_json::Value, texts: Seq<Seq<char>>) -> bool {
    match json_as_array(v) {
        Some(items) => {
            &&& items.len() == texts.len()
            &&& forall|i: int| 0 <= i < items.len() ==> json_as_str(#[trigger] items[i]) == Some(texts[i])
        },
        None => false,
    }
}

/// `x` is the JSON object `{"batch": .., "code": .., "description": ..}` of
/// the batch error `e`.
pub open spec fn is_batch_error_json(x: serde_json::Value, e: BatchError) -> bool {
    &&& json_is_object(x)
    &&& json_fields(x).dom() == set!["batch"@, "code"@, "description"@]
    &&& has_u64(json_fields(x), "batch"@, e.batch as u64)
    &&& has_str(json_fields(x), "code"@, e.code@)
    &&& has_str(json_fields(x), "description"@, e.description@)
}

/// `v` is the JSON array of the batch errors `errors`, in order.
pub open spec fn is_batch_errors_json(v: serde_json::Value, errors: Seq<BatchError>) -> bool {
    match json_as_array(v) {
        Some(items) => {
            &&& items.len() == errors.len()
            &&& forall|i: int| 0 <= i < items.len() ==> is_batch_error_json(#[trigger] items[i], errors[i])
        },
        None => false,
    }
}

/// The `result` of a bulk send with the totals `p`: `OK` when every batch
/// succeeded, `ERROR` when none did, `PARTIAL` otherwise.
pub open spec fn bulk_result_text(p: BulkProgress) -> Seq<char> {
    if p.successes == p.batches {
        "OK"@
    } else if p.successes == 0 {
        "ERROR"@
    } else {
        "PARTIAL"@
    }
}

/// The fields `f` are those of the reply of a bulk send with the totals `p`,
/// but for its balance: `result`, `bulk` (true), `batches`, `numbers`,
/// `points-charged`, `msg-ids` and `errors`.
pub open spec fn is_bulk_fields(f: Map<Seq<char>, serde_json::Value>, p: BulkProgress) -> bool {
    &&& f.dom() == set![
        "result"@,
        "bulk"@,
        "batches"@,
        "numbers"@,
        "points-charged"@,
        "msg-ids"@,
        "errors"@,
    ]
    &&& has_str(f, "result"@, bulk_result_text(p))
    &&& json_as_bool(f["bulk"@]) == Some(true)
    &&& has_u64(f, "batches"@, p.batches as u64)
    &&& has_u64(f, "numbers"@, p.numbers as u64)
    &&& has_u64(f, "points-charged"@, p.points as u64)
    &&& is_texts_json(f["msg-ids"@], strings_view(p.msg_ids@))
    &&& is_batch_errors_json(f["errors"@], p.errors@)
}

proof fn lemma_bulk_keys_distinct()
    ensures
        "result"@ != "bulk"@ && "result"@ != "batches"@ && "result"@ != "numbers"@,
        "result"@ != "points-charged"@ && "result"@ != "msg-ids"@ && "result"@ != "errors"@,
        "bulk"@ != "batches"@ && "bulk"@ != "numbers"@ && "bulk"@ != "points-charged"@,
        "bulk"@ != "msg-ids"@ && "bulk"@ != "errors"@,
        "batches"@ != "numbers"@ && "batches"@ != "points-charged"@ && "batches"@ != "msg-ids"@,
        "batches"@ != "errors"@,
        "numbers"@ != "points-charged"@ && "numbers"@ != "msg-ids"@ && "numbers"@ != "errors"@,
        "points-charged"@ != "msg-ids"@ && "points-charged"@ != "errors"@,
        "msg-ids"@ != "errors"@,
        "invalid"@ != "result"@ && "invalid"@ != "bulk"@ && "invalid"@ != "batches"@,
        "invalid"@ != "numbers"@ && "invalid"@ != "points-charged"@,
        "invalid"@ != "msg-ids"@ && "invalid"@ != "errors"@,
        "batch"@ != "code"@ && "batch"@ != "description"@ && "code"@ != "description"@,
{
    reveal_strlit("result");
    reveal_strlit("bulk");
    reveal_strlit("batches");
    reveal_strlit("numbers");
    reveal_strlit("points-charged");
    reveal_strlit("msg-ids");
    reveal_strlit("errors");
    reveal_strlit("invalid");
    reveal_strlit("batch");
    reveal_strlit("code");
    reveal_strlit("description");
    assert("result"@.len() == 6 && "bulk"@.len() == 4 && "batches"@.len() == 7);
    assert("numbers"@.len() == 7 && "points-charged"@.len() == 14 && "msg-ids"@.len() == 7);
    assert("errors"@.len() == 6 && "invalid"@.len() == 7 && "batch"@.len() == 5);
    assert("code"@.len() == 4 && "description"@.len() == 11);
    assert("result"@[0] != "errors"@[0]);
    assert("batches"@[0] != "numbers"@[0] && "batches"@[0] != "msg-ids"@[0]);
    assert("batches"@[0] != "invalid"@[0] && "numbers"@[0] != "msg-ids"@[0]);
    assert("numbers"@[0] != "invalid"@[0] && "msg-ids"@[0] != "invalid"@[0]);
}

fn texts_json(texts: &Vec<String>) -> (r: serde_json::Value)
    ensures
        is_texts_json(r, strings_view(texts@)),
{
    let mut items: Vec<serde_json::Value> = Vec::new();
    let mut i: usize = 0;
    while i < texts.len()
        invariant
            i <= texts.len(),
            items@.len() == i,
            forall|j: int| 0 <= j < i ==> json_as_str(#[trigger] items@[j]) == Some(texts@[j]@),
        decreases texts.len() - i,
    {
        items.push(json_string(texts[i].as_str()));
        i = i + 1;
    }
    json_array(items)
}

fn batch_errors_json(errors: &Vec<BatchError>) -> (r: serde_json::Value)
    ensures
        is_batch_errors_json(r, errors@),
{
    let mut items: Vec<serde_json::Value> = Vec::new();
    let mut i: usize = 0;
    while i < errors.len()
        invariant
            i <= errors.len(),
            items@.len() == i,
            forall|j: int| 0 <= j < i ==> is_batch_error_json(#[trigger] items@[j], errors@[j]),
        decreases errors.len() - i,
    {
        let e = &errors[i];
        let mut x = json_object();
        json_insert(&mut x, "batch", json_number(e.batch as u64));
        json_insert(&mut x, "code", json_string(e.code.as_str()));
        json_insert(&mut x, "description", json_string(e.description.as_str()));
        proof {
            lemma_bulk_keys_distinct();
        }
        assert(json_fields(x).dom() =~= set!["batch"@, "code"@, "description"@]);
        items.push(x);
        i = i + 1;
    }
    json_array(items)
}

/// The reply of a bulk send with the totals `p`, given the entries that local
/// validation rejected, but for its balance: the totals, the message ids and
/// the batch errors, with the rejected entries under `invalid` where there
/// are any.
pub fn bulk_reply(p: &BulkProgress, invalid: &[InvalidEntry]) -> (r: serde_json::Value)
    ensures
        json_is_object(r),
        invalid@.len() == 0 ==> is_bulk_fields(json_fields(r), *p),
        invalid@.len() > 0 ==> {
            &&& is_bulk_fields(json_fields(r).remove("invalid"@), *p)
            &&& json_fields(r).contains_key("invalid"@)
            &&& is_entries_json(json_fields(r)["invalid"@], invalid@)
        },
{
    let status = p.status();
    let result_text = status.as_str();
    let mut x = json_object();
    json_insert(&mut x, "result", json_string(result_text));
    json_insert(&mut x, "bulk", json_bool(true));
    json_insert(&mut x, "batches", json_number(p.batches as u64));
    json_insert(&mut x, "numbers", json_number(p.numbers as u64));
    json_insert(&mut x, "points-charged", json_number(p.points as u64));
    json_insert(&mut x, "msg-ids", texts_json(&p.msg_ids));
    json_insert(&mut x, "errors", batch_errors_json(&p.errors));
    proof {
        lemma_bulk_keys_distinct();
    }
    assert(json_fields(x).dom() =~= set![
        "result"@,
        "bulk"@,
        "batches"@,
        "numbers"@,
        "points-charged"@,
        "msg-ids"@,
        "errors"@,
    ]);
    assert(result_text@ == bulk_result_text(*p));
    if invalid.len() > 0 {
        let ghost before = json_fields(x);
        json_insert(&mut x, "invalid", invalid_entries_json(invalid));
        assert(json_fields(x).remove("invalid"@) =~= before);
    }
    x
}

/// The `result` of a bulk reply: `OK` when every batch was sent, `ERROR` when
/// batches were attempted and none of them was sent, `PARTIAL` when some but
/// not all were sent.
pub proof fn lemma_bulk_result(f: Map<Seq<char>, serde_json::Value>, p: BulkProgress)
    requires
        is_bulk_fields(f, p),
    ensures
        p.successes == p.batches ==> has_str(f, "result"@, "OK"@),
        p.successes == 0 && p.batches > 0 ==> has_str(f, "result"@, "ERROR"@),
        0 < p.successes && p.successes != p.batches ==> has_str(f, "result"@, "PARTIAL"@),
{
}

} // verus!

