//! The decisions that the kwtSMS client takes around its HTTP calls: the
//! client configuration, which recipients are sent to and how they are
//! batched, how the replies of a bulk send add up, when a call is retried,
//! and how an error reply is turned into text.
use vstd::prelude::*;
use vstd::string::StringExecFns;

use crate::errors::KwtSmsError;
use crate::json::{
    json_array, json_as_array, json_as_str, json_clone, json_fields, json_get, json_get_str,
    json_get_u64, json_u64_field,
    json_insert, json_is_object, json_items, json_str, json_str_field,
};
use crate::message::{clean_message, cleaned};
use crate::phone::{input_check, opt_view, validate_phone_input};
use crate::text::{
    chars_of, is_blank, join_seqs, split_chars, split_on, str_eq, string_from_chars,
    trim, trim_chars,
};
use crate::types::{BatchError, InvalidEntry};

verus! {

/// Most numbers that one send request may carry.
pub const MAX_BATCH_SIZE: usize = 200;

/// Pause between two batches of a bulk send, in milliseconds.
pub const BATCH_DELAY_MS: u64 = 500;

/// Pause before a send is repeated after the rate-limit reply `ERR028`, in seconds.
pub const RATE_LIMIT_DELAY_SECS: u64 = 16;

/// Base address of the kwtSMS API.
pub const BASE_URL: &'static str = "https://www.kwtsms.com/API";

/// Seconds to wait before a request is given its next attempt.
pub const TIMEOUT_SECS: u64 = 15;

// ---------------------------------------------------------------------------
// Client configuration
// ---------------------------------------------------------------------------

/// Credentials and settings of a client.
#[derive(Debug, Clone)]
pub struct ClientConfig {
    pub username: String,
    pub password: String,
    pub sender_id: String,
    pub test_mode: bool,
    pub log_file: String,
}

impl ClientConfig {
    /// Create a client configuration.
    ///
    /// - `username`, `password`: surrounding whitespace is removed; both are required.
    /// - `sender_id`: Sender ID (default: "KWT-SMS"). Case sensitive.
    /// - `test_mode`: If true, messages are queued but not delivered, no credits consumed.
    /// - `log_file`: Path to JSONL log file (None or empty string disables logging).
    pub fn new(
        username: &str,
        password: &str,
        sender_id: Option<&str>,
        test_mode: bool,
        log_file: Option<&str>,
    ) -> (r: Result<ClientConfig, KwtSmsError>)
        ensures
            trim(username@).len() == 0 ==> (r matches Err(KwtSmsError::InvalidInput(m)) && m@
                == "Username is required"@),
            trim(username@).len() > 0 && trim(password@).len() == 0 ==> (r matches Err(
                KwtSmsError::InvalidInput(m),
            ) && m@ == "Password is required"@),
            trim(username@).len() > 0 && trim(password@).len() > 0 ==> (r matches Ok(c) && {
                &&& c.username@ == trim(username@)
                &&& c.password@ == trim(password@)
                &&& c.sender_id@ == match sender_id {
                    Some(s) => s@,
                    None => "KWT-SMS"@,
                }
                &&& c.test_mode == test_mode
                &&& c.log_file@ == match log_file {
                    Some(f) => f@,
                    None => Seq::empty(),
                }
            }),
    {
        let user = trim_chars(&chars_of(username));
        let pass = trim_chars(&chars_of(password));
        if user.len() == 0 {
            return Err(KwtSmsError::InvalidInput(String::from_str("Username is required")));
        }
        if pass.len() == 0 {
            return Err(KwtSmsError::InvalidInput(String::from_str("Password is required")));
        }
        let sender = match sender_id {
            Some(s) => String::from_str(s),
            None => String::from_str("KWT-SMS"),
        };
        let log = match log_file {
            Some(f) => String::from_str(f),
            None => String::new(),
        };
        Ok(
            ClientConfig {
                username: string_from_chars(&user),
                password: string_from_chars(&pass),
                sender_id: sender,
                test_mode,
                log_file: log,
            },
        )
    }

    /// The value of the `test` field of a send request: `"1"` in test mode, else `"0"`.
    pub fn test_flag(&self) -> (r: &'static str)
        ensures
            r@ == if self.test_mode {
                "1"@
            } else {
                "0"@
            },
    {
        if self.test_mode {
            "1"
        } else {
            "0"
        }
    }
}

// ---------------------------------------------------------------------------
// Recipients
// ---------------------------------------------------------------------------

/// The trimmed, non-blank pieces among `pieces`.
pub open spec fn nonblank_pieces(pieces: Seq<Seq<char>>) -> Seq<Seq<char>>
    decreases pieces.len(),
{
    if pieces.len() == 0 {
        Seq::empty()
    } else {
        let rest = nonblank_pieces(pieces.drop_last());
        if trim(pieces.last()).len() == 0 {
            rest
        } else {
            rest.push(trim(pieces.last()))
        }
    }
}

/// The phone-number parts of a list of entries, each of which may hold several
/// comma-separated numbers: every part trimmed, blank parts dropped.
pub open spec fn recipient_parts(entries: Seq<Seq<char>>) -> Seq<Seq<char>>
    decreases entries.len(),
{
    if entries.len() == 0 {
        Seq::empty()
    } else {
        recipient_parts(entries.drop_last()) + nonblank_pieces(split_on(entries.last(), ','))
    }
}

/// One step of sorting recipients: a valid part adds its normalized number
/// unless it is there already; an invalid part is recorded with its error.
pub open spec fn sort_step(
    acc: (Seq<Seq<char>>, Seq<(Seq<char>, Seq<char>)>),
    part: Seq<char>,
) -> (Seq<Seq<char>>, Seq<(Seq<char>, Seq<char>)>) {
    let c = input_check(part);
    if c.0 {
        if acc.0.contains(c.2) {
            acc
        } else {
            (acc.0.push(c.2), acc.1)
        }
    } else {
        (
            acc.0,
            acc.1.push(
                (
                    part,
                    match c.1 {
                        Some(e) => e,
                        None => Seq::empty(),
                    },
                ),
            ),
        )
    }
}

/// The valid normalized numbers (each once, in order of first appearance) and
/// the rejected parts with their errors.
pub open spec fn sorted_recipients(parts: Seq<Seq<char>>) -> (
    Seq<Seq<char>>,
    Seq<(Seq<char>, Seq<char>)>,
)
    decreases parts.len(),
{
    if parts.len() == 0 {
        (Seq::empty(), Seq::empty())
    } else {
        sort_step(sorted_recipients(parts.drop_last()), parts.last())
    }
}

pub open spec fn strs_view(v: Seq<&str>) -> Seq<Seq<char>> {
    v.map_values(|s: &str| s@)
}

pub open spec fn strings_view(v: Seq<String>) -> Seq<Seq<char>> {
    v.map_values(|s: String| s@)
}

pub open spec fn entries_view(v: Seq<InvalidEntry>) -> Seq<(Seq<char>, Seq<char>)> {
    v.map_values(|e: InvalidEntry| e.view_pair())
}

/// The recipients of a request, sorted into valid numbers and rejected parts.
pub struct Recipients {
    pub valid: Vec<String>,
    pub invalid: Vec<InvalidEntry>,
}

proof fn lemma_sorted_push(ps: Seq<Seq<char>>, p: Seq<char>)
    ensures
        sorted_recipients(ps.push(p)) == sort_step(sorted_recipients(ps), p),
{
    assert(ps.push(p).drop_last() =~= ps);
}

/// Whether `s` is among `v`.
fn contains_string(v: &Vec<String>, s: &String) -> (r: bool)
    ensures
        r == strings_view(v@).contains(s@),
{
    let mut i: usize = 0;
    while i < v.len()
        invariant
            i <= v.len(),
            forall|j: int| 0 <= j < i ==> v@[j]@ != s@,
        decreases v.len() - i,
    {
        if v[i] == *s {
            assert(strings_view(v@)[i as int] == s@);
            return true;
        }
        i = i + 1;
    }
    assert forall|j: int| 0 <= j < strings_view(v@).len() implies strings_view(v@)[j] != s@ by {
        assert(strings_view(v@)[j] == v@[j]@);
    }
    false
}

/// Adds one part to the sorted recipients.
fn add_part(r: &mut Recipients, part: &Vec<char>)
    ensures
        (strings_view(final(r).valid@), entries_view(final(r).invalid@)) == sort_step(
            (strings_view(old(r).valid@), entries_view(old(r).invalid@)),
            part@,
        ),
{
    let text = string_from_chars(part);
    let (valid, error, normalized) = validate_phone_input(text.as_str());
    if valid {
        if !contains_string(&r.valid, &normalized) {
            r.valid.push(normalized);
            assert(strings_view(r.valid@) =~= strings_view(old(r).valid@).push(normalized@));
        }
    } else {
        let err = match error {
            Some(e) => e,
            None => String::new(),
        };
        r.invalid.push(InvalidEntry { input: text, error: err });
        assert(entries_view(r.invalid@) =~= entries_view(old(r).invalid@).push((part@, err@)));
    }
}

/// Sort the phone-number entries of a request: each entry may hold several
/// comma-separated numbers; blank parts are skipped, each part is validated,
/// valid numbers are kept once each in normalized form, invalid parts are
/// collected with their error.
pub fn sort_recipients(mobile: &[&str]) -> (r: Recipients)
    ensures
        (strings_view(r.valid@), entries_view(r.invalid@)) == sorted_recipients(
            recipient_parts(strs_view(mobile@)),
        ),
{
    let mut r = Recipients { valid: Vec::new(), invalid: Vec::new() };
    let ghost entries = strs_view(mobile@);
    assert(strings_view(r.valid@) =~= Seq::<Seq<char>>::empty());
    assert(entries_view(r.invalid@) =~= Seq::<(Seq<char>, Seq<char>)>::empty());
    assert(entries.take(0) =~= Seq::<Seq<char>>::empty());
    let mut i: usize = 0;
    while i < mobile.len()
        invariant
            i <= mobile.len(),
            entries == strs_view(mobile@),
            (strings_view(r.valid@), entries_view(r.invalid@)) == sorted_recipients(
                recipient_parts(entries.take(i as int)),
            ),
        decreases mobile.len() - i,
    {
        let chars = chars_of(mobile[i]);
        let pieces = split_chars(&chars, ',');
        let ghost before = recipient_parts(entries.take(i as int));
        let ghost pv = split_on(chars@, ',');
        assert(pv.take(0) =~= Seq::<Seq<char>>::empty());
        assert(before + nonblank_pieces(pv.take(0)) =~= before);
        let mut j: usize = 0;
        while j < pieces.len()
            invariant
                j <= pieces.len(),
                pieces@.len() == pv.len(),
                forall|k: int| 0 <= k < pieces@.len() ==> (#[trigger] pieces@[k])@ == pv[k],
                (strings_view(r.valid@), entries_view(r.invalid@)) == sorted_recipients(
                    before + nonblank_pieces(pv.take(j as int)),
                ),
            decreases pieces.len() - j,
        {
            let t = trim_chars(&pieces[j]);
            assert(pv.take(j + 1).drop_last() =~= pv.take(j as int));
            assert(pv.take(j + 1).last() == pv[j as int]);
            if t.len() > 0 {
                proof {
                    lemma_sorted_push(before + nonblank_pieces(pv.take(j as int)), t@);
                    assert(before + nonblank_pieces(pv.take(j + 1)) =~= (before + nonblank_pieces(
                        pv.take(j as int),
                    )).push(t@));
                }
                add_part(&mut r, &t);
            } else {
                assert(nonblank_pieces(pv.take(j + 1)) == nonblank_pieces(pv.take(j as int)));
            }
            j = j + 1;
        }
        assert(pv.take(pieces.len() as int) =~= pv);
        assert(entries.take(i + 1).drop_last() =~= entries.take(i as int));
        assert(entries.take(i + 1).last() == chars@);
        i = i + 1;
    }
    assert(entries.take(mobile.len() as int) =~= entries);
    r
}

/// The valid numbers of a sorted recipient list are distinct.
pub proof fn lemma_sorted_distinct(parts: Seq<Seq<char>>)
    ensures
        sorted_recipients(parts).0.no_duplicates(),
    decreases parts.len(),
{
    if parts.len() > 0 {
        lemma_sorted_distinct(parts.drop_last());
    }
}

/// Part `j` of `parts` passes validation and normalizes to `n`.
pub open spec fn is_source_of(parts: Seq<Seq<char>>, j: int, n: Seq<char>) -> bool {
    0 <= j < parts.len() && input_check(parts[j]).0 && input_check(parts[j]).2 == n
}

/// Every valid number of a sorted recipient list is the normalized form of one
/// of the parts, and that part passes validation.
pub proof fn lemma_sorted_valid(parts: Seq<Seq<char>>, i: int)
    requires
        0 <= i < sorted_recipients(parts).0.len(),
    ensures
        exists|j: int| is_source_of(parts, j, sorted_recipients(parts).0[i]),
    decreases parts.len(),
{
    let p = parts.drop_last();
    let sp = sorted_recipients(p);
    let n = sorted_recipients(parts).0[i];
    if i < sp.0.len() {
        lemma_sorted_valid(p, i);
        assert(n == sp.0[i]);
        let j = choose|j: int| is_source_of(p, j, sp.0[i]);
        assert(parts[j] == p[j]);
        assert(is_source_of(parts, j, n));
    } else {
        let j = parts.len() - 1;
        assert(parts[j] == parts.last());
        assert(is_source_of(parts, j, n));
    }
}

/// Every part that passes validation has its normalized number among the valid numbers.
pub proof fn lemma_sorted_complete(parts: Seq<Seq<char>>)
    ensures
        forall|j: int|
            0 <= j < parts.len() && input_check(#[trigger] parts[j]).0 ==> sorted_recipients(
                parts,
            ).0.contains(input_check(parts[j]).2),
    decreases parts.len(),
{
    if parts.len() > 0 {
        let p = parts.drop_last();
        lemma_sorted_complete(p);
        let s = sorted_recipients(parts);
        let sp = sorted_recipients(p);
        assert(forall|x: Seq<char>| sp.0.contains(x) ==> s.0.contains(x)) by {
            assert forall|x: Seq<char>| sp.0.contains(x) implies s.0.contains(x) by {
                let k = choose|k: int| 0 <= k < sp.0.len() && sp.0[k] == x;
                assert(s.0[k] == x);
            }
        }
        assert forall|j: int| 0 <= j < parts.len() && input_check(#[trigger] parts[j]).0 implies s.0.contains(
            input_check(parts[j]).2,
        ) by {
            if j < p.len() {
                assert(parts[j] == p[j]);
            } else {
                let c = input_check(parts.last());
                if !sp.0.contains(c.2) {
                    assert(s.0[s.0.len() - 1] == c.2);
                }
            }
        }
    }
}


/// Every part that fails validation is among the rejected parts, with its error.
pub proof fn lemma_sorted_rejected(parts: Seq<Seq<char>>, j: int)
    requires
        0 <= j < parts.len(),
        !input_check(parts[j]).0,
    ensures
        sorted_recipients(parts).1.contains(
            (
                parts[j],
                match input_check(parts[j]).1 {
                    Some(e) => e,
                    None => Seq::empty(),
                },
            ),
        ),
    decreases parts.len(),
{
    let p = parts.drop_last();
    let s = sorted_recipients(parts);
    let sp = sorted_recipients(p);
    if j < p.len() {
        lemma_sorted_rejected(p, j);
        assert(parts[j] == p[j]);
        let entry = (
            p[j],
            match input_check(p[j]).1 {
                Some(e) => e,
                None => Seq::empty(),
            },
        );
        let k = choose|k: int| 0 <= k < sp.1.len() && sp.1[k] == entry;
        assert(s.1[k] == entry);
    } else {
        assert(parts[j] == parts.last());
        assert(s.1[s.1.len() - 1] == (
            parts[j],
            match input_check(parts[j]).1 {
                Some(e) => e,
                None => Seq::empty(),
            },
        ));
    }
}

// ---------------------------------------------------------------------------
// Batches
// ---------------------------------------------------------------------------

/// The number of batches that `n` numbers make.
pub open spec fn batch_count(n: nat) -> nat {
    (n + 199) / 200
}

/// The numbers of batch `i`: numbers `200 * i` up to (not including) `200 * i + 200`.
pub open spec fn batch_numbers(numbers: Seq<Seq<char>>, i: int) -> Seq<Seq<char>> {
    let end = if 200 * i + 200 <= numbers.len() {
        200 * i + 200
    } else {
        numbers.len() as int
    };
    numbers.subrange(200 * i, end)
}

/// The `mobile` field of batch `i`: its numbers separated by commas.
pub open spec fn batch_text(numbers: Seq<Seq<char>>, i: int) -> Seq<char> {
    join_seqs(batch_numbers(numbers, i), ","@)
}

/// Each number belongs to exactly the batch `k / 200`, at position `k % 200`,
/// and every batch holds between 1 and 200 numbers.
pub proof fn lemma_batches_partition(numbers: Seq<Seq<char>>)
    ensures
        forall|k: int|
            0 <= k < numbers.len() ==> 0 <= k / 200 < batch_count(numbers.len()) && #[trigger] numbers[k]
                == batch_numbers(numbers, k / 200)[k % 200],
        forall|i: int|
            0 <= i < batch_count(numbers.len()) ==> 1 <= #[trigger] batch_numbers(numbers, i).len()
                <= 200,
{
    assert forall|k: int| 0 <= k < numbers.len() implies 0 <= k / 200 < batch_count(numbers.len())
        && #[trigger] numbers[k] == batch_numbers(numbers, k / 200)[k % 200] by {
        assert(200 * (k / 200) + k % 200 == k);
    }
}

/// The strings `items[from..to]` joined by `sep`.
fn join_range(items: &Vec<String>, from: usize, to: usize, sep: &str) -> (s: String)
    requires
        from <= to <= items.len(),
    ensures
        s@ == join_seqs(strings_view(items@).subrange(from as int, to as int), sep@),
{
    let ghost view = strings_view(items@);
    let mut s = String::new();
    let mut k: usize = from;
    assert(view.subrange(from as int, from as int) =~= Seq::<Seq<char>>::empty());
    while k < to
        invariant
            from <= k <= to <= items.len(),
            view == strings_view(items@),
            s@ == join_seqs(view.subrange(from as int, k as int), sep@),
        decreases to - k,
    {
        if k > from {
            s.append(sep);
        }
        s.append(items[k].as_str());
        assert(view.subrange(from as int, k + 1).drop_last() =~= view.subrange(from as int, k as int));
        assert(view.subrange(from as int, k + 1).last() == items@[k as int]@);
        if k == from {
            assert(view.subrange(from as int, k as int).len() == 0);
        }
        k = k + 1;
    }
    s
}

/// The `mobile` fields of the batches of a bulk send, in order.
pub fn make_batches(numbers: &Vec<String>) -> (batches: Vec<String>)
    ensures
        batches@.len() == batch_count(numbers@.len()),
        forall|i: int|
            0 <= i < batches@.len() ==> (#[trigger] batches@[i])@ == batch_text(
                strings_view(numbers@),
                i,
            ),
{
    let ghost view = strings_view(numbers@);
    let mut batches: Vec<String> = Vec::new();
    let len = numbers.len();
    let count: usize = len / 200 + if len % 200 == 0 {
        0
    } else {
        1
    };
    assert(count == batch_count(len as nat));
    let mut b: usize = 0;
    while b < count
        invariant
            b <= count,
            count == batch_count(len as nat),
            len == numbers@.len(),
            batches@.len() == b,
            view == strings_view(numbers@),
            forall|i: int| 0 <= i < batches@.len() ==> (#[trigger] batches@[i])@ == batch_text(view, i),
        decreases count - b,
    {
        let start: usize = 200 * b;
        let end: usize = if len - start > 200 {
            start + 200
        } else {
            len
        };
        let text = join_range(numbers, start, end, ",");
        batches.push(text);
        b = b + 1;
    }
    batches
}

/// What a send request should do.
pub enum SendPlan {
    /// The message is empty once cleaned: nothing is sent (`ERR009`).
    EmptyMessage,
    /// No number passed validation: nothing is sent (`ERR_INVALID_INPUT`).
    NoValidNumbers { invalid: Vec<InvalidEntry> },
    /// One request to all numbers, comma-separated in `mobile`.
    Single { mobile: String, message: String, sender: String, invalid: Vec<InvalidEntry> },
    /// One request per batch of at most 200 numbers.
    Bulk { batches: Vec<String>, message: String, sender: String, invalid: Vec<InvalidEntry> },
}

/// Plan a send: clean the message, sort the recipients, and decide between no
/// request, a single request and a bulk send.
pub fn plan_send(default_sender: &str, mobile: &[&str], message: &str, sender: Option<&str>) -> (r:
    SendPlan)
    ensures
        ({
            let text = cleaned(message@);
            let rec = sorted_recipients(recipient_parts(strs_view(mobile@)));
            let from = match sender {
                Some(s) => s@,
                None => default_sender@,
            };
            match r {
                SendPlan::EmptyMessage => trim(text).len() == 0,
                SendPlan::NoValidNumbers { invalid } => {
                    &&& trim(text).len() > 0
                    &&& rec.0.len() == 0
                    &&& entries_view(invalid@) == rec.1
                },
                SendPlan::Single { mobile: m, message: body, sender: s, invalid } => {
                    &&& trim(text).len() > 0
                    &&& 0 < rec.0.len() <= 200
                    &&& m@ == join_seqs(rec.0, ","@)
                    &&& body@ == text
                    &&& s@ == from
                    &&& entries_view(invalid@) == rec.1
                },
                SendPlan::Bulk { batches, message: body, sender: s, invalid } => {
                    &&& trim(text).len() > 0
                    &&& rec.0.len() > 200
                    &&& batches@.len() == batch_count(rec.0.len())
                    &&& forall|i: int|
                        0 <= i < batches@.len() ==> (#[trigger] batches@[i])@ == batch_text(
                            rec.0,
                            i,
                        )
                    &&& body@ == text
                    &&& s@ == from
                    &&& entries_view(invalid@) == rec.1
                },
            }
        }),
{
    let text = clean_message(message);
    if is_blank(text.as_str()) {
        return SendPlan::EmptyMessage;
    }
    let from = match sender {
        Some(s) => String::from_str(s),
        None => String::from_str(default_sender),
    };
    let rec = sort_recipients(mobile);
    let Recipients { valid, invalid } = rec;
    if valid.len() == 0 {
        return SendPlan::NoValidNumbers { invalid };
    }
    if valid.len() > MAX_BATCH_SIZE {
        let batches = make_batches(&valid);
        return SendPlan::Bulk { batches, message: text, sender: from, invalid };
    }
    let joined = join_range(&valid, 0, valid.len(), ",");
    assert(strings_view(valid@).subrange(0, valid@.len() as int) =~= strings_view(valid@));
    SendPlan::Single { mobile: joined, message: text, sender: from, invalid }
}

// ---------------------------------------------------------------------------
// Bulk send progress
// ---------------------------------------------------------------------------

/// The parts of one batch reply that a bulk send adds up.
pub struct BatchReply {
    pub result: Option<String>,
    pub msg_id: Option<String>,
    pub numbers: Option<u64>,
    pub points: Option<u64>,
    pub code: Option<String>,
    pub description: Option<String>,
}

/// The parts of the JSON reply `data` of one batch that a bulk send adds up:
/// its string fields `result`, `msg-id`, `code` and `description`, and its
/// integer fields `numbers` and `points-charged`.
pub fn batch_reply_of(data: &serde_json::Value) -> (r: BatchReply)
    ensures
        opt_view(r.result) == json_str_field(*data, "result"@),
        opt_view(r.msg_id) == json_str_field(*data, "msg-id"@),
        r.numbers == json_u64_field(*data, "numbers"@),
        r.points == json_u64_field(*data, "points-charged"@),
        opt_view(r.code) == json_str_field(*data, "code"@),
        opt_view(r.description) == json_str_field(*data, "description"@),
{
    BatchReply {
        result: json_get_str(data, "result"),
        msg_id: json_get_str(data, "msg-id"),
        numbers: json_get_u64(data, "numbers"),
        points: json_get_u64(data, "points-charged"),
        code: json_get_str(data, "code"),
        description: json_get_str(data, "description"),
    }
}

/// The overall result of a bulk send.
#[derive(Debug, Clone, Copy, PartialEq, Eq)]
pub enum BulkStatus {
    AllSent,
    Partial,
    NoneSent,
}

impl BulkStatus {
    /// The `result` field for this status.
    pub fn as_str(&self) -> (r: &'static str)
        ensures
            r@ == match self {
                BulkStatus::AllSent => "OK"@,
                BulkStatus::Partial => "PARTIAL"@,
                BulkStatus::NoneSent => "ERROR"@,
            },
    {
        match self {
            BulkStatus::AllSent => "OK",
            BulkStatus::Partial => "PARTIAL",
            BulkStatus::NoneSent => "ERROR",
        }
    }
}

/// The running totals of a bulk send.
pub struct BulkProgress {
    pub batches: u32,
    pub successes: u32,
    pub numbers: u32,
    pub points: u32,
    pub msg_ids: Vec<String>,
    pub errors: Vec<BatchError>,
}

/// `u32` addition that wraps around, as the totals of a bulk send do.
pub open spec fn wrapped_add(a: u32, b: u32) -> u32 {
    ((a as int + b as int) % 0x1_0000_0000) as u32
}

impl BulkProgress {
    /// The totals before any batch.
    pub fn new(batches: u32) -> (p: BulkProgress)
        ensures
            p.batches == batches,
            p.successes == 0,
            p.numbers == 0,
            p.points == 0,
            p.msg_ids@.len() == 0,
            p.errors@.len() == 0,
    {
        BulkProgress {
            batches,
            successes: 0,
            numbers: 0,
            points: 0,
            msg_ids: Vec::new(),
            errors: Vec::new(),
        }
    }

    /// Adds the reply of batch number `batch` (counted from 1).
    ///
    /// A reply whose `result` is `OK` counts as a success and adds its
    /// message id, number count and points (each count taken modulo 2^32);
    /// any other reply adds an error with its code (`UNKNOWN` if absent) and
    /// description (`Unknown error` if absent).
    pub fn record_reply(&mut self, batch: u32, reply: &BatchReply)
        requires
            old(self).successes < u32::MAX,
        ensures
            final(self).batches == old(self).batches,
            match reply.result {
                Some(r) if r@ == "OK"@ => {
                    &&& final(self).successes == old(self).successes + 1
                    &&& final(self).msg_ids@ == match reply.msg_id {
                        Some(id) => old(self).msg_ids@.push(id),
                        None => old(self).msg_ids@,
                    }
                    &&& final(self).numbers == match reply.numbers {
                        Some(n) => wrapped_add(old(self).numbers, n as u32),
                        None => old(self).numbers,
                    }
                    &&& final(self).points == match reply.points {
                        Some(n) => wrapped_add(old(self).points, n as u32),
                        None => old(self).points,
                    }
                    &&& final(self).errors@ == old(self).errors@
                },
                _ => {
                    &&& final(self).successes == old(self).successes
                    &&& final(self).msg_ids@ == old(self).msg_ids@
                    &&& final(self).numbers == old(self).numbers
                    &&& final(self).points == old(self).points
                    &&& final(self).errors@.len() == old(self).errors@.len() + 1
                    &&& final(self).errors@.drop_last() == old(self).errors@
                    &&& final(self).errors@.last().batch == batch
                    &&& final(self).errors@.last().code@ == match reply.code {
                        Some(c) => c@,
                        None => "UNKNOWN"@,
                    }
                    &&& final(self).errors@.last().description@ == match reply.description {
                        Some(d) => d@,
                        None => "Unknown error"@,
                    }
                    &&& final(self).errors@.last().action is None
                },
            },
    {
        let ok = match &reply.result {
            Some(r) => str_eq(r.as_str(), "OK"),
            None => false,
        };
        if ok {
            self.successes = self.successes + 1;
            match &reply.msg_id {
                Some(id) => self.msg_ids.push(id.clone()),
                None => {},
            }
            match reply.numbers {
                Some(n) => {
                    self.numbers = self.numbers.wrapping_add(n as u32);
                },
                None => {},
            }
            match reply.points {
                Some(n) => {
                    self.points = self.points.wrapping_add(n as u32);
                },
                None => {},
            }
        } else {
            let code = match &reply.code {
                Some(c) => c.clone(),
                None => String::from_str("UNKNOWN"),
            };
            let description = match &reply.description {
                Some(d) => d.clone(),
                None => String::from_str("Unknown error"),
            };
            self.errors.push(BatchError { batch, code, description, action: None });
            assert(self.errors@.drop_last() =~= old(self).errors@);
        }
    }

    /// Adds a batch that failed without a reply (a network error).
    pub fn record_failure(&mut self, batch: u32, description: String)
        ensures
            final(self).batches == old(self).batches,
            final(self).successes == old(self).successes,
            final(self).msg_ids@ == old(self).msg_ids@,
            final(self).numbers == old(self).numbers,
            final(self).points == old(self).points,
            final(self).errors@.len() == old(self).errors@.len() + 1,
            final(self).errors@.drop_last() == old(self).errors@,
            final(self).errors@.last().batch == batch,
            final(self).errors@.last().code@ == "NETWORK"@,
            final(self).errors@.last().description@ == description@,
            final(self).errors@.last().action is None,
    {
        self.errors.push(
            BatchError { batch, code: String::from_str("NETWORK"), description, action: None },
        );
        assert(self.errors@.drop_last() =~= old(self).errors@);
    }

    /// The overall result: `OK` when every batch succeeded, `ERROR` when none
    /// did, `PARTIAL` otherwise.
    pub fn status(&self) -> (s: BulkStatus)
        ensures
            s == BulkStatus::AllSent <==> self.successes == self.batches,
            s == BulkStatus::NoneSent <==> self.successes != self.batches && self.successes == 0,
            s == BulkStatus::Partial <==> self.successes != self.batches && self.successes != 0,
    {
        if self.successes == self.batches {
            BulkStatus::AllSent
        } else if self.successes == 0 {
            BulkStatus::NoneSent
        } else {
            BulkStatus::Partial
        }
    }
}

// ---------------------------------------------------------------------------
// Retries
// ---------------------------------------------------------------------------

/// The pause before retry number `retries_done + 1` of a batch that met a full
/// send queue, in seconds.
pub open spec fn queue_full_backoff_secs(retries_done: nat) -> u64 {
    if retries_done == 0 {
        30
    } else if retries_done == 1 {
        60
    } else {
        120
    }
}

/// When a batch reply has the code `ERR013` (send queue full) and fewer than
/// three retries were made, the pause before the next attempt (30, 60, then
/// 120 seconds); otherwise `None`, and the reply is final.
pub fn queue_full_retry_delay(code: Option<&str>, retries_done: usize) -> (r: Option<u64>)
    ensures
        r == if (code matches Some(c) && c@ == "ERR013"@) && retries_done < 3 {
            Some(queue_full_backoff_secs(retries_done as nat))
        } else {
            None::<u64>
        },
{
    let full = match code {
        Some(c) => str_eq(c, "ERR013"),
        None => false,
    };
    if !full || retries_done >= 3 {
        return None;
    }
    if retries_done == 0 {
        Some(30)
    } else if retries_done == 1 {
        Some(60)
    } else {
        Some(120)
    }
}

/// Whether a send is repeated: its reply has the code `ERR028` (sent to the
/// same number less than 15 seconds ago) and fewer than `max_retries` retries were made.
pub fn rate_limit_retry(code: Option<&str>, retries_done: u32, max_retries: u32) -> (r: bool)
    ensures
        r == (retries_done < max_retries && (code matches Some(c) && c@ == "ERR028"@)),
{
    if retries_done >= max_retries {
        return false;
    }
    match code {
        Some(c) => str_eq(c, "ERR028"),
        None => false,
    }
}

// ---------------------------------------------------------------------------
// Replies
// ---------------------------------------------------------------------------

/// The error text of a failed reply: its description (`Unknown error` when
/// absent), followed by a space and its action when there is a non-empty one.
pub open spec fn error_text(description: Option<Seq<char>>, action: Option<Seq<char>>) -> Seq<char> {
    let d = match description {
        Some(d) => d,
        None => "Unknown error"@,
    };
    match action {
        Some(a) if a.len() > 0 => d + " "@ + a,
        _ => d,
    }
}

pub open spec fn opt_str_view(o: Option<&str>) -> Option<Seq<char>> {
    match o {
        Some(s) => Some(s@),
        None => None,
    }
}

/// The error text of a failed reply.
pub fn reply_error_text(description: Option<&str>, action: Option<&str>) -> (s: String)
    ensures
        s@ == error_text(opt_str_view(description), opt_str_view(action)),
{
    let mut s = match description {
        Some(d) => String::from_str(d),
        None => String::from_str("Unknown error"),
    };
    match action {
        Some(a) => {
            if chars_of(a).len() > 0 {
                s.append(" ");
                s.append(a);
            }
        },
        None => {},
    }
    s
}

/// Whether a reply's `result` field says `OK`.
pub fn reply_is_ok(result: Option<&str>) -> (r: bool)
    ensures
        r == (result matches Some(s) && s@ == "OK"@),
{
    match result {
        Some(s) => str_eq(s, "OK"),
        None => false,
    }
}

/// The code, description and action of an API error.
pub open spec fn api_error_fields(e: Option<KwtSmsError>) -> Option<(Seq<char>, Seq<char>, Seq<char>)> {
    match e {
        Some(KwtSmsError::Api { code, description, action }) => Some((code@, description@, action@)),
        _ => None,
    }
}

/// The error carried by the JSON body of an HTTP error status: an API error
/// when the body has both a code and a description (the action defaulting to
/// empty), else `None` and the body is the reply.
pub fn status_body_error(code: Option<&str>, description: Option<&str>, action: Option<&str>) -> (r:
    Option<KwtSmsError>)
    ensures
        r is None || r matches Some(KwtSmsError::Api { .. }),
        api_error_fields(r) == match (code, description) {
            (Some(c), Some(d)) => Some(
                (
                    c@,
                    d@,
                    match action {
                        Some(a) => a@,
                        None => Seq::empty(),
                    },
                ),
            ),
            _ => None,
        },
{
    match (code, description) {
        (Some(c), Some(d)) => {
            let a = match action {
                Some(a) => String::from_str(a),
                None => String::new(),
            };
            Some(
                KwtSmsError::Api {
                    code: String::from_str(c),
                    description: String::from_str(d),
                    action: a,
                },
            )
        },
        _ => None,
    }
}

/// The address of an API endpoint: `{BASE_URL}/{endpoint}/`.
pub fn api_url(endpoint: &str) -> (url: String)
    ensures
        url@ == BASE_URL@ + "/"@ + endpoint@ + "/"@,
{
    let mut url = String::from_str(BASE_URL);
    url.append("/");
    url.append(endpoint);
    url.append("/");
    url
}

/// Whether a message id is missing (empty or blank).
pub fn msg_id_missing(msg_id: &str) -> (r: bool)
    ensures
        r == (trim(msg_id@).len() == 0),
{
    is_blank(msg_id)
}

// ---------------------------------------------------------------------------
// Validate and sender-id replies
// ---------------------------------------------------------------------------

/// The texts among the JSON values `items`, in order; the values that are not
/// strings are left out.
pub open spec fn string_items(items: Seq<serde_json::Value>) -> Seq<Seq<char>>
    decreases items.len(),
{
    if items.len() == 0 {
        Seq::empty()
    } else {
        let before = string_items(items.drop_last());
        match json_as_str(items.last()) {
            Some(s) => before.push(s),
            None => before,
        }
    }
}

/// The list `key` of the `mobile` field of a validate reply: the texts in the
/// array under that key, or none where it is missing or not an array.
pub open spec fn mobile_list(data: serde_json::Value, key: Seq<char>) -> Seq<Seq<char>> {
    let mobile = json_fields(data)["mobile"@];
    if json_fields(data).contains_key("mobile"@) && json_fields(mobile).contains_key(key) {
        match json_as_array(json_fields(mobile)[key]) {
            Some(items) => string_items(items),
            None => Seq::empty(),
        }
    } else {
        Seq::empty()
    }
}

fn texts_of(items: &Vec<serde_json::Value>) -> (r: Vec<String>)
    ensures
        strings_view(r@) == string_items(items@),
{
    let mut r: Vec<String> = Vec::new();
    let mut i: usize = 0;
    while i < items.len()
        invariant
            i <= items.len(),
            strings_view(r@) == string_items(items@.take(i as int)),
        decreases items.len() - i,
    {
        assert(items@.take(i + 1).drop_last() =~= items@.take(i as int));
        match json_str(&items[i]) {
            Some(s) => {
                r.push(s);
                assert(strings_view(r@) =~= strings_view(r@.drop_last()).push(r@.last()@));
            },
            None => {},
        }
        i = i + 1;
    }
    assert(items@.take(items.len() as int) =~= items@);
    r
}

fn mobile_list_of(data: &serde_json::Value, key: &str) -> (r: Vec<String>)
    ensures
        strings_view(r@) == mobile_list(*data, key@),
{
    if let Some(mobile) = json_get(data, "mobile") {
        if let Some(list) = json_get(mobile, key) {
            if let Some(items) = json_items(list) {
                return texts_of(items);
            }
        }
    }
    let r: Vec<String> = Vec::new();
    assert(strings_view(r@) =~= Seq::<Seq<char>>::empty());
    r
}

/// What a validate call reports of its reply: the numbers the API lists as
/// valid (`ok`), as invalid (`er`) and as not routable (`nr`), and the error
/// text of a failed reply.
pub struct ValidateOutcome {
    pub ok: Vec<String>,
    pub er: Vec<String>,
    pub nr: Vec<String>,
    pub error: Option<String>,
}

/// The outcome of a validate reply whose `result` is `result`: on `OK`, the
/// three lists and no error; otherwise empty lists and the error text of the
/// reply's description and action.
pub fn validate_outcome(
    result: Option<&str>,
    ok: Vec<String>,
    er: Vec<String>,
    nr: Vec<String>,
    description: Option<&str>,
    action: Option<&str>,
) -> (r: ValidateOutcome)
    ensures
        (result matches Some(s) && s@ == "OK"@) ==> {
            &&& r.ok@ == ok@
            &&& r.er@ == er@
            &&& r.nr@ == nr@
            &&& r.error is None
        },
        !(result matches Some(s) && s@ == "OK"@) ==> {
            &&& r.ok@.len() == 0
            &&& r.er@.len() == 0
            &&& r.nr@.len() == 0
            &&& r.error matches Some(e) && e@ == error_text(opt_str_view(description), opt_str_view(action))
        },
{
    if reply_is_ok(result) {
        ValidateOutcome { ok, er, nr, error: None }
    } else {
        ValidateOutcome {
            ok: Vec::new(),
            er: Vec::new(),
            nr: Vec::new(),
            error: Some(reply_error_text(description, action)),
        }
    }
}

pub(crate) fn opt_string_as_str(o: &Option<String>) -> (r: Option<&str>)
    ensures
        opt_str_view(r) == opt_view(*o),
{
    match o {
        Some(s) => Some(s.as_str()),
        None => None,
    }
}

/// The outcome of the JSON reply `data` of a validate call: on a reply whose
/// `result` is `OK`, the texts listed under `mobile.OK`, `mobile.ER` and
/// `mobile.NR` and no error; otherwise empty lists and the error text of the
/// reply's description and action.
pub fn validate_reply(data: &serde_json::Value) -> (r: ValidateOutcome)
    ensures
        json_str_field(*data, "result"@) == Some("OK"@) ==> {
            &&& strings_view(r.ok@) == mobile_list(*data, "OK"@)
            &&& strings_view(r.er@) == mobile_list(*data, "ER"@)
            &&& strings_view(r.nr@) == mobile_list(*data, "NR"@)
            &&& r.error is None
        },
        json_str_field(*data, "result"@) != Some("OK"@) ==> {
            &&& r.ok@.len() == 0
            &&& r.er@.len() == 0
            &&& r.nr@.len() == 0
            &&& r.error matches Some(e) && e@ == error_text(
                json_str_field(*data, "description"@),
                json_str_field(*data, "action"@),
            )
        },
{
    let result = json_get_str(data, "result");
    let description = json_get_str(data, "description");
    let action = json_get_str(data, "action");
    let ok = mobile_list_of(data, "OK");
    let er = mobile_list_of(data, "ER");
    let nr = mobile_list_of(data, "NR");
    validate_outcome(
        opt_string_as_str(&result),
        ok,
        er,
        nr,
        opt_string_as_str(&description),
        opt_string_as_str(&action),
    )
}

/// A sender-id reply as the client returns it: where its `result` is `OK` and
/// it is an object, the field `senderids` is added with the value of its field
/// `senderid` (an empty array where it has none), every other field keeping
/// its value; otherwise the reply unchanged.
pub fn with_senderids(data: &mut serde_json::Value)
    ensures
        (json_str_field(*old(data), "result"@) == Some("OK"@) && json_is_object(*old(data))) ==> {
            &&& json_is_object(*final(data))
            &&& json_fields(*final(data)).dom() == json_fields(*old(data)).dom().insert("senderids"@)
            &&& json_fields(*final(data)).remove("senderids"@) == json_fields(*old(data)).remove(
                "senderids"@,
            )
            &&& if json_fields(*old(data)).contains_key("senderid"@) {
                json_fields(*final(data))["senderids"@] == json_fields(*old(data))["senderid"@]
            } else {
                json_as_array(json_fields(*final(data))["senderids"@]) == Some(
                    Seq::<serde_json::Value>::empty(),
                )
            }
        },
        !(json_str_field(*old(data), "result"@) == Some("OK"@) && json_is_object(*old(data)))
            ==> *final(data) == *old(data),
{
    let result = json_get_str(data, "result");
    let is_ok = match &result {
        Some(s) => str_eq(s.as_str(), "OK"),
        None => false,
    };
    if is_ok {
        let ids = match json_get(data, "senderid") {
            Some(v) => json_clone(v),
            None => json_array(Vec::new()),
        };
        json_insert(data, "senderids", ids);
        proof {
            if json_is_object(*old(data)) {
                assert(json_fields(*final(data)).remove("senderids"@) =~= json_fields(
                    *old(data),
                ).remove("senderids"@));
                assert(json_fields(*final(data)).dom() =~= json_fields(*old(data)).dom().insert(
                    "senderids"@,
                ));
            }
        }
    }
}

} // verus!
