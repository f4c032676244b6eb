//! The parts of JSONL request logging that compute: the UTC timestamp of an
//! entry and the masking of the password in the logged request.
use vstd::prelude::*;
use vstd::string::StringExecFns;

use crate::json::{
    json_as_bool, json_as_str, json_bool, json_clone, json_fields, json_has_key, json_insert,
    json_is_null, json_is_object, json_null, json_object, json_render, json_set_str, json_string,
    json_to_string, str_field_set,
};
use crate::client::opt_str_view;
use crate::text::{push_zero_padded, zero_padded};

verus! {

// ---------------------------------------------------------------------------
// The proleptic Gregorian calendar
// ---------------------------------------------------------------------------

pub open spec fn is_leap_year(y: int) -> bool {
    y % 4 == 0 && (y % 100 != 0 || y % 400 == 0)
}

pub open spec fn year_length(y: int) -> nat {
    if is_leap_year(y) {
        366
    } else {
        365
    }
}

pub open spec fn month_length(y: int, m: int) -> nat {
    if m == 2 {
        if is_leap_year(y) {
            29
        } else {
            28
        }
    } else if m == 4 || m == 6 || m == 9 || m == 11 {
        30
    } else {
        31
    }
}

/// Days from 1970-01-01 to the first of January of year `y`.
pub open spec fn days_before_year(y: nat) -> nat
    decreases y,
{
    if y <= 1970 {
        0
    } else {
        days_before_year((y - 1) as nat) + year_length(y - 1)
    }
}

/// Days from the first of January of year `y` to the first of month `m`.
pub open spec fn days_before_month(y: nat, m: nat) -> nat
    decreases m,
{
    if m <= 1 {
        0
    } else {
        days_before_month(y, (m - 1) as nat) + month_length(y as int, m - 1)
    }
}

/// `y-m-d` is a date of 1970 or later.
pub open spec fn is_date(y: nat, m: nat, d: nat) -> bool {
    y >= 1970 && 1 <= m <= 12 && 1 <= d <= month_length(y as int, m as int)
}

/// The number of days from 1970-01-01 to `y-m-d`.
pub open spec fn day_number(y: nat, m: nat, d: nat) -> nat {
    (days_before_year(y) + days_before_month(y, m) + d - 1) as nat
}

/// The date that lies `days` days after 1970-01-01.
pub open spec fn date_of(days: nat) -> (nat, nat, nat) {
    choose|t: (nat, nat, nat)| is_date(t.0, t.1, t.2) && day_number(t.0, t.1, t.2) == days
}

pub open spec fn leap_count(x: int) -> int {
    x / 4 - x / 100 + x / 400
}

proof fn lemma_days_before_year_closed(y: nat)
    requires
        y >= 1970,
    ensures
        days_before_year(y) == 365 * (y - 1970) + leap_count(y - 1) - leap_count(1969),
    decreases y,
{
    if y > 1970 {
        lemma_days_before_year_closed((y - 1) as nat);
        let x = y - 1;
        assert(x / 4 - (x - 1) / 4 == if x % 4 == 0 {
            1int
        } else {
            0int
        });
        assert(x / 100 - (x - 1) / 100 == if x % 100 == 0 {
            1int
        } else {
            0int
        });
        assert(x / 400 - (x - 1) / 400 == if x % 400 == 0 {
            1int
        } else {
            0int
        });
    }
}

/// Four hundred years hold 146097 days.
proof fn lemma_era(y: nat)
    requires
        y >= 1970,
    ensures
        days_before_year(y + 400) == days_before_year(y) + 146097,
{
    lemma_days_before_year_closed(y);
    lemma_days_before_year_closed(y + 400);
    let x = y - 1;
    assert((x + 400) / 4 == x / 4 + 100);
    assert((x + 400) / 100 == x / 100 + 4);
    assert((x + 400) / 400 == x / 400 + 1);
}

proof fn lemma_eras(k: nat)
    ensures
        days_before_year(1970 + 400 * k) == 146097 * k,
    decreases k,
{
    if k > 0 {
        lemma_eras((k - 1) as nat);
        lemma_era((1970 + 400 * (k - 1)) as nat);
        assert(1970 + 400 * (k - 1) + 400 == 1970 + 400 * k);
    }
}

proof fn lemma_year_of_months(y: nat)
    ensures
        days_before_month(y, 13) == year_length(y as int),
{
    reveal_with_fuel(days_before_month, 13);
}

proof fn lemma_months_monotonic(y: nat, m1: nat, m2: nat)
    requires
        m1 <= m2,
    ensures
        days_before_month(y, m1) <= days_before_month(y, m2),
    decreases m2,
{
    if m1 < m2 {
        lemma_months_monotonic(y, m1, (m2 - 1) as nat);
    }
}

proof fn lemma_years_monotonic(y1: nat, y2: nat)
    requires
        y1 <= y2,
    ensures
        days_before_year(y1) <= days_before_year(y2),
    decreases y2,
{
    if y1 < y2 {
        lemma_years_monotonic(y1, (y2 - 1) as nat);
    }
}

/// Each number of days since 1970-01-01 is the day number of exactly one date.
pub proof fn lemma_day_number_unique(y1: nat, m1: nat, d1: nat, y2: nat, m2: nat, d2: nat)
    requires
        is_date(y1, m1, d1),
        is_date(y2, m2, d2),
        day_number(y1, m1, d1) == day_number(y2, m2, d2),
    ensures
        y1 == y2 && m1 == m2 && d1 == d2,
{
    assert forall|y: nat, m: nat, d: nat| #[trigger] is_date(y, m, d) implies days_before_month(y, m) + d
        <= year_length(y as int) by {
        lemma_months_monotonic(y, m + 1, 13);
        lemma_year_of_months(y);
    }
    if y1 < y2 {
        lemma_years_monotonic(y1 + 1, y2);
        assert(false);
    } else if y2 < y1 {
        lemma_years_monotonic(y2 + 1, y1);
        assert(false);
    } else if m1 < m2 {
        lemma_months_monotonic(y1, m1 + 1, m2);
        assert(false);
    } else if m2 < m1 {
        lemma_months_monotonic(y1, m2 + 1, m1);
        assert(false);
    }
}

/// The calendar day after `date`.
pub open spec fn next_day(date: (nat, nat, nat)) -> (nat, nat, nat) {
    if date.2 < month_length(date.0 as int, date.1 as int) {
        (date.0, date.1, date.2 + 1)
    } else if date.1 < 12 {
        (date.0, date.1 + 1, 1)
    } else {
        (date.0 + 1, 1, 1)
    }
}

proof fn lemma_next_day_number(date: (nat, nat, nat))
    requires
        is_date(date.0, date.1, date.2),
    ensures
        is_date(next_day(date).0, next_day(date).1, next_day(date).2),
        day_number(next_day(date).0, next_day(date).1, next_day(date).2) == day_number(
            date.0,
            date.1,
            date.2,
        ) + 1,
{
    let (y, m, d) = date;
    if d < month_length(y as int, m as int) {
    } else if m < 12 {
        assert(days_before_month(y, m + 1) == days_before_month(y, m) + month_length(y as int, m as int));
    } else {
        lemma_year_of_months(y);
        assert(days_before_month(y, 13) == days_before_month(y, 12) + month_length(y as int, 12));
        assert(days_before_year(y + 1) == days_before_year(y) + year_length(y as int));
        assert(days_before_month(y + 1, 1) == 0);
    }
}

proof fn lemma_date_of_valid(n: nat)
    ensures
        is_date(date_of(n).0, date_of(n).1, date_of(n).2),
        day_number(date_of(n).0, date_of(n).1, date_of(n).2) == n,
    decreases n,
{
    if n == 0 {
        let w: (nat, nat, nat) = (1970, 1, 1);
        assert(is_date(w.0, w.1, w.2) && day_number(w.0, w.1, w.2) == n);
    } else {
        lemma_date_of_valid((n - 1) as nat);
        let w = next_day(date_of((n - 1) as nat));
        lemma_next_day_number(date_of((n - 1) as nat));
        assert(is_date(w.0, w.1, w.2) && day_number(w.0, w.1, w.2) == n);
    }
}

/// Day 0 is 1970-01-01, and the date of each following day is the calendar
/// day after the date of the day before it.
pub proof fn lemma_next_day(n: nat)
    ensures
        date_of(0) == (1970nat, 1nat, 1nat),
        date_of(n + 1) == next_day(date_of(n)),
{
    lemma_date_of_valid(0);
    let z = date_of(0);
    assert(day_number(1970, 1, 1) == 0);
    lemma_day_number_unique(z.0, z.1, z.2, 1970, 1, 1);
    lemma_date_of_valid(n);
    lemma_date_of_valid(n + 1);
    let t = date_of(n);
    let u = date_of(n + 1);
    lemma_next_day_number(t);
    let w = next_day(t);
    lemma_day_number_unique(u.0, u.1, u.2, w.0, w.1, w.2);
}

fn year_len(y: u64) -> (n: u64)
    ensures
        n == year_length(y as int),
{
    if y % 4 == 0 && (y % 100 != 0 || y % 400 == 0) {
        366
    } else {
        365
    }
}

fn month_len(y: u64, m: u64) -> (n: u64)
    ensures
        n == month_length(y as int, m as int),
{
    if m == 2 {
        if y % 4 == 0 && (y % 100 != 0 || y % 400 == 0) {
            29
        } else {
            28
        }
    } else if m == 4 || m == 6 || m == 9 || m == 11 {
        30
    } else {
        31
    }
}

/// The date `(year, month, day)` that lies `days` days after 1970-01-01.
pub fn days_to_date(days: u64) -> (r: (u64, u64, u64))
    ensures
        is_date(r.0 as nat, r.1 as nat, r.2 as nat),
        day_number(r.0 as nat, r.1 as nat, r.2 as nat) == days,
        (r.0 as nat, r.1 as nat, r.2 as nat) == date_of(days as nat),
{
    let eras: u64 = days / 146097;
    let mut rem: u64 = days % 146097;
    let mut y: u64 = 1970 + 400 * eras;
    proof {
        lemma_eras(eras as nat);
    }
    let ghost y0 = y;
    while rem >= year_len(y)
        invariant
            y0 <= y <= y0 + 400,
            y0 == 1970 + 400 * eras,
            eras <= days / 146097,
            days == days_before_year(y as nat) + rem,
            rem + days_before_year(y as nat) - days_before_year(y0 as nat) < 146097,
        decreases rem,
    {
        let n = year_len(y);
        proof {
            if y == y0 + 400 {
                lemma_era(y0 as nat);
                assert(false);
            }
        }
        rem = rem - n;
        y = y + 1;
    }
    let mut m: u64 = 1;
    while rem >= month_len(y, m)
        invariant
            1 <= m <= 12,
            y >= 1970,
            days == days_before_year(y as nat) + days_before_month(y as nat, m as nat) + rem,
            days_before_month(y as nat, m as nat) + rem < year_length(y as int),
        decreases 12 - m,
    {
        proof {
            if m == 12 {
                lemma_year_of_months(y as nat);
                assert(days_before_month(y as nat, 13) == days_before_month(y as nat, 12)
                    + month_length(y as int, 12));
                assert(false);
            }
        }
        rem = rem - month_len(y, m);
        m = m + 1;
    }
    let r = (y, m, rem + 1);
    proof {
        let w: (nat, nat, nat) = (y as nat, m as nat, (rem + 1) as nat);
        assert(is_date(w.0, w.1, w.2) && day_number(w.0, w.1, w.2) == days);
        assert(exists|t: (nat, nat, nat)| is_date(t.0, t.1, t.2) && day_number(t.0, t.1, t.2) == days);
        let t = date_of(days as nat);
        lemma_day_number_unique(t.0, t.1, t.2, y as nat, m as nat, (rem + 1) as nat);
    }
    r
}

/// The text of a UTC timestamp `YYYY-MM-DDTHH:MM:SS.mmmZ` for `secs` seconds
/// and `millis` milliseconds after the Unix epoch.
pub open spec fn timestamp_text(secs: nat, millis: nat) -> Seq<char> {
    let date = date_of(secs / 86400);
    let tod = secs % 86400;
    zero_padded(date.0, 4) + "-"@ + zero_padded(date.1, 2) + "-"@ + zero_padded(date.2, 2) + "T"@
        + zero_padded(tod / 3600, 2) + ":"@ + zero_padded((tod % 3600) / 60, 2) + ":"@
        + zero_padded(tod % 60, 2) + "."@ + zero_padded(millis, 3) + "Z"@
}

/// Format a UTC timestamp (ISO-8601, millisecond precision) from a Unix time.
pub fn utc_timestamp(secs: u64, millis: u32) -> (s: String)
    ensures
        s@ == timestamp_text(secs as nat, millis as nat),
{
    let days = secs / 86400;
    let time_of_day = secs % 86400;
    let hours = time_of_day / 3600;
    let minutes = (time_of_day % 3600) / 60;
    let seconds = time_of_day % 60;
    let (year, month, day) = days_to_date(days);
    let mut s = String::new();
    push_zero_padded(&mut s, year, 4);
    s.append("-");
    push_zero_padded(&mut s, month, 2);
    s.append("-");
    push_zero_padded(&mut s, day, 2);
    s.append("T");
    push_zero_padded(&mut s, hours, 2);
    s.append(":");
    push_zero_padded(&mut s, minutes, 2);
    s.append(":");
    push_zero_padded(&mut s, seconds, 2);
    s.append(".");
    push_zero_padded(&mut s, millis as u64, 3);
    s.append("Z");
    s
}

/// `new` is the request `old` with the value of its `password` field, where it
/// has one and is an object, replaced by the string `***`, every other field
/// keeping its value; else `old` itself.
pub open spec fn masked(old_value: serde_json::Value, new_value: serde_json::Value) -> bool {
    if json_fields(old_value).contains_key("password"@) && json_is_object(old_value) {
        &&& str_field_set(old_value, new_value, "password"@, "***"@)
        &&& json_fields(new_value).dom() == json_fields(old_value).dom()
    } else {
        new_value == old_value
    }
}

/// Replace the value of a request's `password` field, if it has one, with `***`;
/// every other field keeps its value.
pub fn mask_password(request: &mut serde_json::Value)
    ensures
        masked(*old(request), *final(request)),
{
    if json_has_key(request, "password") {
        json_set_str(request, "password", "***");
        assert(json_fields(*final(request)).dom() =~= json_fields(*old(request)).dom()) by {
            assert(json_fields(*final(request)).remove("password"@).dom() =~= json_fields(
                *old(request),
            ).remove("password"@).dom());
        }
    }
}

/// `entry` is the log entry of an API call: an object with exactly the fields
/// `ts` (the UTC timestamp of `secs` and `millis`), `endpoint`, `request` (with
/// its password masked), `response`, `ok` and `error` (`null` where there is none).
pub open spec fn is_log_entry(
    entry: serde_json::Value,
    secs: nat,
    millis: nat,
    endpoint: Seq<char>,
    request: serde_json::Value,
    response: serde_json::Value,
    ok: bool,
    error: Option<Seq<char>>,
) -> bool {
    let f = json_fields(entry);
    &&& json_is_object(entry)
    &&& f.dom() == set!["ts"@, "endpoint"@, "request"@, "response"@, "ok"@, "error"@]
    &&& json_as_str(f["ts"@]) == Some(timestamp_text(secs, millis))
    &&& json_as_str(f["endpoint"@]) == Some(endpoint)
    &&& masked(request, f["request"@])
    &&& f["response"@] == response
    &&& json_as_bool(f["ok"@]) == Some(ok)
    &&& match error {
        Some(e) => json_as_str(f["error"@]) == Some(e),
        None => json_is_null(f["error"@]),
    }
}

/// The JSONL line that logs an API call made at `secs` seconds and `millis`
/// milliseconds after the Unix epoch: the log entry rendered as JSON, or
/// `None` where it cannot be rendered.
pub fn log_line(
    secs: u64,
    millis: u32,
    endpoint: &str,
    request: &serde_json::Value,
    response: &serde_json::Value,
    ok: bool,
    error: Option<&str>,
) -> (r: Option<String>)
    ensures
        exists|entry: serde_json::Value|
            {
                &&& #[trigger] is_log_entry(
                    entry,
                    secs as nat,
                    millis as nat,
                    endpoint@,
                    *request,
                    *response,
                    ok,
                    opt_str_view(error),
                )
                &&& match json_render(entry) {
                    Ok(t) => r matches Some(line) && line@ == t,
                    Err(_) => r is None,
                }
            },
{
    let mut masked_request = json_clone(request);
    mask_password(&mut masked_request);
    let ts = utc_timestamp(secs, millis);
    let error_value = match error {
        Some(e) => json_string(e),
        None => json_null(),
    };
    let ts_value = json_string(ts.as_str());
    let endpoint_value = json_string(endpoint);
    let response_value = json_clone(response);
    let ok_value = json_bool(ok);
    let mut entry = json_object();
    json_insert(&mut entry, "ts", ts_value);
    json_insert(&mut entry, "endpoint", endpoint_value);
    json_insert(&mut entry, "request", masked_request);
    json_insert(&mut entry, "response", response_value);
    json_insert(&mut entry, "ok", ok_value);
    json_insert(&mut entry, "error", error_value);
    let ghost f = json_fields(entry);
    proof {
        reveal_strlit("ts");
        reveal_strlit("ok");
        reveal_strlit("endpoint");
        reveal_strlit("response");
        reveal_strlit("request");
        reveal_strlit("error");
        assert("ts"@.len() == 2 && "ok"@.len() == 2 && "error"@.len() == 5);
        assert("endpoint"@.len() == 8 && "response"@.len() == 8 && "request"@.len() == 7);
        assert("ts"@[0] != "ok"@[0]);
        assert("endpoint"@[0] != "response"@[0]);
    }
    assert(f.dom() =~= set!["ts"@, "endpoint"@, "request"@, "response"@, "ok"@, "error"@]);
    let line = json_to_string(&entry);
    assert(is_log_entry(entry, secs as nat, millis as nat, endpoint@, *request, *response, ok, opt_str_view(error)));
    match line {
        Ok(s) => Some(s),
        Err(_) => None,
    }
}

} // verus!
