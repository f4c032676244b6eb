//! Phone-number normalization and validation.
//!
//! A number is normalized to digits only, in international format: Arabic-Indic
//! and Extended Arabic-Indic digits become Latin digits, everything that is not
//! a digit is dropped, leading zeros go, and a domestic trunk `0` right after a
//! known country code is removed. Validation then checks the E.164 length
//! (7 to 15 digits) and, for the countries in the table, the local length and
//! the mobile starting digit.
use vstd::prelude::*;
use vstd::string::StringExecFns;

use crate::phone_rules::{phone_rule, spec_rule, PhoneRule, RuleSpec};
use crate::text::{
    chars_of, decimal, digit_char_of, is_ascii_digit, join_chars, join_decimals, push_chars,
    push_decimal, push_joined_chars, push_joined_decimals, string_from_chars, trim,
    trimmed_chars, utf8_len, is_white_space, trim_start, trim_end,
};

verus! {

// ---------------------------------------------------------------------------
// Specifications
// ---------------------------------------------------------------------------

/// The Latin digit that `c` stands for: an ASCII digit itself, or an
/// Arabic-Indic (U+0660..U+0669) or Extended Arabic-Indic (U+06F0..U+06F9) digit.
pub open spec fn latin_digit(c: char) -> Option<char> {
    if is_ascii_digit(c) {
        Some(c)
    } else if '\u{0660}' <= c <= '\u{0669}' {
        Some(digit_char_of((c as u32 - 0x0660) as nat))
    } else if '\u{06F0}' <= c <= '\u{06F9}' {
        Some(digit_char_of((c as u32 - 0x06F0) as nat))
    } else {
        None
    }
}

/// The Latin digits of `s`, in order; every other character is dropped.
pub open spec fn digits_of(s: Seq<char>) -> Seq<char>
    decreases s.len(),
{
    if s.len() == 0 {
        Seq::empty()
    } else {
        match latin_digit(s.last()) {
            Some(d) => digits_of(s.drop_last()).push(d),
            None => digits_of(s.drop_last()),
        }
    }
}

/// `s` without its leading `'0'` characters.
pub open spec fn strip_zeros(s: Seq<char>) -> Seq<char>
    decreases s.len(),
{
    if s.len() > 0 && s[0] == '0' {
        strip_zeros(s.drop_first())
    } else {
        s
    }
}

pub open spec fn is_digit_string(s: Seq<char>) -> bool {
    forall|i: int| 0 <= i < s.len() ==> is_ascii_digit(#[trigger] s[i])
}

/// The number that a string of ASCII digits denotes.
pub open spec fn decimal_value(s: Seq<char>) -> nat
    decreases s.len(),
{
    if s.len() == 0 {
        0
    } else {
        decimal_value(s.drop_last()) * 10 + (s.last() as nat - '0' as nat) as nat
    }
}

/// The table's entry for the country code written as `cc` (one to three digits,
/// no leading zero), if the table has one.
pub open spec fn code_rule(cc: Seq<char>) -> Option<RuleSpec> {
    if 1 <= cc.len() <= 3 && is_digit_string(cc) && cc[0] != '0' {
        spec_rule(decimal_value(cc))
    } else {
        None
    }
}

/// The length of the country code that `s` starts with: the longest of 3, 2
/// and 1 characters whose prefix is a code of the table, or 0 if there is none.
pub open spec fn country_code_len(s: Seq<char>) -> nat {
    if s.len() >= 3 && code_rule(s.take(3)) is Some {
        3
    } else if s.len() >= 2 && code_rule(s.take(2)) is Some {
        2
    } else if s.len() >= 1 && code_rule(s.take(1)) is Some {
        1
    } else {
        0
    }
}

/// The normalized form of a phone number.
pub open spec fn normalized(s: Seq<char>) -> Seq<char> {
    let st = strip_zeros(digits_of(s));
    let k = country_code_len(st);
    if k > 0 && st.len() > k && st[k as int] == '0' && strip_zeros(st.skip(k as int)).len() > 0 {
        st.take(k as int) + strip_zeros(st.skip(k as int))
    } else {
        st
    }
}

/// The message for a local number of the wrong length.
pub open spec fn length_error(name: Seq<char>, lengths: Seq<u8>, cc: Seq<char>, got: nat) -> Seq<char> {
    "Invalid "@ + name + " number: expected "@ + join_decimals(lengths, " or "@)
        + " digits after +"@ + cc + ", got "@ + decimal(got)
}

/// The message for a local number that starts with a digit that is not a mobile prefix.
pub open spec fn prefix_error(name: Seq<char>, starts: Seq<char>, cc: Seq<char>) -> Seq<char> {
    "Invalid "@ + name + " mobile number: after +"@ + cc + " must start with "@ + join_chars(
        starts,
        ", "@,
    )
}

/// The country-specific format check of a normalized number: `(valid, error)`.
pub open spec fn format_check(s: Seq<char>) -> (bool, Option<Seq<char>>) {
    let k = country_code_len(s);
    if k == 0 {
        (true, None)
    } else {
        let cc = s.take(k as int);
        let rule = code_rule(cc).unwrap();
        let local = s.skip(k as int);
        let n = utf8_len(local);
        if !(n < 256 && rule.lengths.contains(n as u8)) {
            (false, Some(length_error(rule.name, rule.lengths, cc, n)))
        } else if rule.starts.len() > 0 && !(local.len() > 0 && rule.starts.contains(local[0])) {
            (false, Some(prefix_error(rule.name, rule.starts, cc)))
        } else {
            (true, None)
        }
    }
}

/// The full validation of a phone-number input: `(valid, error, normalized)`.
pub open spec fn input_check(s: Seq<char>) -> (bool, Option<Seq<char>>, Seq<char>) {
    let t = trim(s);
    if t.len() == 0 {
        (false, Some("Phone number is required"@), Seq::empty())
    } else if t.contains('@') {
        (false, Some("'"@ + t + "' is an email address, not a phone number"@), Seq::empty())
    } else {
        let n = normalized(t);
        if n.len() == 0 {
            (
                false,
                Some("'"@ + t + "' is not a valid phone number, no digits found"@),
                Seq::empty(),
            )
        } else if n.len() < 7 {
            (
                false,
                Some("'"@ + t + "' is too short ("@ + decimal(n.len()) + " digits, minimum is 7)"@),
                n,
            )
        } else if n.len() > 15 {
            (
                false,
                Some("'"@ + t + "' is too long ("@ + decimal(n.len()) + " digits, maximum is 15)"@),
                n,
            )
        } else if !format_check(n).0 {
            (false, format_check(n).1, n)
        } else {
            (true, None, n)
        }
    }
}

/// The characters of an optional string.
pub open spec fn opt_view(o: Option<String>) -> Option<Seq<char>> {
    match o {
        Some(s) => Some(s@),
        None => None,
    }
}

// ---------------------------------------------------------------------------
// Lemmas
// ---------------------------------------------------------------------------

pub open spec fn pow10(i: nat) -> nat
    decreases i,
{
    if i == 0 {
        1
    } else {
        10 * pow10((i - 1) as nat)
    }
}

proof fn lemma_decimal_value_positive(s: Seq<char>)
    requires
        s.len() >= 1,
        is_digit_string(s),
        s[0] != '0',
    ensures
        decimal_value(s) >= 1,
    decreases s.len(),
{
    if s.len() > 1 {
        let p = s.drop_last();
        assert(p[0] == s[0]);
        lemma_decimal_value_positive(p);
    }
}

/// A string of digits without a leading zero is the decimal rendering of its value.
pub proof fn lemma_decimal_roundtrip(s: Seq<char>)
    requires
        s.len() >= 1,
        is_digit_string(s),
        s[0] != '0',
    ensures
        decimal(decimal_value(s)) == s,
    decreases s.len(),
{
    let d = (s.last() as nat - '0' as nat) as nat;
    assert(is_ascii_digit(s.last()));
    if s.len() == 1 {
        assert(decimal_value(s.drop_last()) == 0);
        assert(decimal(decimal_value(s)) =~= s);
    } else {
        let p = s.drop_last();
        assert(p[0] == s[0]);
        assert forall|i: int| 0 <= i < p.len() implies is_ascii_digit(#[trigger] p[i]) by {
            assert(p[i] == s[i]);
        }
        lemma_decimal_roundtrip(p);
        lemma_decimal_value_positive(p);
        let v = decimal_value(s);
        assert(v == decimal_value(p) * 10 + d);
        assert(v / 10 == decimal_value(p));
        assert(v % 10 == d);
        assert(decimal(v) =~= s);
    }
}

proof fn lemma_digits_of_latin(s: Seq<char>)
    ensures
        is_digit_string(digits_of(s)),
        digits_of(s).len() <= s.len(),
    decreases s.len(),
{
    if s.len() > 0 {
        lemma_digits_of_latin(s.drop_last());
    }
}

proof fn lemma_strip_zeros_suffix(s: Seq<char>)
    ensures
        strip_zeros(s).len() <= s.len(),
        strip_zeros(s) == s.skip(s.len() - strip_zeros(s).len()),
        strip_zeros(s).len() > 0 ==> strip_zeros(s)[0] != '0',
    decreases s.len(),
{
    if s.len() > 0 && s[0] == '0' {
        lemma_strip_zeros_suffix(s.drop_first());
        assert(s.drop_first().skip(s.drop_first().len() - strip_zeros(s).len()) =~= s.skip(
            s.len() - strip_zeros(s).len(),
        ));
    } else {
        assert(s.skip(0) =~= s);
    }
}

// ---------------------------------------------------------------------------
// Executable code
// ---------------------------------------------------------------------------

/// The Latin digit that `c` stands for, if any.
fn latin_digit_of(c: char) -> (r: Option<char>)
    ensures
        r == latin_digit(c),
{
    if '0' <= c && c <= '9' {
        Some(c)
    } else if '\u{0660}' <= c && c <= '\u{0669}' {
        let k: u32 = (c as u32) - 0x0660;
        Some((48u8 + (k as u8)) as char)
    } else if '\u{06F0}' <= c && c <= '\u{06F9}' {
        let k: u32 = (c as u32) - 0x06F0;
        Some((48u8 + (k as u8)) as char)
    } else {
        None
    }
}

/// The Latin digits of `v`.
fn digits_in(v: &Vec<char>) -> (r: Vec<char>)
    ensures
        r@ == digits_of(v@),
{
    let mut r: Vec<char> = Vec::new();
    let mut i: usize = 0;
    while i < v.len()
        invariant
            i <= v.len(),
            r@ == digits_of(v@.take(i as int)),
        decreases v.len() - i,
    {
        assert(v@.take(i + 1).drop_last() =~= v@.take(i as int));
        match latin_digit_of(v[i]) {
            Some(d) => r.push(d),
            None => {},
        }
        i = i + 1;
    }
    assert(v@.take(v.len() as int) =~= v@);
    r
}

/// The characters of `v` from index `from` on.
fn tail_from(v: &Vec<char>, from: usize) -> (r: Vec<char>)
    requires
        from <= v.len(),
    ensures
        r@ == v@.skip(from as int),
{
    let mut r: Vec<char> = Vec::new();
    let mut i: usize = from;
    while i < v.len()
        invariant
            from <= i <= v.len(),
            r@ == v@.subrange(from as int, i as int),
        decreases v.len() - i,
    {
        r.push(v[i]);
        assert(v@.subrange(from as int, i + 1) =~= v@.subrange(from as int, i as int).push(
            v@[i as int],
        ));
        i = i + 1;
    }
    assert(v@.subrange(from as int, v.len() as int) =~= v@.skip(from as int));
    r
}

/// `v` without its leading zeros.
fn strip_leading_zeros(v: &Vec<char>) -> (r: Vec<char>)
    ensures
        r@ == strip_zeros(v@),
{
    let mut i: usize = 0;
    assert(v@.skip(0) =~= v@);
    while i < v.len() && v[i] == '0'
        invariant
            i <= v.len(),
            strip_zeros(v@) == strip_zeros(v@.skip(i as int)),
        decreases v.len() - i,
    {
        assert(v@.skip(i as int).drop_first() =~= v@.skip(i + 1));
        i = i + 1;
    }
    tail_from(v, i)
}

/// The table's row for the country code formed by the first `k` characters of `v`.
fn prefix_rule(v: &Vec<char>, k: usize) -> (r: Option<PhoneRule>)
    requires
        1 <= k <= 3,
        k <= v.len(),
    ensures
        r is Some <==> code_rule(v@.take(k as int)) is Some,
        r matches Some(x) ==> {
            &&& x.is_rule_for(decimal_value(v@.take(k as int)))
            &&& x.country_code@ == v@.take(k as int)
            &&& code_rule(v@.take(k as int)) == spec_rule(decimal_value(v@.take(k as int)))
        },
{
    let ghost p = v@.take(k as int);
    if v[0] == '0' {
        return None;
    }
    let mut val: u16 = 0;
    let mut i: usize = 0;
    while i < k
        invariant
            i <= k <= 3,
            k <= v.len(),
            p == v@.take(k as int),
            is_digit_string(v@.take(i as int)),
            val == decimal_value(v@.take(i as int)),
            val < pow10(i as nat),
        decreases k - i,
    {
        let c = v[i];
        if !('0' <= c && c <= '9') {
            assert(p[i as int] == c);
            return None;
        }
        assert(v@.take(i + 1).drop_last() =~= v@.take(i as int));
        assert(pow10((i + 1) as nat) == 10 * pow10(i as nat));
        assert(pow10(3) == 1000) by {
            reveal_with_fuel(pow10, 4);
        }
        assert(pow10(i as nat) <= 100) by {
            reveal_with_fuel(pow10, 4);
        }
        val = val * 10 + ((c as u32) - 48) as u16;
        i = i + 1;
    }
    assert(v@.take(k as int) == p);
    let r = phone_rule(val);
    proof {
        if r is Some {
            lemma_decimal_roundtrip(p);
        }
    }
    r
}

/// The country-code length of `v` and the table's row for that code.
fn find_code(v: &Vec<char>) -> (r: (usize, Option<PhoneRule>))
    ensures
        r.0 == country_code_len(v@),
        r.0 == 0 <==> r.1 is None,
        r.1 matches Some(x) ==> {
            &&& x.country_code@ == v@.take(r.0 as int)
            &&& code_rule(v@.take(r.0 as int)) == spec_rule(decimal_value(v@.take(r.0 as int)))
            &&& x.is_rule_for(decimal_value(v@.take(r.0 as int)))
        },
{
    if v.len() >= 3 {
        let r = prefix_rule(v, 3);
        if r.is_some() {
            return (3, r);
        }
    }
    if v.len() >= 2 {
        let r = prefix_rule(v, 2);
        if r.is_some() {
            return (2, r);
        }
    }
    if v.len() >= 1 {
        let r = prefix_rule(v, 1);
        if r.is_some() {
            return (1, r);
        }
    }
    (0, None)
}

/// Find the country code prefix from a normalized phone number.
/// Tries 3-digit codes first, then 2-digit, then 1-digit (longest match wins).
pub fn find_country_code(normalized: &str) -> (r: Option<&'static str>)
    ensures
        r is None <==> country_code_len(normalized@) == 0,
        r matches Some(cc) ==> cc@ == normalized@.take(country_code_len(normalized@) as int),
{
    let v = chars_of(normalized);
    let (k, rule) = find_code(&v);
    match rule {
        Some(x) => Some(x.country_code),
        None => None,
    }
}

/// Get the country name for a country code, or "+{cc}" if not found.
pub fn country_name_for_code(cc: &str) -> (name: String)
    ensures
        name@ == match code_rule(cc@) {
            Some(rule) => rule.name,
            None => "+"@ + cc@,
        },
{
    let v = chars_of(cc);
    if 1 <= v.len() && v.len() <= 3 {
        let (k, rule) = find_code(&v);
        if k == v.len() {
            assert(v@.take(k as int) =~= v@);
            match rule {
                Some(x) => {
                    return x.country_name.to_owned();
                },
                None => {},
            }
        } else {
            // A shorter code is a prefix of `cc`, so `cc` itself is no code
            // (no code of the table is a prefix of another).
            assert(code_rule(v@) is None) by {
                lemma_longer_is_no_code(v@, k as nat);
            }
        }
    }
    let mut out = String::new();
    out.append("+");
    out.append(cc);
    out
}

/// A string of one to three characters whose country-code length is shorter
/// than itself is no code.
proof fn lemma_longer_is_no_code(s: Seq<char>, k: nat)
    requires
        1 <= s.len() <= 3,
        k == country_code_len(s),
        k != s.len(),
    ensures
        code_rule(s) is None,
{
    if code_rule(s) is Some {
        assert(s.take(s.len() as int) =~= s);
        assert(false);
    }
}

/// Validate a normalized phone number against country-specific format rules.
/// Checks local number length and mobile starting digits.
/// Numbers with no matching country rules pass through (generic E.164 only).
pub fn validate_phone_format(normalized: &str) -> (r: (bool, Option<String>))
    ensures
        r.0 == format_check(normalized@).0,
        opt_view(r.1) == format_check(normalized@).1,
{
    let v = chars_of(normalized);
    format_of_chars(&v)
}

fn slice_contains_u8(items: &[u8], x: u8) -> (r: bool)
    ensures
        r == items@.contains(x),
{
    let mut i: usize = 0;
    while i < items.len()
        invariant
            i <= items.len(),
            forall|j: int| 0 <= j < i ==> items@[j] != x,
        decreases items.len() - i,
    {
        if items[i] == x {
            return true;
        }
        i = i + 1;
    }
    false
}

fn slice_contains_char(items: &[char], x: char) -> (r: bool)
    ensures
        r == items@.contains(x),
{
    let mut i: usize = 0;
    while i < items.len()
        invariant
            i <= items.len(),
            forall|j: int| 0 <= j < i ==> items@[j] != x,
        decreases items.len() - i,
    {
        if items[i] == x {
            return true;
        }
        i = i + 1;
    }
    false
}

/// The number of UTF-8 bytes of `v`.
fn utf8_byte_len(v: &Vec<char>) -> (n: u128)
    ensures
        n == utf8_len(v@),
{
    let mut n: u128 = 0;
    let mut i: usize = 0;
    while i < v.len()
        invariant
            i <= v.len(),
            n == utf8_len(v@.take(i as int)),
            n <= 4 * i,
        decreases v.len() - i,
    {
        let c = v[i];
        let w: u128 = if (c as u32) < 0x80 {
            1
        } else if (c as u32) < 0x800 {
            2
        } else if (c as u32) < 0x10000 {
            3
        } else {
            4
        };
        assert(v@.take(i + 1).drop_last() =~= v@.take(i as int));
        n = n + w;
        i = i + 1;
    }
    assert(v@.take(v.len() as int) =~= v@);
    n
}

fn format_of_chars(v: &Vec<char>) -> (r: (bool, Option<String>))
    ensures
        r.0 == format_check(v@).0,
        opt_view(r.1) == format_check(v@).1,
{
    let (k, found) = find_code(v);
    let rule = match found {
        Some(x) => x,
        None => {
            return (true, None);
        },
    };
    let ghost cc = v@.take(k as int);
    let local = tail_from(v, k);
    let n = utf8_byte_len(&local);
    let fits: bool = n < 256 && slice_contains_u8(rule.local_lengths, n as u8);
    if !fits {
        let mut msg = String::new();
        msg.append("Invalid ");
        msg.append(rule.country_name);
        msg.append(" number: expected ");
        push_joined_decimals(&mut msg, rule.local_lengths, " or ");
        msg.append(" digits after +");
        msg.append(rule.country_code);
        msg.append(", got ");
        push_decimal(&mut msg, n);
        return (false, Some(msg));
    }
    if rule.mobile_start_digits.len() > 0 {
        let ok = local.len() > 0 && slice_contains_char(rule.mobile_start_digits, local[0]);
        if !ok {
            let mut msg = String::new();
            msg.append("Invalid ");
            msg.append(rule.country_name);
            msg.append(" mobile number: after +");
            msg.append(rule.country_code);
            msg.append(" must start with ");
            push_joined_chars(&mut msg, rule.mobile_start_digits, ", ");
            return (false, Some(msg));
        }
    }
    (true, None)
}

/// The normalized form of the characters `v`.
fn normalize_chars(v: &Vec<char>) -> (r: Vec<char>)
    ensures
        r@ == normalized(v@),
{
    let digits = digits_in(v);
    let stripped = strip_leading_zeros(&digits);
    if stripped.len() == 0 {
        return stripped;
    }
    let (k, found) = find_code(&stripped);
    if k > 0 && stripped.len() > k && stripped[k] == '0' {
        let local = tail_from(&stripped, k);
        let local_stripped = strip_leading_zeros(&local);
        if local_stripped.len() > 0 {
            let mut r: Vec<char> = Vec::new();
            let mut i: usize = 0;
            while i < k
                invariant
                    i <= k < stripped.len(),
                    r@ == stripped@.take(i as int),
                decreases k - i,
            {
                r.push(stripped[i]);
                assert(stripped@.take(i + 1) =~= stripped@.take(i as int).push(stripped@[i as int]));
                i = i + 1;
            }
            let mut j: usize = 0;
            while j < local_stripped.len()
                invariant
                    j <= local_stripped.len(),
                    r@ == stripped@.take(k as int) + local_stripped@.take(j as int),
                decreases local_stripped.len() - j,
            {
                r.push(local_stripped[j]);
                assert(local_stripped@.take(j + 1) =~= local_stripped@.take(j as int).push(
                    local_stripped@[j as int],
                ));
                j = j + 1;
            }
            assert(local_stripped@.take(local_stripped.len() as int) =~= local_stripped@);
            return r;
        }
    }
    stripped
}

/// Normalize a phone number to kwtSMS-accepted format (digits only, international format).
///
/// 1. Convert Arabic-Indic and Extended Arabic-Indic digits to Latin
/// 2. Strip all non-digit characters (surrounding whitespace included)
/// 3. Strip leading zeros
/// 4. Strip domestic trunk prefix (leading 0 after country code, e.g. 9660559... -> 966559...)
pub fn normalize_phone(phone: &str) -> (r: String)
    ensures
        r@ == normalized(phone@),
{
    let v = chars_of(phone);
    let n = normalize_chars(&v);
    string_from_chars(&n)
}

fn contains_char(v: &Vec<char>, x: char) -> (r: bool)
    ensures
        r == v@.contains(x),
{
    let mut i: usize = 0;
    while i < v.len()
        invariant
            i <= v.len(),
            forall|j: int| 0 <= j < i ==> v@[j] != x,
        decreases v.len() - i,
    {
        if v[i] == x {
            return true;
        }
        i = i + 1;
    }
    false
}

/// A message of the form `'{input}'{rest}` where `rest` starts with `head`.
fn quoted_message(t: &Vec<char>, head: &str) -> (m: String)
    ensures
        m@ == "'"@ + t@ + head@,
{
    let mut m = String::new();
    m.append("'");
    push_chars(&mut m, t);
    m.append(head);
    m
}

/// Validate a phone number input.
///
/// Returns `(is_valid, error_message, normalized)`.
/// - Empty/blank -> error
/// - Contains '@' -> email error
/// - No digits after normalization -> error
/// - Less than 7 digits -> too short
/// - More than 15 digits -> too long
/// - Country-specific format check (length + mobile prefix)
pub fn validate_phone_input(phone: &str) -> (r: (bool, Option<String>, String))
    ensures
        r.0 == input_check(phone@).0,
        opt_view(r.1) == input_check(phone@).1,
        r.2@ == input_check(phone@).2,
{
    let t = trimmed_chars(phone);
    if t.len() == 0 {
        return (false, Some(String::from_str("Phone number is required")), String::new());
    }
    if contains_char(&t, '@') {
        let m = quoted_message(&t, "' is an email address, not a phone number");
        return (false, Some(m), String::new());
    }
    let n = normalize_chars(&t);
    if n.len() == 0 {
        let m = quoted_message(&t, "' is not a valid phone number, no digits found");
        return (false, Some(m), String::new());
    }
    let count = n.len();
    if count < 7 {
        let mut m = quoted_message(&t, "' is too short (");
        push_decimal(&mut m, count as u128);
        m.append(" digits, minimum is 7)");
        return (false, Some(m), string_from_chars(&n));
    }
    if count > 15 {
        let mut m = quoted_message(&t, "' is too long (");
        push_decimal(&mut m, count as u128);
        m.append(" digits, maximum is 15)");
        return (false, Some(m), string_from_chars(&n));
    }
    let (ok, err) = format_of_chars(&n);
    if !ok {
        return (false, err, string_from_chars(&n));
    }
    (true, None, string_from_chars(&n))
}

// ---------------------------------------------------------------------------
// Laws
// ---------------------------------------------------------------------------

/// No code of the table is the start of a longer one: dropping the last digit
/// (or the last two) of a code never gives a code.
proof fn lemma_rule_prefix_free(v: nat)
    requires
        spec_rule(v) is Some,
    ensures
        1 <= v < 1000,
        v >= 10 ==> spec_rule(v / 10) is None,
        v >= 100 ==> spec_rule(v / 100) is None,
{
}

proof fn lemma_decimal_value_drop_last(p: Seq<char>)
    requires
        p.len() >= 1,
        is_digit_string(p),
    ensures
        decimal_value(p.drop_last()) == decimal_value(p) / 10,
{
    assert(is_ascii_digit(p.last()));
}

/// No country code of the table is a proper prefix of another one: a shorter
/// prefix of a string that starts with a code is no code.
pub proof fn lemma_code_prefix_unique(s: Seq<char>, i: nat, j: nat)
    requires
        1 <= i < j <= 3,
        j <= s.len(),
        code_rule(s.take(j as int)) is Some,
    ensures
        code_rule(s.take(i as int)) is None,
{
    let p = s.take(j as int);
    let q = s.take(i as int);
    let v = decimal_value(p);
    lemma_rule_prefix_free(v);
    lemma_decimal_value_drop_last(p);
    assert(p.drop_last() =~= s.take(j - 1));
    if i == j - 1 {
        assert(q =~= p.drop_last());
    } else {
        let p1 = p.drop_last();
        assert forall|k: int| 0 <= k < p1.len() implies is_ascii_digit(#[trigger] p1[k]) by {
            assert(p1[k] == p[k]);
        }
        lemma_decimal_value_drop_last(p1);
        assert(q =~= p1.drop_last());
        assert((v / 10) / 10 == v / 100);
    }
}

/// A string that starts with a code of length `k` has country-code length `k`.
proof fn lemma_code_len_of_prefix(s: Seq<char>, k: nat)
    requires
        1 <= k <= 3,
        k <= s.len(),
        code_rule(s.take(k as int)) is Some,
    ensures
        country_code_len(s) == k,
{
    if k < 3 && s.len() >= 3 && code_rule(s.take(3)) is Some {
        lemma_code_prefix_unique(s, k, 3);
    }
    if k < 2 && s.len() >= 2 && code_rule(s.take(2)) is Some {
        lemma_code_prefix_unique(s, k, 2);
    }
}

proof fn lemma_digits_of_identity(s: Seq<char>)
    requires
        is_digit_string(s),
    ensures
        digits_of(s) == s,
    decreases s.len(),
{
    if s.len() > 0 {
        let p = s.drop_last();
        assert forall|k: int| 0 <= k < p.len() implies is_ascii_digit(#[trigger] p[k]) by {
            assert(p[k] == s[k]);
        }
        lemma_digits_of_identity(p);
        assert(is_ascii_digit(s.last()));
        assert(p.push(s.last()) =~= s);
    }
}

proof fn lemma_digits_of_append(a: Seq<char>, b: Seq<char>)
    ensures
        digits_of(a + b) == digits_of(a) + digits_of(b),
    decreases b.len(),
{
    if b.len() == 0 {
        assert(a + b =~= a);
        assert(digits_of(b) =~= Seq::<char>::empty());
        assert(digits_of(a) + digits_of(b) =~= digits_of(a));
    } else {
        lemma_digits_of_append(a, b.drop_last());
        assert((a + b).drop_last() =~= a + b.drop_last());
        assert((a + b).last() == b.last());
        match latin_digit(b.last()) {
            Some(d) => {
                assert(digits_of(a) + digits_of(b.drop_last()).push(d) =~= (digits_of(a)
                    + digits_of(b.drop_last())).push(d));
            },
            None => {},
        }
    }
}

proof fn lemma_digits_of_blank(s: Seq<char>)
    requires
        forall|k: int| 0 <= k < s.len() ==> is_white_space(#[trigger] s[k]),
    ensures
        digits_of(s) == Seq::<char>::empty(),
    decreases s.len(),
{
    if s.len() > 0 {
        let p = s.drop_last();
        assert forall|k: int| 0 <= k < p.len() implies is_white_space(#[trigger] p[k]) by {
            assert(p[k] == s[k]);
        }
        lemma_digits_of_blank(p);
        assert(is_white_space(s[s.len() - 1]));
    }
}

proof fn lemma_trim_start_split(s: Seq<char>)
    ensures
        exists|k: int|
            0 <= k <= s.len() && trim_start(s) == s.skip(k) && forall|j: int|
                0 <= j < k ==> is_white_space(#[trigger] s[j]),
    decreases s.len(),
{
    if s.len() > 0 && is_white_space(s[0]) {
        let t = s.drop_first();
        lemma_trim_start_split(t);
        let k = choose|k: int|
            0 <= k <= t.len() && trim_start(t) == t.skip(k) && forall|j: int|
                0 <= j < k ==> is_white_space(#[trigger] t[j]);
        assert(t.skip(k) =~= s.skip(k + 1));
        assert forall|j: int| 0 <= j < k + 1 implies is_white_space(#[trigger] s[j]) by {
            if j > 0 {
                assert(s[j] == t[j - 1]);
            }
        }
    } else {
        assert(s.skip(0) =~= s);
    }
}

proof fn lemma_trim_end_split(s: Seq<char>)
    ensures
        exists|k: int|
            0 <= k <= s.len() && trim_end(s) == s.take(k) && forall|j: int|
                k <= j < s.len() ==> is_white_space(#[trigger] s[j]),
    decreases s.len(),
{
    if s.len() > 0 && is_white_space(s.last()) {
        let t = s.drop_last();
        lemma_trim_end_split(t);
        let k = choose|k: int|
            0 <= k <= t.len() && trim_end(t) == t.take(k) && forall|j: int|
                k <= j < t.len() ==> is_white_space(#[trigger] t[j]);
        assert(t.take(k) =~= s.take(k));
        assert forall|j: int| k <= j < s.len() implies is_white_space(#[trigger] s[j]) by {
            if j < s.len() - 1 {
                assert(s[j] == t[j]);
            }
        }
    } else {
        assert(s.take(s.len() as int) =~= s);
    }
}

/// Surrounding whitespace holds no digit.
proof fn lemma_digits_of_trim(s: Seq<char>)
    ensures
        digits_of(trim(s)) == digits_of(s),
{
    lemma_trim_start_split(s);
    let k = choose|k: int|
        0 <= k <= s.len() && trim_start(s) == s.skip(k) && forall|j: int|
            0 <= j < k ==> is_white_space(#[trigger] s[j]);
    let u = s.skip(k);
    assert(s =~= s.take(k) + u);
    lemma_digits_of_append(s.take(k), u);
    assert forall|j: int| 0 <= j < s.take(k).len() implies is_white_space(#[trigger] s.take(k)[j]) by {
        assert(s.take(k)[j] == s[j]);
    }
    lemma_digits_of_blank(s.take(k));
    assert(digits_of(s) =~= digits_of(u));
    lemma_trim_end_split(u);
    let m = choose|m: int|
        0 <= m <= u.len() && trim_end(u) == u.take(m) && forall|j: int|
            m <= j < u.len() ==> is_white_space(#[trigger] u[j]);
    assert(u =~= u.take(m) + u.skip(m));
    lemma_digits_of_append(u.take(m), u.skip(m));
    assert forall|j: int| 0 <= j < u.skip(m).len() implies is_white_space(#[trigger] u.skip(m)[j]) by {
        assert(u.skip(m)[j] == u[m + j]);
    }
    lemma_digits_of_blank(u.skip(m));
    assert(digits_of(u) =~= digits_of(u.take(m)));
}

proof fn lemma_digit_string_parts(s: Seq<char>, k: int)
    requires
        is_digit_string(s),
        0 <= k <= s.len(),
    ensures
        is_digit_string(s.take(k)),
        is_digit_string(s.skip(k)),
{
    assert forall|i: int| 0 <= i < s.take(k).len() implies is_ascii_digit(#[trigger] s.take(k)[i]) by {
        assert(s.take(k)[i] == s[i]);
    }
    assert forall|i: int| 0 <= i < s.skip(k).len() implies is_ascii_digit(#[trigger] s.skip(k)[i]) by {
        assert(s.skip(k)[i] == s[k + i]);
    }
}

/// A normalized number consists of ASCII digits and does not start with `0`.
pub proof fn lemma_normalized_shape(s: Seq<char>)
    ensures
        is_digit_string(normalized(s)),
        normalized(s).len() > 0 ==> normalized(s)[0] != '0',
{
    let d = digits_of(s);
    lemma_digits_of_latin(s);
    let st = strip_zeros(d);
    lemma_strip_zeros_suffix(d);
    lemma_digit_string_parts(d, d.len() - st.len());
    let k = country_code_len(st);
    if k > 0 && st.len() > k && st[k as int] == '0' && strip_zeros(st.skip(k as int)).len() > 0 {
        let z = strip_zeros(st.skip(k as int));
        lemma_digit_string_parts(st, k as int);
        lemma_strip_zeros_suffix(st.skip(k as int));
        lemma_digit_string_parts(st.skip(k as int), st.skip(k as int).len() - z.len());
        let n = st.take(k as int) + z;
        assert forall|i: int| 0 <= i < n.len() implies is_ascii_digit(#[trigger] n[i]) by {
            if i < k {
                assert(n[i] == st.take(k as int)[i]);
            } else {
                assert(n[i] == z[i - k]);
            }
        }
        assert(n[0] == st[0]);
    }
}

/// Normalizing a normalized number changes nothing.
pub proof fn lemma_normalize_idempotent(s: Seq<char>)
    ensures
        normalized(normalized(s)) == normalized(s),
{
    let n = normalized(s);
    lemma_normalized_shape(s);
    lemma_digits_of_identity(n);
    assert(strip_zeros(n) == n);
    let st = strip_zeros(digits_of(s));
    let k = country_code_len(st);
    if k > 0 && st.len() > k && st[k as int] == '0' && strip_zeros(st.skip(k as int)).len() > 0 {
        let z = strip_zeros(st.skip(k as int));
        lemma_strip_zeros_suffix(st.skip(k as int));
        assert(n.take(k as int) =~= st.take(k as int));
        assert(code_rule(st.take(k as int)) is Some);
        lemma_code_len_of_prefix(n, k);
        assert(n[k as int] == z[0]);
    }
}

/// Surrounding whitespace does not change the normalized form.
pub proof fn lemma_normalize_trim(s: Seq<char>)
    ensures
        normalized(trim(s)) == normalized(s),
{
    lemma_digits_of_trim(s);
}

/// A valid input's normalized number is what `normalize_phone` gives for the
/// input, is itself a valid input, and validates to itself.
pub proof fn lemma_valid_input_stable(s: Seq<char>)
    requires
        input_check(s).0,
    ensures
        input_check(s).2 == normalized(s),
        input_check(input_check(s).2) == (true, None::<Seq<char>>, input_check(s).2),
        7 <= input_check(s).2.len() <= 15,
        is_digit_string(input_check(s).2),
{
    let t = trim(s);
    let n = normalized(t);
    lemma_normalize_trim(s);
    lemma_normalized_shape(t);
    lemma_normalize_idempotent(t);
    // `n` has no surrounding whitespace and no `@`: it consists of digits.
    assert(n.len() > 0);
    assert(!is_white_space(n[0])) by {
        assert(is_ascii_digit(n[0]));
    }
    assert(trim_start(n) == n);
    assert(!is_white_space(n.last())) by {
        assert(is_ascii_digit(n[n.len() - 1]));
    }
    assert(trim_end(n) == n);
    assert(!n.contains('@')) by {
        if n.contains('@') {
            let i = choose|i: int| 0 <= i < n.len() && n[i] == '@';
            assert(is_ascii_digit(n[i]));
        }
    }
}

// ---------------------------------------------------------------------------
// Laws of the digit conversion and of the format check
// ---------------------------------------------------------------------------

/// A character that stands for a digit: an ASCII digit, an Arabic-Indic digit
/// (U+0660..U+0669) or an Extended Arabic-Indic digit (U+06F0..U+06F9).
pub open spec fn is_any_digit(c: char) -> bool {
    ||| ('0' as u32) <= (c as u32) <= ('9' as u32)
    ||| 0x0660 <= (c as u32) <= 0x0669
    ||| 0x06F0 <= (c as u32) <= 0x06F9
}

/// `d` is the Latin digit of the same value as the digit character `c`.
pub open spec fn same_digit_value(c: char, d: char) -> bool {
    let cp = c as u32;
    let value: int = if cp <= 0x39 {
        cp - 0x30
    } else if cp <= 0x0669 {
        cp - 0x0660
    } else {
        cp - 0x06F0
    };
    d as u32 == 0x30 + value
}

/// Every digit character stands for the Latin digit of the same value, and no
/// other character stands for a digit.
pub proof fn lemma_latin_digit_values(c: char)
    ensures
        latin_digit(c) is Some <==> is_any_digit(c),
        is_any_digit(c) ==> same_digit_value(c, latin_digit(c)->Some_0),
{
}

/// The digits that normalization starts from: one Latin digit for each digit
/// character of the input, of the same value and in the same order, whichever
/// script it is written in.
pub proof fn lemma_digits_of_every_digit(s: Seq<char>)
    ensures
        digits_of(s).len() == s.filter(|c: char| is_any_digit(c)).len(),
        forall|j: int|
            0 <= j < digits_of(s).len() ==> same_digit_value(
                s.filter(|c: char| is_any_digit(c))[j],
                #[trigger] digits_of(s)[j],
            ),
    decreases s.len(),
{
    reveal(Seq::filter);
    let pred = |c: char| is_any_digit(c);
    if s.len() > 0 {
        lemma_digits_of_every_digit(s.drop_last());
        lemma_latin_digit_values(s.last());
        assert(s.filter(pred) == if pred(s.last()) {
            s.drop_last().filter(pred).push(s.last())
        } else {
            s.drop_last().filter(pred)
        });
    }
}

/// A number whose country code is in the table passes the format check
/// exactly when its local part has one of the country's local lengths (counted
/// in bytes) and, where the country lists mobile start digits, starts with one
/// of them; a number that fails it comes with an error message.
pub proof fn lemma_format_check_by_table(s: Seq<char>)
    requires
        country_code_len(s) > 0,
    ensures
        ({
            let k = country_code_len(s) as int;
            let rule = spec_rule(decimal_value(s.take(k))).unwrap();
            let local = s.skip(k);
            let length_ok = exists|i: int|
                0 <= i < rule.lengths.len() && #[trigger] rule.lengths[i] as nat == utf8_len(local);
            let start_ok = rule.starts.len() == 0 || (local.len() > 0 && exists|j: int|
                0 <= j < rule.starts.len() && #[trigger] rule.starts[j] == local[0]);
            &&& format_check(s).0 == (length_ok && start_ok)
            &&& format_check(s).0 <==> format_check(s).1 is None
        }),
{
    let k = country_code_len(s) as int;
    let rule = code_rule(s.take(k)).unwrap();
    let local = s.skip(k);
    let n = utf8_len(local);
    let length_ok = exists|i: int|
        0 <= i < rule.lengths.len() && #[trigger] rule.lengths[i] as nat == n;
    if length_ok {
        let i = choose|i: int| 0 <= i < rule.lengths.len() && #[trigger] rule.lengths[i] as nat == n;
        assert(n < 256);
        assert(rule.lengths[i] == n as u8);
        assert(rule.lengths.contains(n as u8));
    }
    if n < 256 && rule.lengths.contains(n as u8) {
        let i = choose|i: int| 0 <= i < rule.lengths.len() && rule.lengths[i] == n as u8;
        assert(rule.lengths[i] as nat == n);
    }
}

} // verus!

