//! The library's error type and the kwtSMS error-code table, which maps each
//! API error code to a developer-friendly action message.
use vstd::prelude::*;
use vstd::std_specs::iter::IteratorSpec;
use vstd::string::StringExecFns;

use crate::json::{json_get_str, json_is_object, json_set_str, json_str_field, str_field_set};
use crate::phone::decimal_value;
use crate::text::{chars_of, digit_char_of, is_ascii_digit, str_eq};

verus! {

/// Error type of the library.
#[derive(Debug, Clone, PartialEq)]
pub enum KwtSmsError {
    /// Network or HTTP-level error.
    Network(String),
    /// API returned an error response with code, description, and action guidance.
    Api { code: String, description: String, action: String },
    /// Invalid input provided by the caller.
    InvalidInput(String),
}

impl KwtSmsError {
    /// The human-readable rendering of an error.
    pub open spec fn display_text(&self) -> Seq<char> {
        match self {
            KwtSmsError::Network(msg) => "Network error: "@ + msg@,
            KwtSmsError::Api { code, description, action } => "["@ + code@ + "] "@
                + description@ + ": "@ + action@,
            KwtSmsError::InvalidInput(msg) => "Invalid input: "@ + msg@,
        }
    }

    /// The human-readable rendering of the error.
    pub fn to_string(&self) -> (s: String)
        ensures
            s@ == self.display_text(),
    {
        let mut s = String::new();
        match self {
            KwtSmsError::Network(msg) => {
                s.append("Network error: ");
                s.append(msg.as_str());
            },
            KwtSmsError::Api { code, description, action } => {
                s.append("[");
                s.append(code.as_str());
                s.append("] ");
                s.append(description.as_str());
                s.append(": ");
                s.append(action.as_str());
            },
            KwtSmsError::InvalidInput(msg) => {
                s.append("Invalid input: ");
                s.append(msg.as_str());
            },
        }
        s
    }
}

// ---------------------------------------------------------------------------
// The error-code table
// ---------------------------------------------------------------------------

/// The code `ERR` followed by `n` in three digits.
pub open spec fn err_code_seq(n: nat) -> Seq<char> {
    seq!['E', 'R', 'R', digit_char_of(n / 100), digit_char_of((n / 10) % 10), digit_char_of(n % 10)]
}

/// The code that the library itself uses for locally rejected input.
pub open spec fn invalid_input_code() -> Seq<char> {
    seq!['E', 'R', 'R', '_', 'I', 'N', 'V', 'A', 'L', 'I', 'D', '_', 'I', 'N', 'P', 'U', 'T']
}

/// The action message for the numbered code `ERR{n:03}`.
pub open spec fn numbered_action(n: nat) -> Option<Seq<char>> {
    if n == 1 {
        Some("API is disabled on this account. Enable it at kwtsms.com \u{2192} Account \u{2192} API."@)
    } else if n == 2 {
        Some("A required parameter is missing. Check that username, password, sender, mobile, and message are all provided."@)
    } else if n == 3 {
        Some("Wrong API username or password. Check KWTSMS_USERNAME and KWTSMS_PASSWORD. These are your API credentials, not your account mobile number."@)
    } else if n == 4 {
        Some("This account does not have API access. Contact kwtSMS support to enable it."@)
    } else if n == 5 {
        Some("This account is blocked. Contact kwtSMS support."@)
    } else if n == 6 {
        Some("No valid phone numbers. Make sure each number includes the country code (e.g., 96598765432 for Kuwait, not 98765432)."@)
    } else if n == 7 {
        Some("Too many numbers in a single request (maximum 200). Split into smaller batches."@)
    } else if n == 8 {
        Some("This sender ID is banned or not found. Sender IDs are case sensitive. Check your registered sender IDs at kwtsms.com."@)
    } else if n == 9 {
        Some("Message is empty. Provide a non-empty message text."@)
    } else if n == 10 {
        Some("Account balance is zero. Recharge credits at kwtsms.com."@)
    } else if n == 11 {
        Some("Insufficient balance for this send. Buy more credits at kwtsms.com."@)
    } else if n == 12 {
        Some("Message is too long (over 6 SMS pages). Shorten your message."@)
    } else if n == 13 {
        Some("Send queue is full (1000 messages). Wait a moment and try again."@)
    } else if n == 19 {
        Some("No delivery reports found for this message."@)
    } else if n == 20 {
        Some("Message ID does not exist. Make sure you saved the msg-id from the send response."@)
    } else if n == 21 {
        Some("No delivery report available for this message yet."@)
    } else if n == 22 {
        Some("Delivery reports are not ready yet. Try again after 24 hours."@)
    } else if n == 23 {
        Some("Unknown delivery report error. Contact kwtSMS support."@)
    } else if n == 24 {
        Some("Your IP address is not in the API whitelist. Add it at kwtsms.com \u{2192} Account \u{2192} API \u{2192} IP Lockdown, or disable IP lockdown."@)
    } else if n == 25 {
        Some("Invalid phone number. Make sure the number includes the country code (e.g., 96598765432 for Kuwait, not 98765432)."@)
    } else if n == 26 {
        Some("This country is not activated on your account. Contact kwtSMS support to enable the destination country."@)
    } else if n == 27 {
        Some("HTML tags are not allowed in the message. Remove any HTML content and try again."@)
    } else if n == 28 {
        Some("You must wait at least 15 seconds before sending to the same number again. No credits were consumed."@)
    } else if n == 29 {
        Some("Message ID does not exist or is incorrect."@)
    } else if n == 30 {
        Some("Message is stuck in the send queue with an error. Delete it at kwtsms.com \u{2192} Queue to recover credits."@)
    } else if n == 31 {
        Some("Message rejected: bad language detected."@)
    } else if n == 32 {
        Some("Message rejected: spam detected."@)
    } else if n == 33 {
        Some("No active coverage found. Contact kwtSMS support."@)
    } else {
        None
    }
}

/// The action message for an error code, if the table has one.
pub open spec fn action_for(code: Seq<char>) -> Option<Seq<char>> {
    if code == invalid_input_code() {
        Some("One or more phone numbers are invalid. See details above."@)
    } else if code.len() == 6 && code[0] == 'E' && code[1] == 'R' && code[2] == 'R'
        && is_ascii_digit(code[3]) && is_ascii_digit(code[4]) && is_ascii_digit(code[5]) {
        numbered_action(decimal_value(code.skip(3)))
    } else {
        None
    }
}

/// The codes of the table: `ERR001`..`ERR013`, `ERR019`..`ERR033`, `ERR_INVALID_INPUT`.
pub open spec fn error_codes() -> Seq<Seq<char>> {
    Seq::new(
        29,
        |i: int|
            if i < 13 {
                err_code_seq((i + 1) as nat)
            } else if i < 28 {
                err_code_seq((i + 6) as nat)
            } else {
                invalid_input_code()
            },
    )
}

fn numbered_action_text(n: u32) -> (r: Option<&'static str>)
    ensures
        r is Some <==> numbered_action(n as nat) is Some,
        r matches Some(a) ==> a@ == numbered_action(n as nat).unwrap(),
{
    match n {
        1 => Some("API is disabled on this account. Enable it at kwtsms.com \u{2192} Account \u{2192} API."),
        2 => Some("A required parameter is missing. Check that username, password, sender, mobile, and message are all provided."),
        3 => Some("Wrong API username or password. Check KWTSMS_USERNAME and KWTSMS_PASSWORD. These are your API credentials, not your account mobile number."),
        4 => Some("This account does not have API access. Contact kwtSMS support to enable it."),
        5 => Some("This account is blocked. Contact kwtSMS support."),
        6 => Some("No valid phone numbers. Make sure each number includes the country code (e.g., 96598765432 for Kuwait, not 98765432)."),
        7 => Some("Too many numbers in a single request (maximum 200). Split into smaller batches."),
        8 => Some("This sender ID is banned or not found. Sender IDs are case sensitive. Check your registered sender IDs at kwtsms.com."),
        9 => Some("Message is empty. Provide a non-empty message text."),
        10 => Some("Account balance is zero. Recharge credits at kwtsms.com."),
        11 => Some("Insufficient balance for this send. Buy more credits at kwtsms.com."),
        12 => Some("Message is too long (over 6 SMS pages). Shorten your message."),
        13 => Some("Send queue is full (1000 messages). Wait a moment and try again."),
        19 => Some("No delivery reports found for this message."),
        20 => Some("Message ID does not exist. Make sure you saved the msg-id from the send response."),
        21 => Some("No delivery report available for this message yet."),
        22 => Some("Delivery reports are not ready yet. Try again after 24 hours."),
        23 => Some("Unknown delivery report error. Contact kwtSMS support."),
        24 => Some("Your IP address is not in the API whitelist. Add it at kwtsms.com \u{2192} Account \u{2192} API \u{2192} IP Lockdown, or disable IP lockdown."),
        25 => Some("Invalid phone number. Make sure the number includes the country code (e.g., 96598765432 for Kuwait, not 98765432)."),
        26 => Some("This country is not activated on your account. Contact kwtSMS support to enable the destination country."),
        27 => Some("HTML tags are not allowed in the message. Remove any HTML content and try again."),
        28 => Some("You must wait at least 15 seconds before sending to the same number again. No credits were consumed."),
        29 => Some("Message ID does not exist or is incorrect."),
        30 => Some("Message is stuck in the send queue with an error. Delete it at kwtsms.com \u{2192} Queue to recover credits."),
        31 => Some("Message rejected: bad language detected."),
        32 => Some("Message rejected: spam detected."),
        33 => Some("No active coverage found. Contact kwtSMS support."),
        _ => None,
    }
}

/// The action message for the code `code`, if the table has one.
pub fn action_for_code(code: &str) -> (r: Option<&'static str>)
    ensures
        r is Some <==> action_for(code@) is Some,
        r matches Some(a) ==> a@ == action_for(code@).unwrap(),
{
    let v = chars_of(code);
    if v.len() == 17 && v[0] == 'E' && v[1] == 'R' && v[2] == 'R' && v[3] == '_' && v[4] == 'I'
        && v[5] == 'N' && v[6] == 'V' && v[7] == 'A' && v[8] == 'L' && v[9] == 'I' && v[10] == 'D'
        && v[11] == '_' && v[12] == 'I' && v[13] == 'N' && v[14] == 'P' && v[15] == 'U' && v[16]
        == 'T' {
        assert(v@ =~= invalid_input_code());
        return Some("One or more phone numbers are invalid. See details above.");
    }
    assert(v@ != invalid_input_code() ==> !(v@ =~= invalid_input_code()));
    if v.len() == 6 && v[0] == 'E' && v[1] == 'R' && v[2] == 'R' && '0' <= v[3] && v[3] <= '9'
        && '0' <= v[4] && v[4] <= '9' && '0' <= v[5] && v[5] <= '9' {
        let d3 = (v[3] as u32) - 48;
        let d4 = (v[4] as u32) - 48;
        let d5 = (v[5] as u32) - 48;
        let n: u32 = d3 * 100 + d4 * 10 + d5;
        proof {
            lemma_three_digits(v@.skip(3));
        }
        return numbered_action_text(n);
    }
    None
}

/// The value of three digit characters.
pub proof fn lemma_three_digits(d: Seq<char>)
    requires
        d.len() == 3,
        is_ascii_digit(d[0]),
        is_ascii_digit(d[1]),
        is_ascii_digit(d[2]),
    ensures
        decimal_value(d) == (d[0] as nat - '0' as nat) * 100 + (d[1] as nat - '0' as nat) * 10 + (
        d[2] as nat - '0' as nat),
{
    let d2 = d.drop_last();
    let d1 = d2.drop_last();
    let d0 = d1.drop_last();
    assert(d0.len() == 0);
    assert(decimal_value(d0) == 0);
    assert(d1.last() == d[0]);
    assert(d2.last() == d[1]);
    assert(decimal_value(d1) == (d[0] as nat - '0' as nat));
    assert(decimal_value(d2) == decimal_value(d1) * 10 + (d[1] as nat - '0' as nat));
}

/// The action of the code `ERR{n:03}` is the numbered action of `n`.
pub proof fn lemma_err_code_action(n: nat)
    requires
        n < 1000,
    ensures
        action_for(err_code_seq(n)) == numbered_action(n),
{
    let c = err_code_seq(n);
    lemma_three_digits(c.skip(3));
    assert(c.skip(3)[0] == c[3]);
    assert(c.skip(3)[1] == c[4]);
    assert(c.skip(3)[2] == c[5]);
    assert(c != invalid_input_code()) by {
        assert(c.len() != invalid_input_code().len());
    }
}

fn push_entry(v: &mut Vec<(&'static str, &'static str)>, code: &'static str, action: &'static str)
    requires
        forall|i: int| 0 <= i < old(v)@.len() ==> entry_matches((#[trigger] old(v)@[i]).0@, old(v)@[i].1@, i),
        entry_matches(code@, action@, old(v)@.len() as int),
    ensures
        final(v)@.len() == old(v)@.len() + 1,
        forall|i: int| 0 <= i < final(v)@.len() ==> entry_matches((#[trigger] final(v)@[i]).0@, final(v)@[i].1@, i),
{
    v.push((code, action));
}

/// One entry of the table: `(code, action)`.
pub open spec fn entry_matches(code: Seq<char>, action: Seq<char>, i: int) -> bool {
    code == error_codes()[i] && action_for(code) == Some(action)
}

/// The table of API error codes and their action messages.
pub struct ApiErrorTable;

/// Complete error code map: kwtSMS error codes to developer-friendly action messages.
pub const API_ERRORS: ApiErrorTable = ApiErrorTable;

impl ApiErrorTable {
    /// The action message for `code`.
    pub fn get(&self, code: &str) -> (r: Option<&'static str>)
        ensures
            r is Some <==> action_for(code@) is Some,
            r matches Some(a) ==> a@ == action_for(code@).unwrap(),
    {
        action_for_code(code)
    }

    /// Whether the table has an entry for `code`.
    pub fn contains_key(&self, code: &str) -> (r: bool)
        ensures
            r == (action_for(code@) is Some),
    {
        action_for_code(code).is_some()
    }

    /// The number of entries of the table.
    pub fn len(&self) -> (n: usize)
        ensures
            n == error_codes().len(),
    {
        29
    }

    /// All entries of the table, in code order.
    pub fn entries(&self) -> (v: Vec<(&'static str, &'static str)>)
        ensures
            v@.len() == error_codes().len(),
            forall|i: int| 0 <= i < v@.len() ==> entry_matches((#[trigger] v@[i]).0@, v@[i].1@, i),
    {
        let mut v: Vec<(&'static str, &'static str)> = Vec::new();
        proof {
            reveal_strlit("ERR001");
            lemma_err_code_action(1);
        }
        assert("ERR001"@ =~= error_codes()[0]);
        push_entry(&mut v, "ERR001", "API is disabled on this account. Enable it at kwtsms.com \u{2192} Account \u{2192} API.");
        proof {
            reveal_strlit("ERR002");
            lemma_err_code_action(2);
        }
        assert("ERR002"@ =~= error_codes()[1]);
        push_entry(&mut v, "ERR002", "A required parameter is missing. Check that username, password, sender, mobile, and message are all provided.");
        proof {
            reveal_strlit("ERR003");
            lemma_err_code_action(3);
        }
        assert("ERR003"@ =~= error_codes()[2]);
        push_entry(&mut v, "ERR003", "Wrong API username or password. Check KWTSMS_USERNAME and KWTSMS_PASSWORD. These are your API credentials, not your account mobile number.");
        proof {
            reveal_strlit("ERR004");
            lemma_err_code_action(4);
        }
        assert("ERR004"@ =~= error_codes()[3]);
        push_entry(&mut v, "ERR004", "This account does not have API access. Contact kwtSMS support to enable it.");
        proof {
            reveal_strlit("ERR005");
            lemma_err_code_action(5);
        }
        assert("ERR005"@ =~= error_codes()[4]);
        push_entry(&mut v, "ERR005", "This account is blocked. Contact kwtSMS support.");
        proof {
            reveal_strlit("ERR006");
            lemma_err_code_action(6);
        }
        assert("ERR006"@ =~= error_codes()[5]);
        push_entry(&mut v, "ERR006", "No valid phone numbers. Make sure each number includes the country code (e.g., 96598765432 for Kuwait, not 98765432).");
        proof {
            reveal_strlit("ERR007");
            lemma_err_code_action(7);
        }
        assert("ERR007"@ =~= error_codes()[6]);
        push_entry(&mut v, "ERR007", "Too many numbers in a single request (maximum 200). Split into smaller batches.");
        proof {
            reveal_strlit("ERR008");
            lemma_err_code_action(8);
        }
        assert("ERR008"@ =~= error_codes()[7]);
        push_entry(&mut v, "ERR008", "This sender ID is banned or not found. Sender IDs are case sensitive. Check your registered sender IDs at kwtsms.com.");
        proof {
            reveal_strlit("ERR009");
            lemma_err_code_action(9);
        }
        assert("ERR009"@ =~= error_codes()[8]);
        push_entry(&mut v, "ERR009", "Message is empty. Provide a non-empty message text.");
        proof {
            reveal_strlit("ERR010");
            lemma_err_code_action(10);
        }
        assert("ERR010"@ =~= error_codes()[9]);
        push_entry(&mut v, "ERR010", "Account balance is zero. Recharge credits at kwtsms.com.");
        proof {
            reveal_strlit("ERR011");
            lemma_err_code_action(11);
        }
        assert("ERR011"@ =~= error_codes()[10]);
        push_entry(&mut v, "ERR011", "Insufficient balance for this send. Buy more credits at kwtsms.com.");
        proof {
            reveal_strlit("ERR012");
            lemma_err_code_action(12);
        }
        assert("ERR012"@ =~= error_codes()[11]);
        push_entry(&mut v, "ERR012", "Message is too long (over 6 SMS pages). Shorten your message.");
        proof {
            reveal_strlit("ERR013");
            lemma_err_code_action(13);
        }
        assert("ERR013"@ =~= error_codes()[12]);
        push_entry(&mut v, "ERR013", "Send queue is full (1000 messages). Wait a moment and try again.");
        proof {
            reveal_strlit("ERR019");
            lemma_err_code_action(19);
        }
        assert("ERR019"@ =~= error_codes()[13]);
        push_entry(&mut v, "ERR019", "No delivery reports found for this message.");
        proof {
            reveal_strlit("ERR020");
            lemma_err_code_action(20);
        }
        assert("ERR020"@ =~= error_codes()[14]);
        push_entry(&mut v, "ERR020", "Message ID does not exist. Make sure you saved the msg-id from the send response.");
        proof {
            reveal_strlit("ERR021");
            lemma_err_code_action(21);
        }
        assert("ERR021"@ =~= error_codes()[15]);
        push_entry(&mut v, "ERR021", "No delivery report available for this message yet.");
        proof {
            reveal_strlit("ERR022");
            lemma_err_code_action(22);
        }
        assert("ERR022"@ =~= error_codes()[16]);
        push_entry(&mut v, "ERR022", "Delivery reports are not ready yet. Try again after 24 hours.");
        proof {
            reveal_strlit("ERR023");
            lemma_err_code_action(23);
        }
        assert("ERR023"@ =~= error_codes()[17]);
        push_entry(&mut v, "ERR023", "Unknown delivery report error. Contact kwtSMS support.");
        proof {
            reveal_strlit("ERR024");
            lemma_err_code_action(24);
        }
        assert("ERR024"@ =~= error_codes()[18]);
        push_entry(&mut v, "ERR024", "Your IP address is not in the API whitelist. Add it at kwtsms.com \u{2192} Account \u{2192} API \u{2192} IP Lockdown, or disable IP lockdown.");
        proof {
            reveal_strlit("ERR025");
            lemma_err_code_action(25);
        }
        assert("ERR025"@ =~= error_codes()[19]);
        push_entry(&mut v, "ERR025", "Invalid phone number. Make sure the number includes the country code (e.g., 96598765432 for Kuwait, not 98765432).");
        proof {
            reveal_strlit("ERR026");
            lemma_err_code_action(26);
        }
        assert("ERR026"@ =~= error_codes()[20]);
        push_entry(&mut v, "ERR026", "This country is not activated on your account. Contact kwtSMS support to enable the destination country.");
        proof {
            reveal_strlit("ERR027");
            lemma_err_code_action(27);
        }
        assert("ERR027"@ =~= error_codes()[21]);
        push_entry(&mut v, "ERR027", "HTML tags are not allowed in the message. Remove any HTML content and try again.");
        proof {
            reveal_strlit("ERR028");
            lemma_err_code_action(28);
        }
        assert("ERR028"@ =~= error_codes()[22]);
        push_entry(&mut v, "ERR028", "You must wait at least 15 seconds before sending to the same number again. No credits were consumed.");
        proof {
            reveal_strlit("ERR029");
            lemma_err_code_action(29);
        }
        assert("ERR029"@ =~= error_codes()[23]);
        push_entry(&mut v, "ERR029", "Message ID does not exist or is incorrect.");
        proof {
            reveal_strlit("ERR030");
            lemma_err_code_action(30);
        }
        assert("ERR030"@ =~= error_codes()[24]);
        push_entry(&mut v, "ERR030", "Message is stuck in the send queue with an error. Delete it at kwtsms.com \u{2192} Queue to recover credits.");
        proof {
            reveal_strlit("ERR031");
            lemma_err_code_action(31);
        }
        assert("ERR031"@ =~= error_codes()[25]);
        push_entry(&mut v, "ERR031", "Message rejected: bad language detected.");
        proof {
            reveal_strlit("ERR032");
            lemma_err_code_action(32);
        }
        assert("ERR032"@ =~= error_codes()[26]);
        push_entry(&mut v, "ERR032", "Message rejected: spam detected.");
        proof {
            reveal_strlit("ERR033");
            lemma_err_code_action(33);
        }
        assert("ERR033"@ =~= error_codes()[27]);
        push_entry(&mut v, "ERR033", "No active coverage found. Contact kwtSMS support.");
        proof {
            reveal_strlit("ERR_INVALID_INPUT");
        }
        assert("ERR_INVALID_INPUT"@ =~= error_codes()[28]);
        push_entry(&mut v, "ERR_INVALID_INPUT", "One or more phone numbers are invalid. See details above.");
        v
    }

    /// An iterator over all entries of the table, in code order.
    pub fn iter(&self) -> (it: std::vec::IntoIter<(&'static str, &'static str)>)
        ensures
            it.remaining().len() == error_codes().len(),
            forall|i: int|
                0 <= i < it.remaining().len() ==> entry_matches(
                    (#[trigger] it.remaining()[i]).0@,
                    it.remaining()[i].1@,
                    i,
                ),
    {
        broadcast use vstd::std_specs::vec::axiom_spec_into_iter;

        let v = self.entries();
        v.into_iter()
    }
}

// ---------------------------------------------------------------------------
// Laws of the table
// ---------------------------------------------------------------------------

proof fn lemma_digit_char_injective(x: nat, y: nat)
    requires
        x < 10,
        y < 10,
        digit_char_of(x) == digit_char_of(y),
    ensures
        x == y,
{
}

/// A code has an action exactly when it is one of the table's codes.
pub proof fn lemma_action_iff_listed(code: Seq<char>)
    ensures
        action_for(code) is Some <==> error_codes().contains(code),
{
    if action_for(code) is Some {
        if code == invalid_input_code() {
            assert(error_codes()[28] == code);
        } else {
            let t = code.skip(3);
            assert(t[0] == code[3] && t[1] == code[4] && t[2] == code[5]);
            lemma_three_digits(t);
            let n = decimal_value(t);
            assert(n / 100 == (code[3] as nat - '0' as nat));
            assert((n / 10) % 10 == (code[4] as nat - '0' as nat));
            assert(n % 10 == (code[5] as nat - '0' as nat));
            assert(err_code_seq(n) =~= code);
            let i: int = if n <= 13 { n - 1 } else { n - 6 };
            assert(error_codes()[i] == code);
        }
    }
    if error_codes().contains(code) {
        let i = choose|i: int| 0 <= i < error_codes().len() && error_codes()[i] == code;
        if i < 13 {
            lemma_err_code_action((i + 1) as nat);
        } else if i < 28 {
            lemma_err_code_action((i + 6) as nat);
        }
    }
}

/// The table lists each code once.
pub proof fn lemma_error_codes_distinct()
    ensures
        error_codes().no_duplicates(),
{
    assert forall|i: int, j: int|
        0 <= i < error_codes().len() && 0 <= j < error_codes().len() && i != j implies error_codes()[i]
        != error_codes()[j] by {
        let a = error_codes()[i];
        let b = error_codes()[j];
        if i < 28 && j < 28 {
            let x: nat = if i < 13 { (i + 1) as nat } else { (i + 6) as nat };
            let y: nat = if j < 13 { (j + 1) as nat } else { (j + 6) as nat };
            if a == b {
                assert(a[3] == b[3] && a[4] == b[4] && a[5] == b[5]);
                lemma_digit_char_injective(x / 100, y / 100);
                lemma_digit_char_injective((x / 10) % 10, (y / 10) % 10);
                lemma_digit_char_injective(x % 10, y % 10);
                assert(x == y);
            }
        } else {
            assert(a.len() != b.len());
        }
    }
}

/// The action that `enrich_error` adds to a response: the action of its
/// string `code` when its string `result` is `"ERROR"` and the code is known.
pub open spec fn enrichment(data: serde_json::Value) -> Option<Seq<char>> {
    if json_str_field(data, "result"@) == Some("ERROR"@) && json_str_field(data, "code"@) is Some {
        action_for(json_str_field(data, "code"@)->Some_0)
    } else {
        None
    }
}

/// `new` is the response `old` enriched: with its `action` field set to the
/// enrichment where there is one and `old` is an object, every other field
/// keeping its value; else `old` itself.
pub open spec fn enriched(old_value: serde_json::Value, new_value: serde_json::Value) -> bool {
    match enrichment(old_value) {
        Some(action) => {
            &&& json_is_object(old_value) ==> str_field_set(old_value, new_value, "action"@, action)
            &&& !json_is_object(old_value) ==> new_value == old_value
        },
        None => new_value == old_value,
    }
}

/// Enrich an API response with an `action` field if it contains an error code.
///
/// When the response is an object whose `result` is `"ERROR"` and whose `code`
/// is in the table, the field `action` is set to that code's action message,
/// every other field keeping its value; otherwise the response is left unchanged.
pub fn enrich_error(data: &mut serde_json::Value)
    ensures
        enriched(*old(data), *final(data)),
{
    let result = json_get_str(data, "result");
    if let Some(r) = result {
        if str_eq(r.as_str(), "ERROR") {
            if let Some(code) = json_get_str(data, "code") {
                if let Some(action) = action_for_code(code.as_str()) {
                    json_set_str(data, "action", action);
                }
            }
        }
    }
}

} // verus!
