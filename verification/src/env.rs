//! Settings from `.env` files and environment variables.
//!
//! Parsing rules of a `.env` file:
//! - Skip blank lines and lines starting with `#`
//! - Split on first `=` only (values can contain `=`)
//! - Strip inline `# comments` from unquoted values
//! - Strip one matching outer quote pair (single or double)
use vstd::prelude::*;
use vstd::string::StringExecFns;

use crate::client::ClientConfig;
use crate::errors::KwtSmsError;
use crate::text::{
    chars_of, split_chars, split_on, string_from_chars, trim, trim_chars, trim_end,
};

verus! {

// ---------------------------------------------------------------------------
// Specifications
// ---------------------------------------------------------------------------

/// Index `i` is the first occurrence of `c` in `s`.
pub open spec fn is_first_index(s: Seq<char>, c: char, i: int) -> bool {
    0 <= i < s.len() && s[i] == c && forall|j: int| 0 <= j < i ==> s[j] != c
}

/// The index of the first occurrence of `c` in `s` (meaningful when `s` contains `c`).
pub open spec fn first_index(s: Seq<char>, c: char) -> int {
    choose|i: int| is_first_index(s, c, i)
}

/// The value of a `.env` line from the text after its first `=`: one matching
/// pair of outer quotes is removed; an unquoted value loses a `#` comment that
/// follows a space, and surrounding whitespace.
pub open spec fn env_value(raw: Seq<char>) -> Seq<char> {
    let tv = trim(raw);
    if tv.len() > 0 && ((tv[0] == '"' && tv.last() == '"') || (tv[0] == '\'' && tv.last()
        == '\'')) {
        if tv.len() >= 2 {
            tv.subrange(1, tv.len() - 1)
        } else {
            raw
        }
    } else {
        let p = first_index(raw, '#');
        if raw.contains('#') && p > 0 && raw[p - 1] == ' ' {
            trim(trim_end(raw.take(p)))
        } else {
            trim(raw)
        }
    }
}

/// The key and value that a `.env` line sets, if any.
pub open spec fn env_line(line: Seq<char>) -> Option<(Seq<char>, Seq<char>)> {
    let t = trim(line);
    if t.len() == 0 || t[0] == '#' || !t.contains('=') {
        None
    } else {
        let e = first_index(t, '=');
        let key = trim(t.take(e));
        if key.len() == 0 {
            None
        } else {
            Some((key, env_value(t.skip(e + 1))))
        }
    }
}

/// The settings of the lines `lines`, in order.
pub open spec fn env_lines(lines: Seq<Seq<char>>) -> Seq<(Seq<char>, Seq<char>)>
    decreases lines.len(),
{
    if lines.len() == 0 {
        Seq::empty()
    } else {
        match env_line(lines.last()) {
            Some(kv) => env_lines(lines.drop_last()).push(kv),
            None => env_lines(lines.drop_last()),
        }
    }
}

/// The settings of a `.env` file's content, in order of appearance.
pub open spec fn env_entries(content: Seq<char>) -> Seq<(Seq<char>, Seq<char>)> {
    env_lines(split_on(content, '\n'))
}

pub open spec fn pairs_view(v: Seq<(String, String)>) -> Seq<(Seq<char>, Seq<char>)> {
    v.map_values(|p: (String, String)| (p.0@, p.1@))
}

// ---------------------------------------------------------------------------
// Executable code
// ---------------------------------------------------------------------------

/// The first occurrence of `c` in `v`.
pub fn find_char(v: &Vec<char>, c: char) -> (r: Option<usize>)
    ensures
        r is None <==> !v@.contains(c),
        r matches Some(i) ==> is_first_index(v@, c, i as int) && i == first_index(v@, c),
{
    let mut i: usize = 0;
    while i < v.len()
        invariant
            i <= v.len(),
            forall|j: int| 0 <= j < i ==> v@[j] != c,
        decreases v.len() - i,
    {
        if v[i] == c {
            proof {
                assert(is_first_index(v@, c, i as int));
                let k = first_index(v@, c);
                assert(is_first_index(v@, c, k));
                if k < i {
                    assert(v@[k] != c);
                }
                if k > i {
                    assert(v@[i as int] != c);
                }
            }
            return Some(i);
        }
        i = i + 1;
    }
    None
}

fn take_chars(v: &Vec<char>, n: usize) -> (r: Vec<char>)
    requires
        n <= v.len(),
    ensures
        r@ == v@.take(n as int),
{
    let mut r: Vec<char> = Vec::new();
    let mut i: usize = 0;
    while i < n
        invariant
            i <= n <= v.len(),
            r@ == v@.take(i as int),
        decreases n - i,
    {
        r.push(v[i]);
        assert(v@.take(i + 1) =~= v@.take(i as int).push(v@[i as int]));
        i = i + 1;
    }
    r
}

fn range_chars(v: &Vec<char>, from: usize, to: usize) -> (r: Vec<char>)
    requires
        from <= to <= v.len(),
    ensures
        r@ == v@.subrange(from as int, to as int),
{
    let mut r: Vec<char> = Vec::new();
    let mut i: usize = from;
    while i < to
        invariant
            from <= i <= to <= v.len(),
            r@ == v@.subrange(from as int, i as int),
        decreases to - i,
    {
        r.push(v[i]);
        assert(v@.subrange(from as int, i + 1) =~= v@.subrange(from as int, i as int).push(
            v@[i as int],
        ));
        i = i + 1;
    }
    r
}

/// `v` without trailing whitespace.
fn trim_end_chars(v: &Vec<char>) -> (r: Vec<char>)
    ensures
        r@ == trim_end(v@),
{
    let mut j: usize = v.len();
    assert(v@.take(v.len() as int) =~= v@);
    while j > 0 && crate::text::white_space(v[j - 1])
        invariant
            j <= v.len(),
            trim_end(v@) == trim_end(v@.take(j as int)),
        decreases j,
    {
        assert(v@.take(j as int).drop_last() =~= v@.take(j - 1));
        j = j - 1;
    }
    take_chars(v, j)
}

fn env_value_chars(raw: &Vec<char>) -> (r: Vec<char>)
    ensures
        r@ == env_value(raw@),
{
    let tv = trim_chars(raw);
    let n = tv.len();
    if n > 0 && ((tv[0] == '"' && tv[n - 1] == '"') || (tv[0] == '\'' && tv[n - 1] == '\'')) {
        if n >= 2 {
            return range_chars(&tv, 1, n - 1);
        } else {
            return raw.clone();
        }
    }
    match find_char(raw, '#') {
        Some(p) => {
            if p > 0 && raw[p - 1] == ' ' {
                let before = take_chars(raw, p);
                let stripped = trim_end_chars(&before);
                return trim_chars(&stripped);
            }
        },
        None => {},
    }
    trim_chars(raw)
}

/// The key and value that one line of a `.env` file sets, if any.
pub fn parse_env_line(line: &Vec<char>) -> (r: Option<(String, String)>)
    ensures
        match r {
            Some(kv) => env_line(line@) == Some((kv.0@, kv.1@)),
            None => env_line(line@) is None,
        },
{
    let t = trim_chars(line);
    if t.len() == 0 || t[0] == '#' {
        return None;
    }
    let e = match find_char(&t, '=') {
        Some(e) => e,
        None => {
            return None;
        },
    };
    let key = trim_chars(&take_chars(&t, e));
    if key.len() == 0 {
        return None;
    }
    let raw = range_chars(&t, e + 1, t.len());
    assert(raw@ =~= t@.skip(e + 1));
    let value = env_value_chars(&raw);
    Some((string_from_chars(&key), string_from_chars(&value)))
}

/// The settings of a `.env` file's content, in order of appearance.
pub fn parse_env_content(content: &str) -> (r: Vec<(String, String)>)
    ensures
        pairs_view(r@) == env_entries(content@),
{
    let chars = chars_of(content);
    let lines = split_chars(&chars, '\n');
    let ghost lv = split_on(chars@, '\n');
    let mut r: Vec<(String, String)> = Vec::new();
    let mut i: usize = 0;
    assert(pairs_view(r@) =~= env_lines(lv.take(0)));
    while i < lines.len()
        invariant
            i <= lines.len(),
            lines@.len() == lv.len(),
            lv == split_on(content@, '\n'),
            forall|k: int| 0 <= k < lines@.len() ==> (#[trigger] lines@[k])@ == lv[k],
            pairs_view(r@) == env_lines(lv.take(i as int)),
        decreases lines.len() - i,
    {
        assert(lv.take(i + 1).drop_last() =~= lv.take(i as int));
        assert(lv.take(i + 1).last() == lv[i as int]);
        match parse_env_line(&lines[i]) {
            Some(kv) => {
                let ghost pv = (kv.0@, kv.1@);
                r.push(kv);
                assert(pairs_view(r@) =~= env_lines(lv.take(i as int)).push(pv));
            },
            None => {},
        }
        i = i + 1;
    }
    assert(lv.take(lines.len() as int) =~= lv);
    r
}

/// The value of a setting: the environment variable when it is set and not
/// empty, else the `.env` file's value, else the default.
pub fn resolve_setting(env_value: Option<&str>, file_value: Option<&str>, default: Option<&str>) -> (r:
    Option<String>)
    ensures
        match env_value {
            Some(e) if e@.len() > 0 => r matches Some(v) && v@ == e@,
            _ => match file_value {
                Some(f) => r matches Some(v) && v@ == f@,
                None => match default {
                    Some(d) => r matches Some(v) && v@ == d@,
                    None => r is None,
                },
            },
        },
{
    match env_value {
        Some(e) => {
            if !chars_of(e).is_empty() {
                return Some(String::from_str(e));
            }
        },
        None => {},
    }
    match file_value {
        Some(f) => Some(String::from_str(f)),
        None => match default {
            Some(d) => Some(String::from_str(d)),
            None => None,
        },
    }
}

/// Whether a `KWTSMS_TEST_MODE` value turns test mode on: `1`, or `true` in any letter case.
pub open spec fn test_mode_on(s: Seq<char>) -> bool {
    ||| s == seq!['1']
    ||| (s.len() == 4 && (s[0] == 't' || s[0] == 'T') && (s[1] == 'r' || s[1] == 'R') && (s[2]
        == 'u' || s[2] == 'U') && (s[3] == 'e' || s[3] == 'E'))
}

/// Whether a `KWTSMS_TEST_MODE` value turns test mode on.
pub fn parse_test_mode(s: &str) -> (r: bool)
    ensures
        r == test_mode_on(s@),
{
    let v = chars_of(s);
    if v.len() == 1 && v[0] == '1' {
        assert(v@ =~= seq!['1']);
        return true;
    }
    v.len() == 4 && (v[0] == 't' || v[0] == 'T') && (v[1] == 'r' || v[1] == 'R') && (v[2] == 'u'
        || v[2] == 'U') && (v[3] == 'e' || v[3] == 'E')
}

/// The client configuration from resolved settings: a missing username or
/// password is an error naming the variable; otherwise the settings are those
/// of `ClientConfig::new`.
pub fn config_from_settings(
    username: Option<String>,
    password: Option<String>,
    sender_id: &str,
    test_mode: &str,
    log_file: &str,
) -> (r: Result<ClientConfig, KwtSmsError>)
    ensures
        username is None ==> (r matches Err(KwtSmsError::InvalidInput(m)) && m@
            == "KWTSMS_USERNAME not found in environment or .env file"@),
        username is Some && password is None ==> (r matches Err(KwtSmsError::InvalidInput(m))
            && m@ == "KWTSMS_PASSWORD not found in environment or .env file"@),
        username is Some && password is Some ==> match r {
            Ok(c) => {
                &&& trim(username.unwrap()@).len() > 0
                &&& trim(password.unwrap()@).len() > 0
                &&& c.username@ == trim(username.unwrap()@)
                &&& c.password@ == trim(password.unwrap()@)
                &&& c.sender_id@ == sender_id@
                &&& c.test_mode == test_mode_on(test_mode@)
                &&& c.log_file@ == log_file@
            },
            Err(KwtSmsError::InvalidInput(m)) => {
                ||| trim(username.unwrap()@).len() == 0 && m@ == "Username is required"@
                ||| trim(username.unwrap()@).len() > 0 && trim(password.unwrap()@).len() == 0 && m@ == "Password is required"@
            },
            _ => false,
        },
{
    let user = match username {
        Some(u) => u,
        None => {
            return Err(
                KwtSmsError::InvalidInput(
                    String::from_str("KWTSMS_USERNAME not found in environment or .env file"),
                ),
            );
        },
    };
    let pass = match password {
        Some(p) => p,
        None => {
            return Err(
                KwtSmsError::InvalidInput(
                    String::from_str("KWTSMS_PASSWORD not found in environment or .env file"),
                ),
            );
        },
    };
    let on = parse_test_mode(test_mode);
    ClientConfig::new(user.as_str(), pass.as_str(), Some(sender_id), on, Some(log_file))
}

/// The ASCII lower case of a character: `A`..`Z` become `a`..`z`, every
/// other character stays.
pub open spec fn ascii_lower(c: char) -> char {
    if 0x41 <= (c as u32) <= 0x5A {
        ((c as u32) + 0x20) as char
    } else {
        c
    }
}

/// The ASCII lower case of a text, character by character.
pub open spec fn ascii_lower_text(s: Seq<char>) -> Seq<char> {
    Seq::new(s.len(), |i: int| ascii_lower(s[i]))
}

proof fn lemma_lower_letters(c: char)
    ensures
        ascii_lower(c) == 't' <==> (c == 't' || c == 'T'),
        ascii_lower(c) == 'r' <==> (c == 'r' || c == 'R'),
        ascii_lower(c) == 'u' <==> (c == 'u' || c == 'U'),
        ascii_lower(c) == 'e' <==> (c == 'e' || c == 'E'),
{
}

/// Test mode is on exactly for the value `1` and for `true` in any mix of
/// upper and lower case.
pub proof fn lemma_test_mode_values(s: Seq<char>)
    ensures
        test_mode_on(s) == (s == "1"@ || ascii_lower_text(s) == "true"@),
{
    reveal_strlit("1");
    reveal_strlit("true");
    assert("1"@ =~= seq!['1']);
    let t = "true"@;
    assert(t.len() == 4 && t[0] == 't' && t[1] == 'r' && t[2] == 'u' && t[3] == 'e');
    if s.len() == 4 {
        let l = ascii_lower_text(s);
        assert(l[0] == ascii_lower(s[0]) && l[1] == ascii_lower(s[1]));
        assert(l[2] == ascii_lower(s[2]) && l[3] == ascii_lower(s[3]));
        lemma_lower_letters(s[0]);
        lemma_lower_letters(s[1]);
        lemma_lower_letters(s[2]);
        lemma_lower_letters(s[3]);
        if l[0] == 't' && l[1] == 'r' && l[2] == 'u' && l[3] == 'e' {
            assert(l =~= t);
        }
        assert(s != seq!['1']);
    } else {
        assert(ascii_lower_text(s).len() != t.len());
    }
}

} // verus!

