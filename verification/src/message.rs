//! Cleaning of SMS message text before sending.
//!
//! Processing order:
//! 1. Convert Arabic-Indic and Extended Arabic-Indic digits to Latin
//! 2. Remove emojis (all major emoji Unicode ranges)
//! 3. Remove hidden invisible characters (zero-width space, BOM, soft hyphen, etc.)
//! 4. Remove directional formatting characters
//! 5. Remove C0/C1 control characters (preserve \n and \t)
//! 6. Strip HTML tags
//!
//! Arabic letters are preserved (fully supported by kwtSMS).
use vstd::prelude::*;

use crate::text::{chars_of, digit_char_of, string_from_chars};

verus! {

// ---------------------------------------------------------------------------
// Specifications
// ---------------------------------------------------------------------------

/// The emoji blocks that are removed.
pub open spec fn emoji_char(c: char) -> bool {
    let cp = c as u32;
    ||| 0x1F000 <= cp <= 0x1F02F  // Mahjong, domino tiles
    ||| 0x1F0A0 <= cp <= 0x1F0FF  // Playing cards
    ||| 0x1F1E0 <= cp <= 0x1F1FF  // Regional indicator symbols / flag components
    ||| 0x1F300 <= cp <= 0x1F5FF  // Misc symbols and pictographs
    ||| 0x1F600 <= cp <= 0x1F64F  // Emoticons
    ||| 0x1F680 <= cp <= 0x1F6FF  // Transport and map
    ||| 0x1F700 <= cp <= 0x1F77F  // Alchemical symbols
    ||| 0x1F780 <= cp <= 0x1F7FF  // Geometric shapes extended
    ||| 0x1F800 <= cp <= 0x1F8FF  // Supplemental arrows
    ||| 0x1F900 <= cp <= 0x1F9FF  // Supplemental symbols and pictographs
    ||| 0x1FA00 <= cp <= 0x1FA6F  // Chess symbols
    ||| 0x1FA70 <= cp <= 0x1FAFF  // Symbols and pictographs extended
    ||| 0x2600 <= cp <= 0x26FF  // Misc symbols
    ||| 0x2700 <= cp <= 0x27BF  // Dingbats
    ||| 0xFE00 <= cp <= 0xFE0F  // Variation selectors
    ||| cp == 0x20E3  // Combining enclosing keycap
    ||| 0xE0000 <= cp <= 0xE007F  // Tags block (subdivision flags)
}

/// Invisible characters that are removed.
pub open spec fn hidden_char(c: char) -> bool {
    ||| c == '\u{200B}'  // Zero-width space
    ||| c == '\u{200C}'  // Zero-width non-joiner
    ||| c == '\u{200D}'  // Zero-width joiner
    ||| c == '\u{2060}'  // Word joiner
    ||| c == '\u{00AD}'  // Soft hyphen
    ||| c == '\u{FEFF}'  // BOM
    ||| c == '\u{FFFC}'  // Object replacement character
}

/// Directional formatting characters that are removed.
pub open spec fn directional_char(c: char) -> bool {
    ||| c == '\u{200E}'  // Left-to-right mark
    ||| c == '\u{200F}'  // Right-to-left mark
    ||| '\u{202A}' <= c <= '\u{202E}'  // LRE, RLE, PDF, LRO, RLO
    ||| '\u{2066}' <= c <= '\u{2069}'  // LRI, RLI, FSI, PDI
}

/// C0 and C1 control characters and DEL.
pub open spec fn control_char(c: char) -> bool {
    let cp = c as u32;
    cp <= 0x1F || cp == 0x7F || (0x80 <= cp <= 0x9F)
}

/// What becomes of one character before HTML tags are stripped: Arabic digits
/// turn into Latin digits, removed characters give `None`, others stay.
pub open spec fn clean_char(c: char) -> Option<char> {
    if '\u{0660}' <= c <= '\u{0669}' {
        Some(digit_char_of((c as u32 - 0x0660) as nat))
    } else if '\u{06F0}' <= c <= '\u{06F9}' {
        Some(digit_char_of((c as u32 - 0x06F0) as nat))
    } else if emoji_char(c) || hidden_char(c) || directional_char(c) || (control_char(c) && c != '\n'
        && c != '\t') {
        None
    } else {
        Some(c)
    }
}

/// The characters of `s` after the per-character step.
pub open spec fn filter_chars(s: Seq<char>) -> Seq<char>
    decreases s.len(),
{
    if s.len() == 0 {
        Seq::empty()
    } else {
        match clean_char(s.last()) {
            Some(d) => filter_chars(s.drop_last()).push(d),
            None => filter_chars(s.drop_last()),
        }
    }
}

/// Whether the tag scanner is inside a tag after reading `s`: a `<` opens a
/// tag, a `>` closes an open one.
pub open spec fn in_tag_after(s: Seq<char>) -> bool
    decreases s.len(),
{
    if s.len() == 0 {
        false
    } else {
        let before = in_tag_after(s.drop_last());
        if s.last() == '<' {
            true
        } else if s.last() == '>' && before {
            false
        } else {
            before
        }
    }
}

/// `s` with its HTML tags removed: `<` and everything up to and including the
/// next `>` are dropped (an unclosed tag runs to the end).
pub open spec fn strip_tags(s: Seq<char>) -> Seq<char>
    decreases s.len(),
{
    if s.len() == 0 {
        Seq::empty()
    } else {
        let before = in_tag_after(s.drop_last());
        let c = s.last();
        if c == '<' || (c == '>' && before) || before {
            strip_tags(s.drop_last())
        } else {
            strip_tags(s.drop_last()).push(c)
        }
    }
}

/// The cleaned form of a message.
pub open spec fn cleaned(s: Seq<char>) -> Seq<char> {
    strip_tags(filter_chars(s))
}

/// A character that cleaning keeps as it is.
pub open spec fn is_kept(c: char) -> bool {
    clean_char(c) == Some(c)
}

// ---------------------------------------------------------------------------
// Executable code
// ---------------------------------------------------------------------------

fn is_emoji(c: char) -> (r: bool)
    ensures
        r == emoji_char(c),
{
    let cp = c as u32;
    (0x1F000 <= cp && cp <= 0x1F02F) || (0x1F0A0 <= cp && cp <= 0x1F0FF) || (0x1F1E0 <= cp && cp
        <= 0x1F1FF) || (0x1F300 <= cp && cp <= 0x1F5FF) || (0x1F600 <= cp && cp <= 0x1F64F) || (
    0x1F680 <= cp && cp <= 0x1F6FF) || (0x1F700 <= cp && cp <= 0x1F77F) || (0x1F780 <= cp && cp
        <= 0x1F7FF) || (0x1F800 <= cp && cp <= 0x1F8FF) || (0x1F900 <= cp && cp <= 0x1F9FF) || (
    0x1FA00 <= cp && cp <= 0x1FA6F) || (0x1FA70 <= cp && cp <= 0x1FAFF) || (0x2600 <= cp && cp
        <= 0x26FF) || (0x2700 <= cp && cp <= 0x27BF) || (0xFE00 <= cp && cp <= 0xFE0F) || cp
        == 0x20E3 || (0xE0000 <= cp && cp <= 0xE007F)
}

fn is_hidden_char(c: char) -> (r: bool)
    ensures
        r == hidden_char(c),
{
    c == '\u{200B}' || c == '\u{200C}' || c == '\u{200D}' || c == '\u{2060}' || c == '\u{00AD}'
        || c == '\u{FEFF}' || c == '\u{FFFC}'
}

fn is_directional_char(c: char) -> (r: bool)
    ensures
        r == directional_char(c),
{
    c == '\u{200E}' || c == '\u{200F}' || ('\u{202A}' <= c && c <= '\u{202E}') || ('\u{2066}' <= c
        && c <= '\u{2069}')
}

fn is_control_char(c: char) -> (r: bool)
    ensures
        r == control_char(c),
{
    let cp = c as u32;
    cp <= 0x1F || cp == 0x7F || (0x80 <= cp && cp <= 0x9F)
}

fn clean_one(c: char) -> (r: Option<char>)
    ensures
        r == clean_char(c),
{
    if '\u{0660}' <= c && c <= '\u{0669}' {
        let k: u32 = (c as u32) - 0x0660;
        return Some((48u8 + (k as u8)) as char);
    }
    if '\u{06F0}' <= c && c <= '\u{06F9}' {
        let k: u32 = (c as u32) - 0x06F0;
        return Some((48u8 + (k as u8)) as char);
    }
    if is_emoji(c) || is_hidden_char(c) || is_directional_char(c) || (is_control_char(c) && c != '\n' && c != '\t') {
        return None;
    }
    Some(c)
}

fn strip_html_tags(v: &Vec<char>) -> (r: Vec<char>)
    ensures
        r@ == strip_tags(v@),
{
    let mut r: Vec<char> = Vec::new();
    let mut in_tag = false;
    let mut i: usize = 0;
    while i < v.len()
        invariant
            i <= v.len(),
            r@ == strip_tags(v@.take(i as int)),
            in_tag == in_tag_after(v@.take(i as int)),
        decreases v.len() - i,
    {
        let c = v[i];
        assert(v@.take(i + 1).drop_last() =~= v@.take(i as int));
        if c == '<' {
            in_tag = true;
        } else if c == '>' && in_tag {
            in_tag = false;
        } else if !in_tag {
            r.push(c);
        }
        i = i + 1;
    }
    assert(v@.take(v.len() as int) =~= v@);
    r
}

fn cleaned_chars(v: &Vec<char>) -> (r: Vec<char>)
    ensures
        r@ == cleaned(v@),
{
    let mut kept: Vec<char> = Vec::new();
    let mut i: usize = 0;
    while i < v.len()
        invariant
            i <= v.len(),
            kept@ == filter_chars(v@.take(i as int)),
        decreases v.len() - i,
    {
        assert(v@.take(i + 1).drop_last() =~= v@.take(i as int));
        match clean_one(v[i]) {
            Some(d) => kept.push(d),
            None => {},
        }
        i = i + 1;
    }
    assert(v@.take(v.len() as int) =~= v@);
    strip_html_tags(&kept)
}

/// Clean SMS message text before sending.
///
/// Converts Arabic-Indic and Extended Arabic-Indic digits to Latin digits,
/// removes emojis, invisible and directional formatting characters and control
/// characters other than newline and tab, then strips HTML tags.
pub fn clean_message(text: &str) -> (r: String)
    ensures
        r@ == cleaned(text@),
{
    let v = chars_of(text);
    let c = cleaned_chars(&v);
    string_from_chars(&c)
}

// ---------------------------------------------------------------------------
// Laws
// ---------------------------------------------------------------------------

proof fn lemma_filter_kept(s: Seq<char>)
    ensures
        forall|i: int| 0 <= i < filter_chars(s).len() ==> is_kept(#[trigger] filter_chars(s)[i]),
        filter_chars(s).len() <= s.len(),
    decreases s.len(),
{
    if s.len() > 0 {
        lemma_filter_kept(s.drop_last());
    }
}

proof fn lemma_filter_identity(s: Seq<char>)
    requires
        forall|i: int| 0 <= i < s.len() ==> is_kept(#[trigger] s[i]),
    ensures
        filter_chars(s) == s,
    decreases s.len(),
{
    if s.len() > 0 {
        let p = s.drop_last();
        assert forall|i: int| 0 <= i < p.len() implies is_kept(#[trigger] p[i]) by {
            assert(p[i] == s[i]);
        }
        lemma_filter_identity(p);
        assert(is_kept(s[s.len() - 1]));
        assert(p.push(s.last()) =~= s);
    }
}

/// Every character that `strip_tags` outputs comes from its input, and no `<` is output.
proof fn lemma_strip_tags_sub(s: Seq<char>)
    ensures
        forall|i: int| 0 <= i < strip_tags(s).len() ==> s.contains(#[trigger] strip_tags(s)[i]),
        forall|i: int| 0 <= i < strip_tags(s).len() ==> #[trigger] strip_tags(s)[i] != '<',
        strip_tags(s).len() <= s.len(),
    decreases s.len(),
{
    if s.len() > 0 {
        let p = s.drop_last();
        lemma_strip_tags_sub(p);
        assert forall|i: int| 0 <= i < strip_tags(s).len() implies s.contains(
            #[trigger] strip_tags(s)[i],
        ) by {
            if i < strip_tags(p).len() {
                let c = strip_tags(p)[i];
                assert(strip_tags(s)[i] == c);
                let j = choose|j: int| 0 <= j < p.len() && p[j] == c;
                assert(s[j] == c);
            } else {
                assert(s[s.len() - 1] == strip_tags(s)[i]);
            }
        }
    }
}

/// Without any `<`, the tag scanner never enters a tag and keeps everything.
proof fn lemma_strip_tags_no_open(s: Seq<char>)
    requires
        forall|i: int| 0 <= i < s.len() ==> s[i] != '<',
    ensures
        !in_tag_after(s),
        strip_tags(s) == s,
    decreases s.len(),
{
    if s.len() > 0 {
        let p = s.drop_last();
        assert forall|i: int| 0 <= i < p.len() implies p[i] != '<' by {
            assert(p[i] == s[i]);
        }
        lemma_strip_tags_no_open(p);
        assert(s[s.len() - 1] != '<');
        assert(p.push(s.last()) =~= s);
    }
}

/// Cleaned text keeps only characters that cleaning leaves as they are, holds
/// no `<`, and is no longer than the input.
pub proof fn lemma_cleaned_chars(s: Seq<char>)
    ensures
        forall|i: int| 0 <= i < cleaned(s).len() ==> is_kept(#[trigger] cleaned(s)[i]),
        forall|i: int| 0 <= i < cleaned(s).len() ==> #[trigger] cleaned(s)[i] != '<',
        cleaned(s).len() <= s.len(),
{
    lemma_filter_kept(s);
    lemma_strip_tags_sub(filter_chars(s));
    let f = filter_chars(s);
    assert forall|i: int| 0 <= i < cleaned(s).len() implies is_kept(#[trigger] cleaned(s)[i]) by {
        let c = cleaned(s)[i];
        assert(f.contains(c));
        let j = choose|j: int| 0 <= j < f.len() && f[j] == c;
        assert(is_kept(f[j]));
    }
}

/// Cleaning is idempotent: a cleaned message is left unchanged by a second cleaning.
pub proof fn lemma_clean_idempotent(s: Seq<char>)
    ensures
        cleaned(cleaned(s)) == cleaned(s),
{
    let c = cleaned(s);
    lemma_cleaned_chars(s);
    lemma_filter_identity(c);
    assert forall|i: int| 0 <= i < c.len() implies c[i] != '<' by {}
    lemma_strip_tags_no_open(c);
}

proof fn lemma_kept_excludes(c: char)
    requires
        is_kept(c),
    ensures
        !emoji_char(c),
        !hidden_char(c),
        !directional_char(c),
        control_char(c) ==> c == '\n' || c == '\t',
        !(0x0660 <= (c as u32) <= 0x0669),
        !(0x06F0 <= (c as u32) <= 0x06F9),
{
    let cp = c as u32;
    if '\u{0660}' <= c <= '\u{0669}' {
        assert(digit_char_of((cp - 0x0660) as nat) != c);
    } else if '\u{06F0}' <= c <= '\u{06F9}' {
        assert(digit_char_of((cp - 0x06F0) as nat) != c);
    }
}

/// No character that cleaning removes or converts is left in a cleaned
/// message: no emoji of the removed blocks, no invisible, directional or
/// control character (but newline and tab), and no Arabic-Indic or Extended
/// Arabic-Indic digit.
pub proof fn lemma_cleaned_excludes(s: Seq<char>)
    ensures
        forall|i: int|
            0 <= i < cleaned(s).len() ==> {
                let cp = (#[trigger] cleaned(s)[i]) as u32;
                &&& !(0x1F000 <= cp <= 0x1F02F || 0x1F0A0 <= cp <= 0x1F0FF || 0x1F1E0 <= cp <= 0x1F1FF)
                &&& !(0x1F300 <= cp <= 0x1F5FF || 0x1F600 <= cp <= 0x1F64F || 0x1F680 <= cp <= 0x1F6FF)
                &&& !(0x1F700 <= cp <= 0x1F77F || 0x1F780 <= cp <= 0x1F7FF || 0x1F800 <= cp <= 0x1F8FF)
                &&& !(0x1F900 <= cp <= 0x1F9FF || 0x1FA00 <= cp <= 0x1FA6F || 0x1FA70 <= cp <= 0x1FAFF)
                &&& !(0x2600 <= cp <= 0x26FF || 0x2700 <= cp <= 0x27BF || 0xFE00 <= cp <= 0xFE0F)
                &&& cp != 0x20E3 && !(0xE0000 <= cp <= 0xE007F)
                &&& !(cleaned(s)[i] == '\u{200B}' || cleaned(s)[i] == '\u{200C}' || cleaned(s)[i] == '\u{200D}')
                &&& !(cleaned(s)[i] == '\u{2060}' || cleaned(s)[i] == '\u{00AD}' || cleaned(s)[i] == '\u{FEFF}')
                &&& cleaned(s)[i] != '\u{FFFC}'
                &&& cleaned(s)[i] != '\u{200E}' && cleaned(s)[i] != '\u{200F}'
                &&& !('\u{202A}' <= cleaned(s)[i] <= '\u{202E}') && !('\u{2066}' <= cleaned(s)[i] <= '\u{2069}')
                &&& (cp <= 0x1F ==> cleaned(s)[i] == '\n' || cleaned(s)[i] == '\t')
                &&& cp != 0x7F && !(0x80 <= cp <= 0x9F)
                &&& !(0x0660 <= cp <= 0x0669) && !(0x06F0 <= cp <= 0x06F9)
            },
{
    lemma_cleaned_chars(s);
    assert forall|i: int| 0 <= i < cleaned(s).len() implies {
        let cp = (#[trigger] cleaned(s)[i]) as u32;
        &&& !(0x1F000 <= cp <= 0x1F02F || 0x1F0A0 <= cp <= 0x1F0FF || 0x1F1E0 <= cp <= 0x1F1FF)
        &&& !(0x1F300 <= cp <= 0x1F5FF || 0x1F600 <= cp <= 0x1F64F || 0x1F680 <= cp <= 0x1F6FF)
        &&& !(0x1F700 <= cp <= 0x1F77F || 0x1F780 <= cp <= 0x1F7FF || 0x1F800 <= cp <= 0x1F8FF)
        &&& !(0x1F900 <= cp <= 0x1F9FF || 0x1FA00 <= cp <= 0x1FA6F || 0x1FA70 <= cp <= 0x1FAFF)
        &&& !(0x2600 <= cp <= 0x26FF || 0x2700 <= cp <= 0x27BF || 0xFE00 <= cp <= 0xFE0F)
        &&& cp != 0x20E3 && !(0xE0000 <= cp <= 0xE007F)
        &&& !(cleaned(s)[i] == '\u{200B}' || cleaned(s)[i] == '\u{200C}' || cleaned(s)[i] == '\u{200D}')
        &&& !(cleaned(s)[i] == '\u{2060}' || cleaned(s)[i] == '\u{00AD}' || cleaned(s)[i] == '\u{FEFF}')
        &&& cleaned(s)[i] != '\u{FFFC}'
        &&& cleaned(s)[i] != '\u{200E}' && cleaned(s)[i] != '\u{200F}'
        &&& !('\u{202A}' <= cleaned(s)[i] <= '\u{202E}') && !('\u{2066}' <= cleaned(s)[i] <= '\u{2069}')
        &&& (cp <= 0x1F ==> cleaned(s)[i] == '\n' || cleaned(s)[i] == '\t')
        &&& cp != 0x7F && !(0x80 <= cp <= 0x9F)
        &&& !(0x0660 <= cp <= 0x0669) && !(0x06F0 <= cp <= 0x06F9)
    } by {
        lemma_kept_excludes(cleaned(s)[i]);
    }
}

/// Cleaning a single character: an Arabic-Indic or Extended Arabic-Indic
/// digit becomes the Latin digit of the same value, a character of the removed
/// emoji blocks disappears, and a letter of the Latin or Arabic alphabet stays.
pub proof fn lemma_clean_one_char(c: char)
    ensures
        0x0660 <= (c as u32) <= 0x0669 ==> cleaned(seq![c]).len() == 1 && cleaned(seq![c])[0] as u32
            == (c as u32) - 0x0630,
        0x06F0 <= (c as u32) <= 0x06F9 ==> cleaned(seq![c]).len() == 1 && cleaned(seq![c])[0] as u32
            == (c as u32) - 0x06C0,
        ({
            let cp = c as u32;
            ||| 0x1F000 <= cp <= 0x1F02F || 0x1F0A0 <= cp <= 0x1F0FF || 0x1F1E0 <= cp <= 0x1F1FF
            ||| 0x1F300 <= cp <= 0x1F5FF || 0x1F600 <= cp <= 0x1F64F || 0x1F680 <= cp <= 0x1F6FF
            ||| 0x1F700 <= cp <= 0x1F77F || 0x1F780 <= cp <= 0x1F7FF || 0x1F800 <= cp <= 0x1F8FF
            ||| 0x1F900 <= cp <= 0x1F9FF || 0x1FA00 <= cp <= 0x1FA6F || 0x1FA70 <= cp <= 0x1FAFF
            ||| 0x2600 <= cp <= 0x26FF || 0x2700 <= cp <= 0x27BF || 0xFE00 <= cp <= 0xFE0F
            ||| cp == 0x20E3 || 0xE0000 <= cp <= 0xE007F
        }) ==> cleaned(seq![c]).len() == 0,
        (0x41 <= (c as u32) <= 0x5A || 0x61 <= (c as u32) <= 0x7A || 0x0621 <= (c as u32) <= 0x064A)
            ==> cleaned(seq![c]) == seq![c],
{
    let s = seq![c];
    assert(s.drop_last() =~= Seq::<char>::empty());
    let f = filter_chars(s);
    assert(filter_chars(s.drop_last()) =~= Seq::<char>::empty());
    if f.len() == 1 {
        assert(f.drop_last() =~= Seq::<char>::empty());
        assert(strip_tags(f.drop_last()) =~= Seq::<char>::empty());
        assert(!in_tag_after(f.drop_last()));
        if f.last() != '<' {
            assert(strip_tags(f) == strip_tags(f.drop_last()).push(f.last()));
            assert(strip_tags(f) =~= f);
        }
    }
}

} // verus!

