use kwtsms::clean_message;

#[test]
fn test_clean_plain_text() {
    assert_eq!(clean_message("Hello World"), "Hello World");
}

#[test]
fn test_clean_arabic_digits() {
    assert_eq!(clean_message("Order \u{0661}\u{0662}\u{0663}"), "Order 123");
}

#[test]
fn test_clean_persian_digits() {
    assert_eq!(clean_message("Code \u{06F4}\u{06F5}\u{06F6}"), "Code 456");
}

#[test]
fn test_clean_emojis() {
    assert_eq!(clean_message("Hello \u{1F389}"), "Hello ");
}

#[test]
fn test_clean_multiple_emojis() {
    assert_eq!(clean_message("\u{1F389}\u{1F38A}\u{1F680}"), "");
}

#[test]
fn test_clean_emoji_only() {
    assert_eq!(clean_message("\u{1F600}\u{1F601}\u{1F602}"), "");
}

#[test]
fn test_clean_html_tags() {
    assert_eq!(clean_message("Hello<b>World</b>"), "HelloWorld");
}

#[test]
fn test_clean_html_with_attributes() {
    assert_eq!(clean_message("<p class=\"test\">Hello</p>"), "Hello");
}

#[test]
fn test_clean_zero_width_space() {
    assert_eq!(clean_message("Hello\u{200B}World"), "HelloWorld");
}

#[test]
fn test_clean_bom() {
    assert_eq!(clean_message("\u{FEFF}Hello"), "Hello");
}

#[test]
fn test_clean_soft_hyphen() {
    assert_eq!(clean_message("Hel\u{00AD}lo"), "Hello");
}

#[test]
fn test_clean_zero_width_joiner() {
    assert_eq!(clean_message("Hello\u{200D}World"), "HelloWorld");
}

#[test]
fn test_clean_preserves_arabic_text() {
    assert_eq!(
        clean_message("\u{0645}\u{0631}\u{062D}\u{0628}\u{0627}"),
        "\u{0645}\u{0631}\u{062D}\u{0628}\u{0627}"
    );
}

#[test]
fn test_clean_preserves_newlines() {
    assert_eq!(clean_message("Hello\nWorld"), "Hello\nWorld");
}

#[test]
fn test_clean_preserves_tabs() {
    assert_eq!(clean_message("Hello\tWorld"), "Hello\tWorld");
}

#[test]
fn test_clean_removes_null() {
    assert_eq!(clean_message("Hello\0World"), "HelloWorld");
}

#[test]
fn test_clean_directional_marks() {
    assert_eq!(clean_message("Hello\u{200E}World"), "HelloWorld");
    assert_eq!(clean_message("Hello\u{200F}World"), "HelloWorld");
}

#[test]
fn test_clean_c1_controls() {
    assert_eq!(clean_message("Hello\u{0080}World"), "HelloWorld");
    assert_eq!(clean_message("Hello\u{009F}World"), "HelloWorld");
}

#[test]
fn test_clean_variation_selectors() {
    assert_eq!(clean_message("Hello\u{FE0F}World"), "HelloWorld");
}

#[test]
fn test_clean_misc_symbols() {
    // U+2600 = Black sun with rays
    assert_eq!(clean_message("Weather \u{2600}"), "Weather ");
}

#[test]
fn test_clean_dingbats() {
    // U+2702 = Black scissors
    assert_eq!(clean_message("Cut \u{2702}"), "Cut ");
}

#[test]
fn test_clean_keycap() {
    // U+20E3 = Combining enclosing keycap
    assert_eq!(clean_message("1\u{20E3}"), "1");
}

#[test]
fn test_clean_regional_indicators() {
    // U+1F1FA U+1F1F8 = US flag
    assert_eq!(clean_message("\u{1F1FA}\u{1F1F8}"), "");
}

#[test]
fn test_clean_tags_block() {
    assert_eq!(clean_message("\u{E0001}"), "");
}

#[test]
fn test_clean_complex_message() {
    assert_eq!(
        clean_message(
            "Your OTP is \u{0661}\u{0662}\u{0663}\u{0664} \u{1F600}\u{200B}<b>Hello</b>"
        ),
        "Your OTP is 1234 Hello"
    );
}
