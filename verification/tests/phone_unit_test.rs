use kwtsms::{find_country_code, normalize_phone, validate_phone_format, validate_phone_input};

// ===== normalize_phone tests =====

#[test]
fn test_normalize_plain_number() {
    assert_eq!(normalize_phone("96598765432"), "96598765432");
}

#[test]
fn test_normalize_plus_prefix() {
    assert_eq!(normalize_phone("+96598765432"), "96598765432");
}

#[test]
fn test_normalize_double_zero_prefix() {
    assert_eq!(normalize_phone("0096598765432"), "96598765432");
}

#[test]
fn phone_test_normalize_spaces() {
    assert_eq!(normalize_phone("965 9876 5432"), "96598765432");
}

#[test]
fn phone_test_normalize_dashes() {
    assert_eq!(normalize_phone("965-9876-5432"), "96598765432");
}

#[test]
fn phone_test_normalize_dots() {
    assert_eq!(normalize_phone("965.9876.5432"), "96598765432");
}

#[test]
fn test_normalize_parentheses() {
    assert_eq!(normalize_phone("(965) 98765432"), "96598765432");
}

#[test]
fn test_normalize_arabic_digits() {
    assert_eq!(
        normalize_phone("\u{0669}\u{0666}\u{0665}\u{0669}\u{0668}\u{0667}\u{0666}\u{0665}\u{0664}\u{0663}\u{0662}"),
        "96598765432"
    );
}

#[test]
fn phone_test_normalize_persian_digits() {
    assert_eq!(
        normalize_phone("\u{06F9}\u{06F6}\u{06F5}\u{06F9}\u{06F8}\u{06F7}\u{06F6}\u{06F5}\u{06F4}\u{06F3}\u{06F2}"),
        "96598765432"
    );
}

#[test]
fn phone_test_normalize_empty() {
    assert_eq!(normalize_phone(""), "");
}

#[test]
fn phone_test_normalize_whitespace_only() {
    assert_eq!(normalize_phone("   "), "");
}

#[test]
fn phone_test_normalize_leading_zeros() {
    assert_eq!(normalize_phone("0098765432"), "98765432");
}

#[test]
fn test_normalize_mixed() {
    assert_eq!(normalize_phone("+00 965-9876-5432"), "96598765432");
}

// ===== Domestic trunk prefix stripping =====

#[test]
fn test_normalize_saudi_trunk_prefix() {
    // 9660559... -> 966559...
    assert_eq!(normalize_phone("9660559876543"), "966559876543");
}

#[test]
fn test_normalize_saudi_with_plus_trunk() {
    assert_eq!(normalize_phone("+9660559876543"), "966559876543");
}

#[test]
fn test_normalize_saudi_with_00_trunk() {
    assert_eq!(normalize_phone("009660559876543"), "966559876543");
}

#[test]
fn test_normalize_uae_trunk_prefix() {
    // 9710501234567 -> 971501234567
    assert_eq!(normalize_phone("9710501234567"), "971501234567");
}

#[test]
fn test_normalize_egypt_trunk_prefix() {
    // 20010x -> 2010x
    assert_eq!(normalize_phone("20010123456789"), "2010123456789");
}

#[test]
fn phone_test_normalize_no_trunk_no_change() {
    // Already correct, no trunk prefix
    assert_eq!(normalize_phone("966559876543"), "966559876543");
}

#[test]
fn phone_test_normalize_kuwait_no_trunk() {
    // Kuwait numbers don't have trunk prefixes
    assert_eq!(normalize_phone("96598765432"), "96598765432");
}

// ===== find_country_code tests =====

#[test]
fn test_find_cc_kuwait() {
    assert_eq!(find_country_code("96598765432"), Some("965"));
}

#[test]
fn test_find_cc_usa() {
    assert_eq!(find_country_code("12025551234"), Some("1"));
}

#[test]
fn test_find_cc_egypt() {
    assert_eq!(find_country_code("201012345678"), Some("20"));
}

#[test]
fn phone_test_find_cc_unknown() {
    assert_eq!(find_country_code("99912345678"), None);
}

#[test]
fn phone_test_find_cc_empty() {
    assert_eq!(find_country_code(""), None);
}

// ===== validate_phone_format tests =====

#[test]
fn phone_test_format_kuwait_valid() {
    let (valid, err) = validate_phone_format("96598765432");
    assert!(valid);
    assert!(err.is_none());
}

#[test]
fn phone_test_format_kuwait_wrong_length() {
    let (valid, err) = validate_phone_format("9659876543"); // 7 local digits instead of 8
    assert!(!valid);
    assert!(err.unwrap().contains("expected 8 digits"));
}

#[test]
fn phone_test_format_kuwait_wrong_prefix() {
    let (valid, err) = validate_phone_format("96512345678"); // starts with 1, not 4/5/6/9
    assert!(!valid);
    assert!(err.unwrap().contains("must start with"));
}

#[test]
fn phone_test_format_saudi_valid() {
    let (valid, err) = validate_phone_format("966559876543");
    assert!(valid);
    assert!(err.is_none());
}

#[test]
fn phone_test_format_saudi_wrong_prefix() {
    let (valid, err) = validate_phone_format("966159876543"); // starts with 1, not 5
    assert!(!valid);
    assert!(err.unwrap().contains("must start with 5"));
}

#[test]
fn phone_test_format_unknown_country_passes() {
    let (valid, err) = validate_phone_format("99912345678");
    assert!(valid);
    assert!(err.is_none());
}

#[test]
fn phone_test_format_usa_valid() {
    let (valid, err) = validate_phone_format("12025551234");
    assert!(valid);
    assert!(err.is_none());
}

#[test]
fn phone_test_format_belgium_no_prefix_check() {
    // Belgium has no mobile_start_digits, only length check
    let (valid, err) = validate_phone_format("32412345678");
    assert!(valid);
    assert!(err.is_none());
}

// ===== validate_phone_input tests (with country format) =====

#[test]
fn phone_test_validate_valid_number() {
    let (valid, err, normalized) = validate_phone_input("+96598765432");
    assert!(valid);
    assert!(err.is_none());
    assert_eq!(normalized, "96598765432");
}

#[test]
fn phone_test_validate_empty() {
    let (valid, err, _) = validate_phone_input("");
    assert!(!valid);
    assert_eq!(err.unwrap(), "Phone number is required");
}

#[test]
fn phone_test_validate_blank() {
    let (valid, err, _) = validate_phone_input("   ");
    assert!(!valid);
    assert_eq!(err.unwrap(), "Phone number is required");
}

#[test]
fn phone_test_validate_email() {
    let (valid, err, _) = validate_phone_input("user@gmail.com");
    assert!(!valid);
    assert!(err.unwrap().contains("email address"));
}

#[test]
fn phone_test_validate_no_digits() {
    let (valid, err, _) = validate_phone_input("abc");
    assert!(!valid);
    assert!(err.unwrap().contains("no digits found"));
}

#[test]
fn phone_test_validate_too_short() {
    let (valid, err, normalized) = validate_phone_input("123456");
    assert!(!valid);
    assert!(err.unwrap().contains("too short"));
    assert_eq!(normalized, "123456");
}

#[test]
fn phone_test_validate_too_long() {
    let (valid, err, _) = validate_phone_input("1234567890123456");
    assert!(!valid);
    assert!(err.unwrap().contains("too long"));
}

#[test]
fn test_validate_minimum_valid() {
    // Use 999xxxx (no country rule) for generic E.164 test
    let (valid, err, normalized) = validate_phone_input("9991234");
    assert!(valid);
    assert!(err.is_none());
    assert_eq!(normalized, "9991234");
}

#[test]
fn test_validate_maximum_valid() {
    // Use 999... (no country rule) for generic E.164 test
    let (valid, err, normalized) = validate_phone_input("999456789012345");
    assert!(valid);
    assert!(err.is_none());
    assert_eq!(normalized, "999456789012345");
}

#[test]
fn phone_test_validate_arabic_digits() {
    let (valid, err, normalized) = validate_phone_input(
        "\u{0669}\u{0666}\u{0665}\u{0669}\u{0668}\u{0667}\u{0666}\u{0665}\u{0664}\u{0663}\u{0662}",
    );
    assert!(valid);
    assert!(err.is_none());
    assert_eq!(normalized, "96598765432");
}

#[test]
fn phone_test_validate_saudi_trunk_stripped_and_valid() {
    // 9660559876543 -> normalizes to 966559876543, then validates Saudi format
    let (valid, err, normalized) = validate_phone_input("+9660559876543");
    assert!(valid);
    assert!(err.is_none());
    assert_eq!(normalized, "966559876543");
}

#[test]
fn phone_test_validate_kuwait_wrong_prefix_rejected() {
    let (valid, err, normalized) = validate_phone_input("96512345678");
    assert!(!valid);
    assert!(err.unwrap().contains("Invalid Kuwait mobile number"));
    assert_eq!(normalized, "96512345678");
}

#[test]
fn test_validate_kuwait_all_valid_prefixes() {
    // 4x, 5x, 6x, 9x are valid Kuwait mobile prefixes
    for prefix in ["4", "5", "6", "9"] {
        let number = format!("965{}1234567", prefix);
        let (valid, err, _) = validate_phone_input(&number);
        assert!(
            valid,
            "Kuwait prefix {} should be valid, got: {:?}",
            prefix, err
        );
    }
}

#[test]
fn test_validate_uae_valid() {
    let (valid, err, _) = validate_phone_input("971501234567");
    assert!(valid);
    assert!(err.is_none());
}

#[test]
fn phone_test_validate_unknown_country_passes_generic() {
    // Unknown country code, passes generic E.164 (7-15 digits)
    let (valid, err, _) = validate_phone_input("99912345678");
    assert!(valid);
    assert!(err.is_none());
}
