use kwtsms::phone::country_name_for_code;
use kwtsms::{find_country_code, normalize_phone, phone_rules, validate_phone_format, validate_phone_input};

#[test]
fn normalize_is_idempotent_on_samples() {
    for s in ["+965 9876-5432", "009660559876543", "\u{0669}\u{0666}\u{0665}98765432", "0", "abc", "20010123456789", "9650000"] {
        let once = normalize_phone(s);
        assert_eq!(normalize_phone(&once), once, "input {:?}", s);
    }
}

#[test]
fn normalize_output_is_digits_without_leading_zero() {
    for s in ["  00 12 34 ", "+44 (0) 7911 123456", "\u{06F0}\u{06F1}\u{06F2}"] {
        let n = normalize_phone(s);
        assert!(n.chars().all(|c| c.is_ascii_digit()));
        assert!(!n.starts_with('0'));
    }
    assert_eq!(normalize_phone("\u{06F0}\u{06F1}\u{06F2}"), "12");
}

#[test]
fn normalize_keeps_all_zero_local_part() {
    // The trunk prefix is only removed when digits remain after it.
    assert_eq!(normalize_phone("9650000"), "9650000");
}

#[test]
fn valid_input_revalidates_to_itself() {
    for s in ["+965 9876 5432", "009660559876543", "\u{0669}\u{0667}\u{0661}501234567"] {
        let (valid, err, normalized) = validate_phone_input(s);
        assert!(valid, "{:?}", err);
        assert_eq!(normalized, normalize_phone(s));
        let (valid2, err2, normalized2) = validate_phone_input(&normalized);
        assert!(valid2);
        assert!(err2.is_none());
        assert_eq!(normalized2, normalized);
    }
}

#[test]
fn validate_messages_are_exact() {
    assert_eq!(
        validate_phone_input("user@gmail.com").1.unwrap(),
        "'user@gmail.com' is an email address, not a phone number"
    );
    assert_eq!(
        validate_phone_input("  abc ").1.unwrap(),
        "'abc' is not a valid phone number, no digits found"
    );
    assert_eq!(
        validate_phone_input("123456").1.unwrap(),
        "'123456' is too short (6 digits, minimum is 7)"
    );
    assert_eq!(
        validate_phone_input("1234567890123456").1.unwrap(),
        "'1234567890123456' is too long (16 digits, maximum is 15)"
    );
}

#[test]
fn format_messages_are_exact() {
    assert_eq!(
        validate_phone_format("9659876543").1.unwrap(),
        "Invalid Kuwait number: expected 8 digits after +965, got 7"
    );
    assert_eq!(
        validate_phone_format("96512345678").1.unwrap(),
        "Invalid Kuwait mobile number: after +965 must start with 4, 5, 6, 9"
    );
    assert_eq!(
        validate_phone_format("961123").1.unwrap(),
        "Invalid Lebanon number: expected 7 or 8 digits after +961, got 3"
    );
    assert_eq!(
        validate_phone_format("621234").1.unwrap(),
        "Invalid Indonesia number: expected 9 or 10 or 11 or 12 digits after +62, got 4"
    );
}

#[test]
fn format_counts_bytes_of_the_local_part() {
    // The local part "9876543\u{e9}" has 8 characters but 9 bytes.
    let (valid, err) = validate_phone_format("9659876543\u{e9}");
    assert!(!valid);
    assert_eq!(err.unwrap(), "Invalid Kuwait number: expected 8 digits after +965, got 9");
}

#[test]
fn find_country_code_longest_match() {
    assert_eq!(find_country_code("2"), None);
    assert_eq!(find_country_code("20"), Some("20"));
    assert_eq!(find_country_code("1"), Some("1"));
    assert_eq!(find_country_code("965"), Some("965"));
    assert_eq!(find_country_code("0965"), None);
    assert_eq!(find_country_code("x965"), None);
}

#[test]
fn country_names() {
    assert_eq!(country_name_for_code("965"), "Kuwait");
    assert_eq!(country_name_for_code("1"), "USA/Canada");
    assert_eq!(country_name_for_code("999"), "+999");
    assert_eq!(country_name_for_code("9650"), "+9650");
    assert_eq!(country_name_for_code(""), "+");
}

#[test]
fn rule_table_has_every_country_once() {
    let rules = phone_rules();
    assert_eq!(rules.len(), 81);
    assert_eq!(rules[0].country_code, "965");
    assert_eq!(rules[0].country_name, "Kuwait");
    assert_eq!(rules[0].local_lengths, &[8]);
    assert_eq!(rules[0].mobile_start_digits, &['4', '5', '6', '9']);
    for (i, a) in rules.iter().enumerate() {
        for b in rules.iter().skip(i + 1) {
            assert_ne!(a.country_code, b.country_code);
        }
        assert_eq!(find_country_code(a.country_code), Some(a.country_code));
    }
}

#[test]
fn format_rejects_an_overlong_local_part() {
    let normalized = "965".to_string() + &"9".repeat(264);
    let (valid, err) = validate_phone_format(&normalized);
    assert!(!valid);
    assert_eq!(
        err,
        Some("Invalid Kuwait number: expected 8 digits after +965, got 264".to_string())
    );
}
