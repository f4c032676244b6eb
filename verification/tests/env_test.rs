use kwtsms::env::{config_from_settings, parse_env_content, parse_test_mode, resolve_setting};
use kwtsms::errors::KwtSmsError;

fn get(entries: &[(String, String)], key: &str) -> Option<String> {
    entries.iter().rev().find(|(k, _)| k == key).map(|(_, v)| v.clone())
}

#[test]
fn parse_env_basic() {
    let e = parse_env_content("KEY=value\nOTHER=hello");
    assert_eq!(get(&e, "KEY").unwrap(), "value");
    assert_eq!(get(&e, "OTHER").unwrap(), "hello");
}

#[test]
fn parse_env_blank_lines_and_comments() {
    let e = parse_env_content("# comment\n\nKEY=value\n# another comment\n\n");
    assert_eq!(e.len(), 1);
    assert_eq!(get(&e, "KEY").unwrap(), "value");
}

#[test]
fn parse_env_quotes() {
    assert_eq!(get(&parse_env_content("KEY=\"hello world\""), "KEY").unwrap(), "hello world");
    assert_eq!(get(&parse_env_content("KEY='hello world'"), "KEY").unwrap(), "hello world");
    assert_eq!(get(&parse_env_content("KEY=\"hello'"), "KEY").unwrap(), "\"hello'");
    assert_eq!(get(&parse_env_content("KEY= \""), "KEY").unwrap(), " \"");
}

#[test]
fn parse_env_comments_and_equals() {
    assert_eq!(get(&parse_env_content("KEY=value # this is a comment"), "KEY").unwrap(), "value");
    assert_eq!(get(&parse_env_content("KEY=a=b=c"), "KEY").unwrap(), "a=b=c");
    assert_eq!(get(&parse_env_content("PASS=p@ss#word!"), "PASS").unwrap(), "p@ss#word!");
    assert_eq!(get(&parse_env_content("KEY="), "KEY").unwrap(), "");
    assert_eq!(get(&parse_env_content(" KEY = v \r\n"), "KEY").unwrap(), "v");
    assert!(parse_env_content("=v\nnoequals\n").is_empty());
}

#[test]
fn test_mode_values() {
    assert!(parse_test_mode("1"));
    assert!(parse_test_mode("true"));
    assert!(parse_test_mode("TrUe"));
    assert!(!parse_test_mode("0"));
    assert!(!parse_test_mode("yes"));
    assert!(!parse_test_mode(" true"));
}

#[test]
fn setting_priority() {
    assert_eq!(resolve_setting(Some("env"), Some("file"), Some("d")), Some("env".to_string()));
    assert_eq!(resolve_setting(Some(""), Some("file"), Some("d")), Some("file".to_string()));
    assert_eq!(resolve_setting(None, Some(""), Some("d")), Some("".to_string()));
    assert_eq!(resolve_setting(None, None, Some("d")), Some("d".to_string()));
    assert_eq!(resolve_setting(None, None, None), None);
}

#[test]
fn config_from_settings_errors() {
    assert_eq!(
        config_from_settings(None, Some("p".to_string()), "KWT-SMS", "0", "kwtsms.log").unwrap_err(),
        KwtSmsError::InvalidInput("KWTSMS_USERNAME not found in environment or .env file".to_string())
    );
    assert_eq!(
        config_from_settings(Some("u".to_string()), None, "KWT-SMS", "0", "kwtsms.log").unwrap_err(),
        KwtSmsError::InvalidInput("KWTSMS_PASSWORD not found in environment or .env file".to_string())
    );
    let c = config_from_settings(Some("u".to_string()), Some("p".to_string()), "S", "true", "k.log").unwrap();
    assert!(c.test_mode);
    assert_eq!(c.sender_id, "S");
    assert_eq!(c.log_file, "k.log");
}
