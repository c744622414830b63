use slogx::LogLevel;

#[test]
fn level_names_are_upper_case() {
    assert_eq!(LogLevel::Debug.as_str(), "DEBUG");
    assert_eq!(LogLevel::Info.as_str(), "INFO");
    assert_eq!(LogLevel::Warn.as_str(), "WARN");
    assert_eq!(LogLevel::Error.as_str(), "ERROR");
}

#[test]
fn level_to_string_matches_name() {
    assert_eq!(LogLevel::Warn.to_string(), "WARN".to_string());
    assert_eq!(LogLevel::Error.to_string(), "ERROR".to_string());
}

#[test]
fn levels_compare_by_variant() {
    assert_eq!(LogLevel::Info, LogLevel::Info);
    assert_ne!(LogLevel::Info, LogLevel::Debug);
}
