use git_editor::format_datetime;
use git_editor::is_valid_datetime_format;
use git_editor::parse_datetime;

#[test]
fn test_parse_datetime_known_moment() {
    assert_eq!(parse_datetime("2023-01-01 00:00:00"), Some(1672531200));
    assert_eq!(parse_datetime("2009-02-13 23:31:30"), Some(1234567890));
    assert_eq!(parse_datetime("1970-01-01 00:00:00"), Some(0));
}

#[test]
fn test_parse_datetime_rejects_malformed() {
    assert_eq!(parse_datetime("invalid-date"), None);
    assert_eq!(parse_datetime("2023-13-01 00:00:00"), None);
    assert_eq!(parse_datetime("2023-01-32 00:00:00"), None);
    assert_eq!(parse_datetime("2023-01-01 25:00:00"), None);
    assert_eq!(parse_datetime(""), None);
}

#[test]
fn test_format_datetime_known_moment() {
    assert_eq!(
        format_datetime(1672531200),
        Some("2023-01-01 00:00:00".to_string())
    );
    assert_eq!(
        format_datetime(1234567890),
        Some("2009-02-13 23:31:30".to_string())
    );
}

#[test]
fn test_parse_format_round_trip() {
    let t = parse_datetime("2023-06-15 12:30:45").unwrap();
    assert_eq!(format_datetime(t), Some("2023-06-15 12:30:45".to_string()));
}

#[test]
fn test_datetime_format_shape() {
    let good: Vec<char> = "2023-01-01 00:00:00".chars().collect();
    assert!(is_valid_datetime_format(&good));

    let bad: Vec<char> = "2023-1-1 0:0:0".chars().collect();
    assert!(!is_valid_datetime_format(&bad));
}
