use git_editor::Args;
use git_editor::Error;
use git_editor::RepoPathStatus;
use git_editor::is_valid_email;
use git_editor::validate_inputs;

fn good_repo() -> RepoPathStatus {
    RepoPathStatus {
        is_url: false,
        exists: true,
        is_dir: true,
        has_git_dir: true,
    }
}

fn full_rewrite_args() -> Args {
    Args {
        repo_path: Some("/test/repo".to_string()),
        email: Some("test@example.com".to_string()),
        name: Some("Test User".to_string()),
        start: Some("2023-01-01 00:00:00".to_string()),
        end: Some("2023-01-02 00:00:00".to_string()),
        show_history: false,
        pick_specific_commits: false,
        range: false,
        simulate: false,
        show_diff: false,
        edit_message: false,
        edit_author: false,
        edit_time: false,
    }
}

#[test]
fn test_email_regex_patterns() {
    // Valid emails
    assert!(is_valid_email("test@example.com"));
    assert!(is_valid_email("user.name@domain.org"));
    assert!(is_valid_email("user+tag@example.co.uk"));
    assert!(is_valid_email("123@test.io"));

    // Invalid emails
    assert!(!is_valid_email("invalid-email"));
    assert!(!is_valid_email("@domain.com"));
    assert!(!is_valid_email("user@"));
    assert!(!is_valid_email("user@domain"));
    assert!(!is_valid_email("user@domain."));
}

#[test]
fn test_email_case_insensitive_and_edges() {
    assert!(is_valid_email("Test@Example.COM"));
    assert!(!is_valid_email("a b@example.com"));
    assert!(!is_valid_email("user@exam ple.com"));
    assert!(!is_valid_email("user@domain.c"));
    assert!(is_valid_email("user@domain.co"));
    assert!(!is_valid_email(""));
}

#[test]
fn test_datetime_regex_patterns() {
    let check = |s: &str| {
        let v: Vec<char> = s.chars().collect();
        git_editor::is_valid_datetime_format(&v)
    };

    // Valid datetime formats
    assert!(check("2023-01-01 00:00:00"));
    assert!(check("2023-12-31 23:59:59"));
    assert!(check("2023-06-15 12:30:45"));

    // Invalid datetime formats
    assert!(!check("2023-1-1 0:0:0"));
    assert!(!check("2023/01/01 00:00:00"));
    assert!(!check("2023-01-01T00:00:00"));
    assert!(!check("23-01-01 00:00:00"));
    assert!(!check("2023-01-01 00:00"));
}

#[test]
fn test_validate_inputs_show_history_mode() {
    let mut args = full_rewrite_args();
    args.email = None;
    args.name = None;
    args.start = None;
    args.end = None;
    args.show_history = true;
    let result = validate_inputs(&args, &good_repo());
    assert!(result.is_ok());
}

#[test]
fn test_validate_inputs_pick_specific_commits_mode() {
    let mut args = full_rewrite_args();
    args.email = None;
    args.name = None;
    args.start = None;
    args.end = None;
    args.pick_specific_commits = true;
    let result = validate_inputs(&args, &good_repo());
    assert!(result.is_ok());
}

#[test]
fn test_validate_inputs_range_mode() {
    let mut args = full_rewrite_args();
    args.email = None;
    args.name = None;
    args.start = None;
    args.end = None;
    args.range = true;
    let result = validate_inputs(&args, &good_repo());
    assert!(result.is_ok());
}

#[test]
fn test_validate_inputs_full_rewrite_valid() {
    let args = full_rewrite_args();
    let result = validate_inputs(&args, &good_repo());
    assert!(result.is_ok());
}

#[test]
fn test_validate_inputs_invalid_email() {
    let mut args = full_rewrite_args();
    args.email = Some("invalid-email".to_string());
    let result = validate_inputs(&args, &good_repo());
    assert!(result.is_err());
    assert_eq!(
        result.unwrap_err(),
        Error::InputValidation("Invalid email format".to_string())
    );
}

#[test]
fn test_validate_inputs_invalid_date_format() {
    let mut args = full_rewrite_args();
    args.start = Some("invalid-date".to_string());
    let result = validate_inputs(&args, &good_repo());
    assert!(result.is_err());
    assert_eq!(
        result.unwrap_err(),
        Error::InputValidation("Invalid start date format (expected YYYY-MM-DD HH:MM:SS)".to_string())
    );
}

#[test]
fn test_validate_inputs_inverted_dates() {
    let mut args = full_rewrite_args();
    args.start = Some("2023-01-02 00:00:00".to_string());
    args.end = Some("2023-01-01 00:00:00".to_string());
    let result = validate_inputs(&args, &good_repo());
    assert_eq!(
        result.unwrap_err(),
        Error::InputValidation("Start date must be before end date".to_string())
    );
}

#[test]
fn test_validate_inputs_keep_original_skips_date_checks() {
    let mut args = full_rewrite_args();
    args.start = Some("KEEP_ORIGINAL".to_string());
    args.end = Some("KEEP_ORIGINAL".to_string());
    let result = validate_inputs(&args, &good_repo());
    assert!(result.is_ok());
}

#[test]
fn test_validate_inputs_nonexistent_repo() {
    let args = full_rewrite_args();
    let repo = RepoPathStatus {
        is_url: false,
        exists: false,
        is_dir: false,
        has_git_dir: false,
    };
    let result = validate_inputs(&args, &repo);
    assert_eq!(
        result.unwrap_err(),
        Error::InputValidation("Invalid repository path or URL".to_string())
    );
}

#[test]
fn test_validate_inputs_not_a_repository() {
    let args = full_rewrite_args();
    let repo = RepoPathStatus {
        is_url: false,
        exists: true,
        is_dir: true,
        has_git_dir: false,
    };
    let result = validate_inputs(&args, &repo);
    assert_eq!(
        result.unwrap_err(),
        Error::InputValidation("Repository path does not contain a valid Git repository".to_string())
    );
}

#[test]
fn test_validate_inputs_empty_name() {
    let mut args = full_rewrite_args();
    args.name = Some("   ".to_string());
    let result = validate_inputs(&args, &good_repo());
    assert_eq!(
        result.unwrap_err(),
        Error::InputValidation("Name cannot be empty".to_string())
    );
}
