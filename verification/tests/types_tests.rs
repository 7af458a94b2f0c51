use git_editor::Args;
use git_editor::CommitInfo;
use git_editor::EditOptions;
use git_editor::OperationMode;
use git_editor::determine_operation_mode;

fn plain_args() -> Args {
    Args {
        repo_path: Some("/test/repo".to_string()),
        email: None,
        name: None,
        start: None,
        end: None,
        show_history: false,
        pick_specific_commits: false,
        range: false,
        simulate: false,
        show_diff: false,
        edit_message: false,
        edit_author: false,
        edit_time: false,
    }
}

#[test]
fn test_result_type_alias() {
    let result: git_editor::Result<String> = Ok("test".to_string());
    assert!(result.is_ok());
    assert_eq!(result.unwrap(), "test");
}

#[test]
fn test_result_type_alias_error() {
    let result: git_editor::Result<String> =
        Err(git_editor::Error::InputValidation("error".to_string()));
    assert!(result.is_err());
}

#[test]
fn test_commit_info_creation() {
    let oid: u64 = 0x1234567890abcdef;
    let timestamp: i64 = 1234567890;

    let commit_info = CommitInfo {
        oid,
        short_hash: "12345678".to_string(),
        timestamp,
        author_name: "Test User".to_string(),
        author_email: "test@example.com".to_string(),
        message: "Test commit message".to_string(),
        parent_count: 1,
    };

    assert_eq!(commit_info.oid, oid);
    assert_eq!(commit_info.short_hash, "12345678");
    assert_eq!(commit_info.timestamp, timestamp);
    assert_eq!(commit_info.author_name, "Test User");
    assert_eq!(commit_info.author_email, "test@example.com");
    assert_eq!(commit_info.message, "Test commit message");
    assert_eq!(commit_info.parent_count, 1);
}

#[test]
fn test_commit_info_fields() {
    let commit_info = CommitInfo {
        oid: 42,
        short_hash: "0000002a".to_string(),
        timestamp: 1234567890,
        author_name: "Test User".to_string(),
        author_email: "test@example.com".to_string(),
        message: "Commit 1".to_string(),
        parent_count: 0,
    };
    let copy = commit_info.clone();

    assert_eq!(copy.oid, commit_info.oid);
    assert_eq!(copy.short_hash, commit_info.short_hash);
    assert_eq!(copy.timestamp, commit_info.timestamp);
    assert_eq!(copy.author_name, commit_info.author_name);
    assert_eq!(copy.author_email, commit_info.author_email);
    assert_eq!(copy.message, commit_info.message);
    assert_eq!(copy.parent_count, commit_info.parent_count);
}

#[test]
fn types_test_edit_options_default() {
    let options = EditOptions::default();

    assert_eq!(options.author_name, None);
    assert_eq!(options.author_email, None);
    assert_eq!(options.timestamp, None);
    assert_eq!(options.message, None);
}

#[test]
fn rewrite_specific_test_edit_options_default() {
    let options = EditOptions::default();

    assert_eq!(options.author_name, None);
    assert_eq!(options.author_email, None);
    assert_eq!(options.timestamp, None);
    assert_eq!(options.message, None);
}

#[test]
fn types_test_edit_options_with_values() {
    let timestamp: i64 = 1234567890;

    let options = EditOptions {
        author_name: Some("New Author".to_string()),
        author_email: Some("new@example.com".to_string()),
        timestamp: Some(timestamp),
        message: Some("New commit message".to_string()),
    };

    assert_eq!(options.author_name, Some("New Author".to_string()));
    assert_eq!(options.author_email, Some("new@example.com".to_string()));
    assert_eq!(options.timestamp, Some(timestamp));
    assert_eq!(options.message, Some("New commit message".to_string()));
}

#[test]
fn rewrite_specific_test_edit_options_with_values() {
    // 2023-01-01 12:00:00
    let timestamp: i64 = 1672574400;

    let options = EditOptions {
        author_name: Some("New Author".to_string()),
        author_email: Some("new@example.com".to_string()),
        timestamp: Some(timestamp),
        message: Some("New commit message".to_string()),
    };

    assert_eq!(options.author_name, Some("New Author".to_string()));
    assert_eq!(options.author_email, Some("new@example.com".to_string()));
    assert_eq!(options.timestamp, Some(timestamp));
    assert_eq!(options.message, Some("New commit message".to_string()));
}

#[test]
fn test_edit_options_partial_values() {
    let options = EditOptions {
        author_name: Some("New Author".to_string()),
        author_email: None,
        timestamp: None,
        message: Some("New message".to_string()),
    };

    assert_eq!(options.author_name, Some("New Author".to_string()));
    assert_eq!(options.author_email, None);
    assert_eq!(options.timestamp, None);
    assert_eq!(options.message, Some("New message".to_string()));
}

#[test]
fn test_get_editable_fields_defaults_to_all() {
    // toggling no capability flag makes every field editable
    let mut args = plain_args();
    args.range = true;
    assert_eq!(args.get_editable_fields(), (true, true, true, true));
}

#[test]
fn test_get_editable_fields_single_flag() {
    // toggling exactly one flag makes only that field editable
    let mut args = plain_args();
    args.range = true;
    args.edit_time = true;
    assert_eq!(args.get_editable_fields(), (false, false, true, false));

    let mut args = plain_args();
    args.range = true;
    args.edit_message = true;
    assert_eq!(args.get_editable_fields(), (false, false, false, true));

    let mut args = plain_args();
    args.range = true;
    args.edit_author = true;
    assert_eq!(args.get_editable_fields(), (true, true, false, false));
}

#[test]
fn test_get_editable_fields_outside_range_mode() {
    let args = plain_args();
    assert_eq!(args.get_editable_fields(), (false, false, false, false));
}

#[test]
fn test_validate_simulation_args_valid() {
    let mut args = plain_args();
    args.simulate = true;
    args.show_diff = true;
    assert!(args.validate_simulation_args().is_ok());
}

#[test]
fn test_validate_simulation_args_invalid() {
    let mut args = plain_args();
    args.show_diff = true;
    let result = args.validate_simulation_args();
    assert!(result.is_err());
    let message = match result.unwrap_err() {
        git_editor::Error::InputValidation(m) => m,
        _ => String::new(),
    };
    assert!(message.contains("--show-diff requires --simulate"));
}

#[test]
fn test_should_keep_original_timestamps() {
    let mut args = plain_args();
    assert!(!args.should_keep_original_timestamps());
    args.start = Some("KEEP_ORIGINAL".to_string());
    assert!(!args.should_keep_original_timestamps());
    args.end = Some("KEEP_ORIGINAL".to_string());
    assert!(args.should_keep_original_timestamps());
    args.start = Some("2023-01-01 00:00:00".to_string());
    assert!(!args.should_keep_original_timestamps());
}

#[test]
fn test_mode_flag_precedence() {
    let mut args = plain_args();
    args.range = true;
    args.pick_specific_commits = true;
    args.show_history = true;
    assert_eq!(determine_operation_mode(&args), OperationMode::Range);

    args.range = false;
    assert_eq!(determine_operation_mode(&args), OperationMode::PickSpecific);

    args.pick_specific_commits = false;
    assert_eq!(determine_operation_mode(&args), OperationMode::ShowHistory);

    args.show_history = false;
    assert_eq!(determine_operation_mode(&args), OperationMode::FullRewrite);
}
