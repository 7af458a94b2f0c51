use git_editor::Args;
use git_editor::CommitInfo;
use git_editor::SimulationChange;
use git_editor::SimulationMode;
use git_editor::SimulationStats;
use git_editor::create_full_rewrite_simulation;
use git_editor::create_range_simulation;
use git_editor::create_specific_commit_simulation;

fn create_test_commit(
    oid: u64,
    author: &str,
    email: &str,
    timestamp: i64,
    message: &str,
) -> CommitInfo {
    CommitInfo {
        oid,
        short_hash: format!("{:08x}", oid),
        timestamp,
        author_name: author.to_string(),
        author_email: email.to_string(),
        message: message.to_string(),
        parent_count: 1,
    }
}

#[test]
fn test_simulation_change_has_changes() {
    let commit = create_test_commit(
        0x12345678,
        "Test User",
        "test@example.com",
        1672567200,
        "Test commit",
    );

    let change = SimulationChange {
        commit_oid: commit.oid,
        short_hash: commit.short_hash,
        original_author: commit.author_name,
        original_email: commit.author_email,
        original_timestamp: commit.timestamp,
        original_message: commit.message,
        new_author: Some("New Author".to_string()),
        new_email: None,
        new_timestamp: None,
        new_message: None,
    };

    assert!(change.has_changes());
}

#[test]
fn test_simulation_change_no_changes() {
    let commit = create_test_commit(
        0x12345678,
        "Test User",
        "test@example.com",
        1672567200,
        "Test commit",
    );

    let change = SimulationChange {
        commit_oid: commit.oid,
        short_hash: commit.short_hash,
        original_author: commit.author_name,
        original_email: commit.author_email,
        original_timestamp: commit.timestamp,
        original_message: commit.message,
        new_author: None,
        new_email: None,
        new_timestamp: None,
        new_message: None,
    };

    assert!(!change.has_changes());
}

#[test]
fn test_simulation_stats_creation() {
    let commits = vec![
        create_test_commit(
            0x12345678,
            "User1",
            "user1@example.com",
            1672567200,
            "First commit",
        ),
        create_test_commit(
            0xabcdef12,
            "User2",
            "user2@example.com",
            1672673400,
            "Second commit",
        ),
    ];

    let stats = SimulationStats::new(&commits);

    assert_eq!(stats.total_commits, 2);
    assert_eq!(stats.commits_to_change, 0);
    assert!(stats.date_range_start.is_some());
    assert!(stats.date_range_end.is_some());
    assert_eq!(stats.date_range_start, Some(1672567200));
    assert_eq!(stats.date_range_end, Some(1672673400));
}

#[test]
fn test_create_full_rewrite_simulation() {
    let commits = vec![create_test_commit(
        0x12345678,
        "Old User",
        "old@example.com",
        1672567200,
        "First commit",
    )];

    // 2023-06-01 09:00:00
    let timestamps = vec![1685610000];

    let args = Args {
        repo_path: Some("./test".to_string()),
        email: Some("new@example.com".to_string()),
        name: Some("New User".to_string()),
        start: Some("2023-06-01 08:00:00".to_string()),
        end: Some("2023-06-01 18:00:00".to_string()),
        show_history: false,
        pick_specific_commits: false,
        range: false,
        simulate: true,
        show_diff: false,
        edit_message: false,
        edit_author: false,
        edit_time: false,
    };

    let result = create_full_rewrite_simulation(&commits, &timestamps, &args).unwrap();

    assert_eq!(result.changes.len(), 1);
    assert_eq!(result.stats.total_commits, 1);
    assert_eq!(result.stats.commits_to_change, 1);
    assert_eq!(result.operation_mode, SimulationMode::FullRewrite);

    let change = &result.changes[0];
    assert!(change.has_changes());
    assert_eq!(change.new_author.as_ref().unwrap(), "New User");
    assert_eq!(change.new_email.as_ref().unwrap(), "new@example.com");
    assert_eq!(change.new_timestamp, Some(1685610000));
    assert!(change.new_message.is_none());
}

#[test]
fn test_create_range_simulation() {
    let commits = vec![
        create_test_commit(1, "User1", "user1@example.com", 1672531200, "First"),
        create_test_commit(2, "User2", "user2@example.com", 1672617600, "Second"),
        create_test_commit(3, "User3", "user3@example.com", 1672704000, "Third"),
    ];
    let range_timestamps = vec![1700000000, 1700010800];
    let args = Args {
        repo_path: Some("./test".to_string()),
        email: Some("new@example.com".to_string()),
        name: Some("New User".to_string()),
        start: None,
        end: None,
        show_history: false,
        pick_specific_commits: false,
        range: true,
        simulate: true,
        show_diff: false,
        edit_message: false,
        edit_author: false,
        edit_time: false,
    };

    let result = create_range_simulation(&commits, (1, 2), &range_timestamps, &args).unwrap();

    assert_eq!(result.changes.len(), 3);
    assert_eq!(result.operation_mode, SimulationMode::RangeEdit(1, 2));
    // outside the range: untouched
    assert!(!result.changes[0].has_changes());
    // inside the range: identity and its share of the timestamps
    assert_eq!(result.changes[1].new_author, Some("New User".to_string()));
    assert_eq!(result.changes[1].new_timestamp, Some(1700000000));
    assert_eq!(result.changes[2].new_timestamp, Some(1700010800));
    assert_eq!(result.stats.commits_to_change, 2);
    assert_eq!(result.stats.timestamps_changed, 2);
}

#[test]
fn test_create_specific_commit_simulation() {
    let commits = vec![
        create_test_commit(
            0x12345678,
            "User1",
            "user1@example.com",
            1672567200,
            "First commit",
        ),
        create_test_commit(
            0xabcdef12,
            "User2",
            "user2@example.com",
            1672673400,
            "Second commit",
        ),
    ];

    let result = create_specific_commit_simulation(
        &commits,
        0, // Edit first commit
        Some("New Author".to_string()),
        Some("new@example.com".to_string()),
        None,
        Some("Updated message".to_string()),
    )
    .unwrap();

    assert_eq!(result.changes.len(), 2);
    assert_eq!(result.stats.commits_to_change, 1);
    assert_eq!(result.operation_mode, SimulationMode::SpecificCommit);

    // First commit should have changes
    assert!(result.changes[0].has_changes());
    assert_eq!(result.changes[0].new_author.as_ref().unwrap(), "New Author");

    // Second commit should not have changes
    assert!(!result.changes[1].has_changes());
}

#[test]
fn test_changes_to_show_filters_untouched() {
    let commits = vec![
        create_test_commit(1, "User1", "user1@example.com", 1672531200, "First"),
        create_test_commit(2, "User2", "user2@example.com", 1672617600, "Second"),
    ];
    let result =
        create_specific_commit_simulation(&commits, 1, Some("X".to_string()), None, None, None)
            .unwrap();
    let shown = result.changes_to_show();
    assert_eq!(shown.len(), 1);
    assert_eq!(shown[0].commit_oid, 2);
}

#[test]
fn test_apply_commit_changes_logic() {
    // overrides are taken where given, the original stands where not
    let commits = vec![create_test_commit(
        7,
        "Original Author",
        "orig@example.com",
        1672567200,
        "Original message",
    )];
    let target_commit = &commits[0];

    let options = git_editor::EditOptions {
        author_name: Some("New Author".to_string()),
        author_email: Some("new@example.com".to_string()),
        timestamp: Some(1672574400),
        message: Some("New commit message".to_string()),
    };

    assert_eq!(options.author_name.as_ref().unwrap(), "New Author");
    assert_eq!(options.author_email.as_ref().unwrap(), "new@example.com");
    assert!(options.timestamp.is_some());
    assert_eq!(options.message.as_ref().unwrap(), "New commit message");

    let partial_options = git_editor::EditOptions {
        author_name: None,
        author_email: None,
        timestamp: None,
        message: None,
    };

    let author_name = partial_options
        .author_name
        .as_ref()
        .unwrap_or(&target_commit.author_name);
    let author_email = partial_options
        .author_email
        .as_ref()
        .unwrap_or(&target_commit.author_email);

    assert_eq!(author_name, &target_commit.author_name);
    assert_eq!(author_email, &target_commit.author_email);
}
