use git_editor::CommitInfo;
use git_editor::EditorStep;
use git_editor::InteractiveTable;
use git_editor::TableColumn;

fn make_commit(oid: u64, name: &str, email: &str, timestamp: i64, message: &str) -> CommitInfo {
    CommitInfo {
        oid,
        short_hash: format!("{:08x}", oid),
        timestamp,
        author_name: name.to_string(),
        author_email: email.to_string(),
        message: message.to_string(),
        parent_count: 1,
    }
}

fn three_commits() -> Vec<CommitInfo> {
    vec![
        make_commit(1, "User One", "one@example.com", 1672531200, "Commit 1"),
        make_commit(2, "User Two", "two@example.com", 1672617600, "Commit 2"),
        make_commit(3, "User Three", "three@example.com", 1672704000, "Commit 3"),
    ]
}

#[test]
fn test_editor_starts_on_first_editable_column() {
    // all four capabilities: the cursor starts on the author name
    let t = InteractiveTable::new(three_commits(), 0, 2, (true, true, true, true));
    assert_eq!(t.current_col, TableColumn::AuthorName);
    assert_eq!(t.current_row, 0);
    assert!(!t.editing);

    // only the timestamp: the cursor starts there
    let t = InteractiveTable::new(three_commits(), 0, 2, (false, false, true, false));
    assert_eq!(t.current_col, TableColumn::Timestamp);

    // only the message
    let t = InteractiveTable::new(three_commits(), 0, 2, (false, false, false, true));
    assert_eq!(t.current_col, TableColumn::Message);
}

#[test]
fn test_editor_rows_seeded_from_snapshots() {
    let commits = three_commits();
    let t = InteractiveTable::new(commits, 1, 2, (true, true, true, true));
    assert_eq!(t.commits.len(), 2);
    assert_eq!(t.commits[0].index, 1);
    assert_eq!(t.commits[1].index, 2);
    assert_eq!(t.commits[0].author_name, "User Two");
    assert!(!t.commits[0].is_modified);
    assert!(!t.commits[0].modifications.author_name_changed);
}

#[test]
fn test_editor_column_editability() {
    let t = InteractiveTable::new(three_commits(), 0, 2, (true, true, false, false));
    assert!(!t.is_column_editable(&TableColumn::Index));
    assert!(!t.is_column_editable(&TableColumn::Hash));
    assert!(t.is_column_editable(&TableColumn::AuthorName));
    assert!(t.is_column_editable(&TableColumn::AuthorEmail));
    assert!(!t.is_column_editable(&TableColumn::Timestamp));
    assert!(!t.is_column_editable(&TableColumn::Message));
}

#[test]
fn test_editor_column_navigation_skips_and_wraps() {
    let mut t = InteractiveTable::new(three_commits(), 0, 2, (true, false, true, false));
    assert_eq!(t.current_col, TableColumn::AuthorName);
    t.move_to_next_editable_column();
    assert_eq!(t.current_col, TableColumn::Timestamp);
    t.move_to_next_editable_column();
    assert_eq!(t.current_col, TableColumn::AuthorName);
    t.move_to_prev_editable_column();
    assert_eq!(t.current_col, TableColumn::Timestamp);
}

#[test]
fn test_editor_arrow_sequences_move_rows() {
    let mut t = InteractiveTable::new(three_commits(), 0, 2, (true, true, true, true));
    // down arrow: ESC [ B
    assert_eq!(t.handle_key_input(27), EditorStep::Continue);
    assert_eq!(t.handle_key_input(91), EditorStep::Continue);
    assert_eq!(t.handle_key_input(66), EditorStep::Continue);
    assert_eq!(t.current_row, 1);
    // up arrow: ESC [ A
    t.handle_key_input(27);
    t.handle_key_input(91);
    t.handle_key_input(65);
    assert_eq!(t.current_row, 0);
    // up at the top edge stays put
    t.handle_key_input(27);
    t.handle_key_input(91);
    t.handle_key_input(65);
    assert_eq!(t.current_row, 0);
}

#[test]
fn test_editor_letter_navigation() {
    let mut t = InteractiveTable::new(three_commits(), 0, 2, (true, true, true, true));
    t.handle_key_input(b'j');
    t.handle_key_input(b'j');
    assert_eq!(t.current_row, 2);
    // down at the bottom edge stays put
    t.handle_key_input(b'j');
    assert_eq!(t.current_row, 2);
    t.handle_key_input(b'k');
    assert_eq!(t.current_row, 1);
    t.handle_key_input(b'l');
    assert_eq!(t.current_col, TableColumn::AuthorEmail);
    t.handle_key_input(b'h');
    assert_eq!(t.current_col, TableColumn::AuthorName);
}

#[test]
fn test_editor_lone_escape_saves_and_interrupt_cancels() {
    let mut t = InteractiveTable::new(three_commits(), 0, 2, (true, true, true, true));
    // ESC followed by a byte that opens no arrow sequence: save and leave
    assert_eq!(t.handle_key_input(27), EditorStep::Continue);
    assert_eq!(t.handle_key_input(b'q'), EditorStep::ExitSave);

    let mut t = InteractiveTable::new(three_commits(), 0, 2, (true, true, true, true));
    assert_eq!(t.handle_key_input(3), EditorStep::ExitCancel);
}

#[test]
fn test_editor_edit_seeds_buffer_with_cell_value() {
    let mut t = InteractiveTable::new(three_commits(), 0, 2, (true, true, true, true));
    t.handle_key_input(13);
    assert!(t.editing);
    let buffer: String = t.edit_buffer.iter().collect();
    assert_eq!(buffer, "User One");
}

#[test]
fn test_editor_cancel_edit_leaves_cell_untouched() {
    // typing into the buffer and cancelling changes neither the value nor
    // the modified flag
    let mut t = InteractiveTable::new(three_commits(), 0, 2, (true, true, true, true));
    t.handle_key_input(13);
    t.handle_edit_input(b'X');
    t.handle_edit_input(b'Y');
    assert_eq!(t.handle_edit_input(27), EditorStep::Continue);
    assert!(!t.editing);
    assert_eq!(t.commits[0].author_name, "User One");
    assert!(!t.commits[0].is_modified);
    assert!(!t.commits[0].modifications.author_name_changed);
}

#[test]
fn test_editor_confirm_edit_updates_value_and_flag() {
    let mut t = InteractiveTable::new(three_commits(), 0, 2, (true, true, true, true));
    t.handle_key_input(13);
    // wipe the seeded name and type a new one
    for _ in 0.."User One".len() {
        t.handle_edit_input(127);
    }
    for b in b"Someone Else" {
        t.handle_edit_input(*b);
    }
    assert_eq!(t.handle_edit_input(13), EditorStep::Continue);
    assert!(!t.editing);
    assert_eq!(t.commits[0].author_name, "Someone Else");
    assert!(t.commits[0].is_modified);
    assert!(t.commits[0].modifications.author_name_changed);
}

#[test]
fn test_editor_confirm_unchanged_value_sets_no_flag() {
    // confirming the seeded value changes nothing
    let mut t = InteractiveTable::new(three_commits(), 0, 2, (true, true, true, true));
    t.handle_key_input(13);
    t.handle_edit_input(13);
    assert!(!t.editing);
    assert_eq!(t.commits[0].author_name, "User One");
    assert!(!t.commits[0].is_modified);
    assert!(!t.commits[0].modifications.author_name_changed);
}

#[test]
fn test_editor_rejects_blank_author_name() {
    let mut t = InteractiveTable::new(three_commits(), 0, 2, (true, true, true, true));
    t.handle_key_input(13);
    for _ in 0.."User One".len() {
        t.handle_edit_input(127);
    }
    // a rejected save keeps the editor in editing mode, keeps the typed
    // buffer, and surfaces the reason beside it
    assert_eq!(t.handle_edit_input(13), EditorStep::Continue);
    assert!(t.editing);
    assert!(t.edit_buffer.is_empty());
    let reason: String = t.error_text.iter().collect();
    assert!(reason.contains("Author name cannot be empty"));
    assert_eq!(t.commits[0].author_name, "User One");
    assert!(!t.commits[0].is_modified);
}

#[test]
fn test_editor_rejected_save_keeps_typed_buffer() {
    // the operator's text survives the rejection and can be corrected
    let mut t = InteractiveTable::new(three_commits(), 0, 2, (true, true, true, true));
    t.handle_key_input(b'l');
    t.handle_key_input(13);
    for _ in 0.."one@example.com".len() {
        t.handle_edit_input(127);
    }
    for b in b"partial-address" {
        t.handle_edit_input(*b);
    }
    t.handle_edit_input(13);
    assert!(t.editing);
    let buffer: String = t.edit_buffer.iter().collect();
    assert_eq!(buffer, "partial-address");
    let reason: String = t.error_text.iter().collect();
    assert!(reason.contains("Invalid email format"));
    // correcting the kept buffer and confirming saves
    for b in b"@example.com" {
        t.handle_edit_input(*b);
    }
    t.handle_edit_input(13);
    assert!(!t.editing);
    assert!(t.error_text.is_empty());
    assert_eq!(t.commits[0].author_email, "partial-address@example.com");
}

#[test]
fn test_editor_rejects_email_without_at() {
    let mut t = InteractiveTable::new(three_commits(), 0, 2, (true, true, true, true));
    t.handle_key_input(b'l');
    assert_eq!(t.current_col, TableColumn::AuthorEmail);
    t.handle_key_input(13);
    for _ in 0.."one@example.com".len() {
        t.handle_edit_input(127);
    }
    for b in b"nonsense" {
        t.handle_edit_input(*b);
    }
    t.handle_edit_input(13);
    assert!(t.editing);
    let buffer: String = t.edit_buffer.iter().collect();
    assert_eq!(buffer, "nonsense");
    let reason: String = t.error_text.iter().collect();
    assert!(reason.contains("Invalid email format"));
    assert_eq!(t.commits[0].author_email, "one@example.com");
}

#[test]
fn test_editor_timestamp_edit_parses_fixed_format() {
    let mut t = InteractiveTable::new(three_commits(), 0, 2, (false, false, true, false));
    assert_eq!(t.current_col, TableColumn::Timestamp);
    t.handle_key_input(13);
    let seeded: String = t.edit_buffer.iter().collect();
    assert_eq!(seeded, "2023-01-01 00:00:00");
    for _ in 0..seeded.len() {
        t.handle_edit_input(127);
    }
    for b in b"2023-02-01 08:30:00" {
        t.handle_edit_input(*b);
    }
    t.handle_edit_input(13);
    assert!(!t.editing);
    assert!(t.commits[0].modifications.timestamp_changed);
    // 2023-02-01 08:30:00
    assert_eq!(t.commits[0].timestamp, 1675240200);
}

#[test]
fn test_editor_timestamp_edit_rejects_garbage() {
    let mut t = InteractiveTable::new(three_commits(), 0, 2, (false, false, true, false));
    t.handle_key_input(13);
    let seeded_len = t.edit_buffer.len();
    for _ in 0..seeded_len {
        t.handle_edit_input(127);
    }
    for b in b"not a date" {
        t.handle_edit_input(*b);
    }
    t.handle_edit_input(13);
    assert!(t.editing);
    let buffer: String = t.edit_buffer.iter().collect();
    assert_eq!(buffer, "not a date");
    assert!(!t.error_text.is_empty());
    assert_eq!(t.commits[0].timestamp, 1672531200);
    assert!(!t.commits[0].modifications.timestamp_changed);
}

#[test]
fn test_editor_modified_rows_and_transforms() {
    let mut t = InteractiveTable::new(three_commits(), 1, 2, (true, true, true, true));
    // edit the author name of the first row of the grid (chain index 1)
    t.handle_key_input(13);
    for _ in 0.."User Two".len() {
        t.handle_edit_input(127);
    }
    for b in b"Renamed" {
        t.handle_edit_input(*b);
    }
    t.handle_edit_input(13);

    let modified = t.get_modified_commits();
    assert_eq!(modified.len(), 1);
    assert_eq!(modified[0].index, 1);
    assert_eq!(modified[0].author_name, "Renamed");

    let transforms = t.modified_transforms(3);
    assert_eq!(transforms.len(), 3);
    assert!(transforms[0].author_name.is_none());
    assert_eq!(transforms[1].author_name, Some("Renamed".to_string()));
    // only the changed field is overridden
    assert!(transforms[1].author_email.is_none());
    assert!(transforms[1].timestamp.is_none());
    assert!(transforms[1].message.is_none());
    assert!(transforms[2].author_name.is_none());
}

#[test]
fn test_editor_cell_text_and_marks() {
    let mut commits = three_commits();
    commits[0].message = "First line\nSecond line".to_string();
    let t = InteractiveTable::new(commits, 0, 2, (true, true, true, true));

    let index_cell: String = t.cell_text(0, TableColumn::Index).iter().collect();
    assert_eq!(index_cell, "1");

    let message_cell: String = t.cell_text(0, TableColumn::Message).iter().collect();
    assert_eq!(message_cell, "First line");

    let ts_cell: String = t.cell_text(0, TableColumn::Timestamp).iter().collect();
    assert_eq!(ts_cell, "2023-01-01 00:00:00");

    assert!(!t.cell_marked(0, TableColumn::AuthorName));
    assert!(t.cell_highlighted(0, TableColumn::AuthorName));
    assert!(!t.cell_highlighted(0, TableColumn::Hash));
    assert!(!t.cell_highlighted(1, TableColumn::AuthorName));
}

#[test]
fn test_editor_long_text_truncated_with_ellipsis() {
    let mut commits = three_commits();
    commits[0].author_name = "An Extremely Long Author Name".to_string();
    let t = InteractiveTable::new(commits, 0, 2, (true, true, true, true));
    let cell: String = t.cell_text(0, TableColumn::AuthorName).iter().collect();
    assert_eq!(cell.chars().count(), 15);
    assert!(cell.ends_with('…'));
}

#[test]
fn test_editor_unrecognized_sequence_saves_and_exits() {
    let mut t = InteractiveTable::new(three_commits(), 0, 2, (true, true, true, true));
    // a complete but unrecognized sequence counts as the lone exit key
    assert_eq!(t.handle_key_input(27), EditorStep::Continue);
    assert_eq!(t.handle_key_input(91), EditorStep::Continue);
    assert_eq!(t.handle_key_input(90), EditorStep::ExitSave);
    assert_eq!(t.current_row, 0);
    assert_eq!(t.current_col, TableColumn::AuthorName);
}

#[test]
fn test_editor_interrupt_during_edit_cancels() {
    let mut t = InteractiveTable::new(three_commits(), 0, 2, (true, true, true, true));
    t.handle_key_input(13);
    assert_eq!(t.handle_edit_input(3), EditorStep::ExitCancel);
    assert_eq!(t.commits[0].author_name, "User One");
}

#[test]
fn test_editor_message_edit_uses_full_message() {
    let mut commits = three_commits();
    commits[0].message = "Title line
Body of the message".to_string();
    let mut t = InteractiveTable::new(commits, 0, 2, (false, false, false, true));
    assert_eq!(t.current_col, TableColumn::Message);
    t.handle_key_input(13);
    let buffer: String = t.edit_buffer.iter().collect();
    // the buffer holds the whole message, not the displayed first line
    assert_eq!(buffer, "Title line
Body of the message");
}
