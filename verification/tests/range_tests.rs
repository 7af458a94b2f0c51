use git_editor::parse_option_selections;
use git_editor::parse_range_input;
use git_editor::select_commit_index;
use git_editor::select_range_bounds;

#[test]
fn test_parse_range_input_valid() {
    let result = parse_range_input("5-11");
    assert!(result.is_ok());
    let (start, end) = result.unwrap();
    assert_eq!(start, 5);
    assert_eq!(end, 11);
}

#[test]
fn test_parse_range_input_with_spaces() {
    let result = parse_range_input(" 3 - 8 ");
    assert!(result.is_ok());
    let (start, end) = result.unwrap();
    assert_eq!(start, 3);
    assert_eq!(end, 8);
}

#[test]
fn test_parse_range_input_invalid_format() {
    let result = parse_range_input("5");
    assert!(result.is_err());

    let result = parse_range_input("5-11-15");
    assert!(result.is_err());

    let result = parse_range_input("abc-def");
    assert!(result.is_err());
}

#[test]
fn test_parse_range_input_invalid_range() {
    let result = parse_range_input("11-5");
    assert!(result.is_err());

    let result = parse_range_input("0-5");
    assert!(result.is_err());
}

#[test]
fn test_parse_range_input_empty() {
    assert!(parse_range_input("").is_err());
    assert!(parse_range_input("-").is_err());
    assert!(parse_range_input("5-").is_err());
    assert!(parse_range_input("-5").is_err());
}

#[test]
fn test_select_range_bounds_converts_to_zero_based() {
    let result = select_range_bounds(2, 4, 10);
    assert!(result.is_ok());
    assert_eq!(result.unwrap(), (1, 3));
}

#[test]
fn test_select_range_bounds_out_of_bounds() {
    assert!(select_range_bounds(2, 11, 10).is_err());
    assert!(select_range_bounds(11, 12, 10).is_err());
    assert!(select_range_bounds(1, 10, 10).is_ok());
}

#[test]
fn test_commit_selection_validation() {
    // a one-commit history accepts only the selection 1
    let result = select_commit_index("1", 1);
    assert!(result.is_ok());
    assert_eq!(result.unwrap(), 0);

    assert!(select_commit_index("0", 1).is_err());
    assert!(select_commit_index("2", 1).is_err());
    assert!(select_commit_index("x", 1).is_err());
}

#[test]
fn test_select_commit_index_trims_input() {
    let result = select_commit_index(" 3 \n", 5);
    assert!(result.is_ok());
    assert_eq!(result.unwrap(), 2);
}

#[test]
fn test_parse_option_selections_keeps_valid_numbers() {
    let picks = parse_option_selections("1, 2, 4");
    assert_eq!(picks, vec![1, 2, 4]);
}

#[test]
fn test_parse_option_selections_skips_junk() {
    let picks = parse_option_selections("1, x, 3,, 5");
    assert_eq!(picks, vec![1, 3, 5]);
}
