use git_editor::get_gitconfig_paths;
use git_editor::get_system_gitconfig_path;
use git_editor::get_user_gitconfig_path;
use git_editor::parse_gitconfig;

#[test]
fn test_parse_gitconfig_basic() {
    let config = "\n[user]\n    name = John Doe\n    email = john@example.com\n\n[core]\n    editor = vim\n";

    assert_eq!(
        parse_gitconfig(config, "user", "name"),
        Some("John Doe".to_string())
    );
    assert_eq!(
        parse_gitconfig(config, "user", "email"),
        Some("john@example.com".to_string())
    );
    assert_eq!(
        parse_gitconfig(config, "core", "editor"),
        Some("vim".to_string())
    );
    assert_eq!(parse_gitconfig(config, "user", "nonexistent"), None);
    assert_eq!(parse_gitconfig(config, "nonexistent", "name"), None);
}

#[test]
fn test_parse_gitconfig_with_quotes() {
    let config = "\n[user]\n    name = \"John Doe\"\n    email = 'john@example.com'\n";

    assert_eq!(
        parse_gitconfig(config, "user", "name"),
        Some("John Doe".to_string())
    );
    assert_eq!(
        parse_gitconfig(config, "user", "email"),
        Some("john@example.com".to_string())
    );
}

#[test]
fn test_parse_gitconfig_case_insensitive() {
    let config = "\n[USER]\n    NAME = John Doe\n    EMAIL = john@example.com\n";

    assert_eq!(
        parse_gitconfig(config, "user", "name"),
        Some("John Doe".to_string())
    );
    assert_eq!(
        parse_gitconfig(config, "user", "email"),
        Some("john@example.com".to_string())
    );
}

#[test]
fn test_parse_gitconfig_with_comments() {
    let config = "\n# This is a comment\n[user]\n    name = John Doe  # inline comment\n    ; This is also a comment\n    email = john@example.com\n";

    assert_eq!(
        parse_gitconfig(config, "user", "name"),
        Some("John Doe  # inline comment".to_string())
    );
    assert_eq!(
        parse_gitconfig(config, "user", "email"),
        Some("john@example.com".to_string())
    );
}

#[test]
fn test_parse_gitconfig_empty_values() {
    let config = "\n[user]\n    name =\n    email = john@example.com\n";

    assert_eq!(parse_gitconfig(config, "user", "name"), Some("".to_string()));
    assert_eq!(
        parse_gitconfig(config, "user", "email"),
        Some("john@example.com".to_string())
    );
}

#[test]
fn test_get_gitconfig_paths() {
    // the paths for a Unix-like session with a known home directory
    let paths = get_gitconfig_paths(
        Some("/home/someone".to_string()),
        None,
        None,
        None,
        false,
        None,
    );
    assert!(
        !paths.is_empty(),
        "Should return at least one gitconfig path"
    );

    // First path should be the user config
    assert!(
        paths[0].ends_with(".gitconfig"),
        "First path should be user config"
    );
}

#[test]
fn test_system_gitconfig_path_logic() {
    // Test that system config path detection doesn't panic
    let _path = get_system_gitconfig_path(false, None);
}

#[test]
fn test_system_gitconfig_path_values() {
    assert_eq!(
        get_system_gitconfig_path(false, None),
        Some("/etc/gitconfig".to_string())
    );
    assert_eq!(get_system_gitconfig_path(true, None), None);
    assert_eq!(
        get_system_gitconfig_path(true, Some("C:\\ProgramData\\Git\\config".to_string())),
        Some("C:\\ProgramData\\Git\\config".to_string())
    );
}

#[test]
fn test_get_user_gitconfig_path() {
    // Test that the function returns a path
    let path = get_user_gitconfig_path(Some("/home/someone".to_string()), None, None, None);

    // Should return Some path on all supported platforms
    assert!(path.is_some(), "Should return a gitconfig path");

    let path = path.unwrap();
    assert!(
        path.ends_with(".gitconfig"),
        "Path should end with .gitconfig"
    );
}

#[test]
fn test_cross_platform_home_detection() {
    // Unix-like behavior: the home directory decides
    let path = get_user_gitconfig_path(Some("/tmp/test-home".to_string()), None, None, None);
    assert!(path.is_some());
    assert_eq!(path.unwrap(), "/tmp/test-home/.gitconfig");

    // Windows behavior: the user profile stands in
    let path = get_user_gitconfig_path(None, Some("C:\\Users\\TestUser".to_string()), None, None);
    assert!(path.is_some());
    let path_str = path.unwrap();
    assert!(path_str.contains("TestUser"));
    assert!(path_str.ends_with(".gitconfig"));

    // Alternative Windows behavior: drive and path combine
    let path = get_user_gitconfig_path(
        None,
        None,
        Some("C:".to_string()),
        Some("\\Users\\TestUser2".to_string()),
    );
    assert!(path.is_some());
    let path_str = path.unwrap();
    assert!(path_str.contains("TestUser2"));
    assert!(path_str.ends_with(".gitconfig"));

    // no home known at all
    let path = get_user_gitconfig_path(None, None, None, None);
    assert!(path.is_none());
}

#[test]
fn test_parse_gitconfig_section_switching() {
    // the same key in another section does not leak through
    let config = "[core]\n    name = not this one\n[user]\n    name = Right One\n";
    assert_eq!(
        parse_gitconfig(config, "user", "name"),
        Some("Right One".to_string())
    );
    assert_eq!(
        parse_gitconfig(config, "core", "name"),
        Some("not this one".to_string())
    );
}

#[test]
fn test_parse_gitconfig_first_match_wins() {
    let config = "[user]\n    name = First\n    name = Second\n";
    assert_eq!(parse_gitconfig(config, "user", "name"), Some("First".to_string()));
}
