use git_editor::get_repo_name_from_url;
use git_editor::normalize_git_url;

#[test]
fn test_normalize_git_url() {
    assert_eq!(
        normalize_git_url("https://github.com/user/repo.git"),
        "https://github.com/user/repo"
    );
    assert_eq!(
        normalize_git_url("https://github.com/user/repo"),
        "https://github.com/user/repo"
    );
    assert_eq!(
        normalize_git_url("git@github.com:user/repo.git"),
        "git@github.com:user/repo"
    );
}

#[test]
fn test_get_repo_name_from_url() {
    assert_eq!(
        get_repo_name_from_url("https://github.com/rohansen856/git-editor.git"),
        "rohansen856/git-editor"
    );
    assert_eq!(
        get_repo_name_from_url("https://github.com/user/repo"),
        "user/repo"
    );
    assert_eq!(get_repo_name_from_url("git@github.com:user/repo.git"), "user/repo");
    assert_eq!(
        get_repo_name_from_url("https://gitlab.com/namespace/project"),
        "namespace/project"
    );
}

#[test]
fn test_normalize_git_url_strips_repeated_suffix() {
    assert_eq!(normalize_git_url("repo.git.git"), "repo");
}
