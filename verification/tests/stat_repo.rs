use repo_stat::{stat, ErrorKind};

#[test]
fn missing_repository_fails_with_git() {
    let err = stat("/tmp/repo_stat_no_repository_here").unwrap_err();
    assert_eq!(err.kind(), ErrorKind::Git);
    assert!(err.message().is_some());
}

#[test]
fn repository_without_origin_fails_with_git_remote_origin() {
    let path = "/tmp/repo_stat_no_origin";
    let repository = git2::Repository::init(path).unwrap();
    let _ = repository.remote_delete("origin");
    let err = stat(path).unwrap_err();
    assert_eq!(err.kind(), ErrorKind::GitRemoteOrigin);
    assert!(err.message().is_some());
}

#[test]
fn repository_with_origin_reports_user_repo_and_url() {
    let path = "/tmp/repo_stat_with_origin";
    let repository = git2::Repository::init(path).unwrap();
    let _ = repository.remote_delete("origin");
    repository
        .remote("origin", "git@github.com:octocat/Hello-World.git")
        .unwrap();
    let rem = stat(path).unwrap();
    assert_eq!(rem.user(), "octocat");
    assert_eq!(rem.repo(), "Hello-World");
    assert_eq!(rem.url(), "https://github.com/octocat/Hello-World");
}

#[test]
fn stat_is_idempotent_on_an_unchanged_repository() {
    let path = "/tmp/repo_stat_idempotent";
    let repository = git2::Repository::init(path).unwrap();
    let _ = repository.remote_delete("origin");
    repository
        .remote("origin", "git@github.com:octocat/Hello-World.git")
        .unwrap();
    let first = stat(path).unwrap();
    let second = stat(path).unwrap();
    assert_eq!(first, second);
}

#[test]
fn origin_with_unparsable_url_fails_with_github_url() {
    let path = "/tmp/repo_stat_bad_url";
    let repository = git2::Repository::init(path).unwrap();
    let _ = repository.remote_delete("origin");
    repository.remote("origin", "no-delimiters-at-all").unwrap();
    let err = stat(path).unwrap_err();
    assert_eq!(err.kind(), ErrorKind::GitHubUrl);
}
