use repo_stat::{parse_url, Error, ErrorKind};

#[test]
fn parses_ssh_style_url() {
    let rem = parse_url("git@github.com:octocat/Hello-World.git").unwrap();
    assert_eq!(rem.user(), "octocat");
    assert_eq!(rem.repo(), "Hello-World");
    assert_eq!(rem.url(), "https://github.com/octocat/Hello-World");
}

#[test]
fn https_style_url_parses_on_the_scheme_colon() {
    // `https:` supplies the only colon, so segment 1 is
    // `//github.com/octocat/Hello-World`, whose `/` split starts with
    // two empty segments: user and repo both come out empty. This pins
    // the known quirk that HTTPS-style URLs parse badly.
    let rem = parse_url("https://github.com/octocat/Hello-World").unwrap();
    assert_eq!(rem.user(), "");
    assert_eq!(rem.repo(), "");
    assert_eq!(rem.url(), "https://github.com///github.com/octocat/Hello-World");
}

#[test]
fn url_without_colon_is_rejected() {
    let err = parse_url("github.com/octocat/Hello-World").unwrap_err();
    assert_eq!(err.kind(), ErrorKind::GitHubUrl);
    assert!(err.message().is_none());
}

#[test]
fn url_without_slash_after_colon_is_rejected() {
    let err = parse_url("git@github.com:octocat").unwrap_err();
    assert_eq!(err.kind(), ErrorKind::GitHubUrl);
}

#[test]
fn empty_url_is_rejected() {
    let err = parse_url("").unwrap_err();
    assert_eq!(err.kind(), ErrorKind::GitHubUrl);
}

#[test]
fn every_git_occurrence_is_removed() {
    let rem = parse_url("host:a.git/b.git").unwrap();
    assert_eq!(rem.user(), "a");
    assert_eq!(rem.repo(), "b");
    assert_eq!(rem.url(), "https://github.com/a/b");
}

#[test]
fn git_is_removed_in_the_middle_of_a_segment() {
    let rem = parse_url("host:oct.gitocat/x").unwrap();
    assert_eq!(rem.user(), "octocat");
    assert_eq!(rem.repo(), "x");
}

#[test]
fn removal_does_not_rescan_what_it_built() {
    // Dropping `.git` from `..gitgit` leaves `.git` behind, exactly as
    // a left-to-right single pass does.
    let rem = parse_url("h:..gitgit/x").unwrap();
    assert_eq!(rem.user(), ".git");
    assert_eq!(rem.repo(), "x");
}

#[test]
fn extra_slash_segments_are_discarded_from_user_and_repo() {
    let rem = parse_url("host:a/b/c").unwrap();
    assert_eq!(rem.user(), "a");
    assert_eq!(rem.repo(), "b");
    assert_eq!(rem.url(), "https://github.com/a/b/c");
}

#[test]
fn extra_colon_segments_are_discarded() {
    // Only segment 1 of the colon split is read; `c/d` after the second
    // colon is dropped.
    let err = parse_url("a:b:c/d").unwrap_err();
    assert_eq!(err.kind(), ErrorKind::GitHubUrl);
    let rem = parse_url("a:b/e:c/d").unwrap();
    assert_eq!(rem.user(), "b");
    assert_eq!(rem.repo(), "e");
}

#[test]
fn error_constructors_record_kind_and_message() {
    let e = Error::from_kind(ErrorKind::Git);
    assert_eq!(e.kind(), ErrorKind::Git);
    assert!(e.message().is_none());
    let e = Error::with_message(ErrorKind::GitRemoteUrl, String::from("cause"));
    assert_eq!(e.kind(), ErrorKind::GitRemoteUrl);
    assert_eq!(e.message().as_deref(), Some("cause"));
}
