use git2::Error as Git2Error;
use git2::Remote as Git2Remote;
use git2::Repository as Git2Repository;
use vstd::prelude::*;

verus! {

#[verifier::external_type_specification]
#[verifier::external_body]
pub struct ExRepository(Git2Repository);

#[verifier::external_type_specification]
#[verifier::external_body]
pub struct ExGitFault(Git2Error);

#[verifier::external_type_specification]
#[verifier::external_body]
pub struct ExGitRemote<'a>(Git2Remote<'a>);

/// Relies on git2::Repository::open: opens the repository at `path`.
/// What comes back depends on what is on disk, so nothing is promised.
#[verifier::external_body]
pub(crate) fn open_repository(path: &str) -> Result<Git2Repository, Git2Error> {
    Git2Repository::open(path)
}

/// Relies on git2::Repository::find_remote: looks up the remote named
/// `name`. What comes back depends on the repository's configuration,
/// so nothing is promised.
#[verifier::external_body]
pub(crate) fn find_remote_by_name<'r>(repository: &'r Git2Repository, name: &str) -> Result<
    Git2Remote<'r>,
    Git2Error,
> {
    repository.find_remote(name)
}

/// Relies on git2::Remote::url: reads the remote's URL, failing when it
/// is not valid UTF-8. What comes back depends on the repository's
/// configuration, so nothing is promised.
#[verifier::external_body]
pub(crate) fn remote_url<'r>(remote: &Git2Remote<'r>) -> Result<String, Git2Error> {
    match remote.url() {
        Ok(u) => Ok(u.to_owned()),
        Err(e) => Err(e),
    }
}

/// Relies on git2::Error::message: the error's human-readable message.
/// Nothing is promised of its content.
#[verifier::external_body]
pub(crate) fn git_error_message(e: &Git2Error) -> String {
    e.message().to_owned()
}

} // verus!
