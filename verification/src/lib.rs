use vstd::prelude::*;

pub mod error;
pub mod parse;
mod repo;

pub use error::{Error, ErrorKind};

use parse::{
    find_from, github_base, lemma_split_at_first, lemma_split_len_pos, lemma_split_no_delim,
    parse_url_spec, remove_git_str, split_char, strip_git,
};
use repo::{find_remote_by_name, git_error_message, open_repository, remote_url};

verus! {

/// A repository's `origin` remote, reduced to the triple the URL parser
/// extracts. Immutable once constructed.
#[derive(Debug, Clone, PartialEq, Eq)]
pub struct Remote {
    url: String,
    user: String,
    repo: String,
}

impl Remote {
    /// The reconstructed URL, `https://github.com/` followed by the
    /// cleaned owner/repository segment.
    pub closed spec fn url_spec(&self) -> Seq<char> {
        self.url@
    }

    /// The segment before the first `/`.
    pub closed spec fn user_spec(&self) -> Seq<char> {
        self.user@
    }

    /// The segment after the first `/`, up to the next `/` or the end.
    pub closed spec fn repo_spec(&self) -> Seq<char> {
        self.repo@
    }

    /// A `Remote` is well formed when some URL parses to exactly its
    /// three fields.
    pub open spec fn wf(&self) -> bool {
        exists|u: Seq<char>|
            parse_url_spec(u) == Some((self.url_spec(), self.user_spec(), self.repo_spec()))
    }

    /// Get the url.
    pub fn url(&self) -> (r: &str)
        ensures
            r@ == self.url_spec(),
    {
        self.url.as_str()
    }

    /// Get the user.
    pub fn user(&self) -> (r: &str)
        ensures
            r@ == self.user_spec(),
    {
        self.user.as_str()
    }

    /// Get the repo.
    pub fn repo(&self) -> (r: &str)
        ensures
            r@ == self.repo_spec(),
    {
        self.repo.as_str()
    }
}

/// Parses a remote URL into a `Remote`, returning a `GitHubUrl` error
/// exactly when the URL has no `:`, or the segment after the first `:`
/// has no `/` once every `.git` is dropped.
pub fn parse_url(url: &str) -> (r: Result<Remote, Error>)
    ensures
        match r {
            Ok(rem) => parse_url_spec(url@) == Some(
                (rem.url_spec(), rem.user_spec(), rem.repo_spec()),
            ),
            Err(e) => parse_url_spec(url@) is None && e.kind_spec() == ErrorKind::GitHubUrl
                && e.message_spec() is None,
        },
{
    let n = url.unicode_len();
    let c1 = match find_from(url, 0, ':') {
        Some(k) => k,
        None => {
            proof {
                lemma_split_no_delim(url@, ':');
            }
            return Err(Error::from_kind(ErrorKind::GitHubUrl));
        },
    };
    let ghost rest = url@.skip(c1 + 1);
    proof {
        lemma_split_at_first(url@, ':', c1 as int);
        lemma_split_len_pos(rest, ':');
    }
    let seg_end = match find_from(url, c1 + 1, ':') {
        Some(k) => {
            proof {
                assert(rest[k - (c1 + 1)] == url@[k as int]);
                assert(forall|i: int| 0 <= i < k - (c1 + 1) ==> rest[i] != ':');
                lemma_split_at_first(rest, ':', k - (c1 + 1));
                assert(rest.take(k - (c1 + 1)) =~= url@.subrange(c1 + 1, k as int));
            }
            k
        },
        None => {
            proof {
                assert(forall|i: int| 0 <= i < rest.len() ==> rest[i] != ':');
                lemma_split_no_delim(rest, ':');
                assert(rest =~= url@.subrange(c1 + 1, n as int));
            }
            n
        },
    };
    let seg = url.substring_char(c1 + 1, seg_end);
    proof {
        assert(split_char(url@, ':')[1] == split_char(rest, ':')[0]);
        assert(seg@ == split_char(url@, ':')[1]);
    }
    let cleaned = remove_git_str(seg);
    let ghost cl = cleaned@;
    assert(cl == strip_git(split_char(url@, ':')[1]));
    let m = cleaned.as_str().unicode_len();
    let d1 = match find_from(cleaned.as_str(), 0, '/') {
        Some(k) => k,
        None => {
            proof {
                lemma_split_no_delim(cl, '/');
            }
            return Err(Error::from_kind(ErrorKind::GitHubUrl));
        },
    };
    let ghost tail = cl.skip(d1 + 1);
    proof {
        lemma_split_at_first(cl, '/', d1 as int);
        lemma_split_len_pos(tail, '/');
    }
    let user = cleaned.as_str().substring_char(0, d1);
    proof {
        assert(cl.take(d1 as int) =~= cl.subrange(0, d1 as int));
        assert(user@ == split_char(cl, '/')[0]);
    }
    let r_end = match find_from(cleaned.as_str(), d1 + 1, '/') {
        Some(k) => {
            proof {
                assert(tail[k - (d1 + 1)] == cl[k as int]);
                assert(forall|i: int| 0 <= i < k - (d1 + 1) ==> tail[i] != '/');
                lemma_split_at_first(tail, '/', k - (d1 + 1));
                assert(tail.take(k - (d1 + 1)) =~= cl.subrange(d1 + 1, k as int));
            }
            k
        },
        None => {
            proof {
                assert(forall|i: int| 0 <= i < tail.len() ==> tail[i] != '/');
                lemma_split_no_delim(tail, '/');
                assert(tail =~= cl.subrange(d1 + 1, m as int));
            }
            m
        },
    };
    let repo = cleaned.as_str().substring_char(d1 + 1, r_end);
    proof {
        assert(split_char(cl, '/')[1] == split_char(tail, '/')[0]);
        assert(repo@ == split_char(cl, '/')[1]);
    }
    let full = String::from_str("https://github.com/").concat(cleaned.as_str());
    assert(full@ == github_base() + cl);
    Ok(
        Remote {
            url: full,
            user: String::from_str(user),
            repo: String::from_str(repo),
        },
    )
}

/// Find out what the GitHub url, user and repo are for a directory.
///
/// Opens the repository at `path`, looks up the remote named `origin`,
/// reads its URL and parses it. Each stage that fails is reported under
/// its own kind: `Git` when the repository cannot be opened,
/// `GitRemoteOrigin` when no `origin` remote exists, `GitRemoteUrl`
/// when its URL cannot be read, and `GitHubUrl` when the URL does not
/// parse. What the repository lookup returns depends on the disk, so
/// the contract promises the shape of every outcome: any error carries
/// one of the four kinds, and any success is a well-formed `Remote`,
/// the exact parse of the URL that was read.
pub fn stat(path: &str) -> (r: Result<Remote, Error>)
    ensures
        match r {
            Ok(rem) => rem.wf(),
            Err(e) => e.kind_spec() == ErrorKind::Git || e.kind_spec() == ErrorKind::GitRemoteOrigin
                || e.kind_spec() == ErrorKind::GitRemoteUrl || e.kind_spec()
                == ErrorKind::GitHubUrl,
        },
{
    let repository = match open_repository(path) {
        Ok(repository) => repository,
        Err(e) => {
            let msg = git_error_message(&e);
            return Err(Error::with_message(ErrorKind::Git, msg));
        },
    };
    let remote = match find_remote_by_name(&repository, "origin") {
        Ok(remote) => remote,
        Err(e) => {
            let msg = git_error_message(&e);
            return Err(Error::with_message(ErrorKind::GitRemoteOrigin, msg));
        },
    };
    let url = match remote_url(&remote) {
        Ok(url) => url,
        Err(e) => {
            let msg = git_error_message(&e);
            return Err(Error::with_message(ErrorKind::GitRemoteUrl, msg));
        },
    };
    match parse_url(url.as_str()) {
        Ok(rem) => {
            proof {
                assert(parse_url_spec(url@) == Some(
                    (rem.url_spec(), rem.user_spec(), rem.repo_spec()),
                ));
            }
            Ok(rem)
        },
        Err(e) => Err(e),
    }
}

/// Parsing is a function of the URL text alone: whenever two parses of
/// the same URL both succeed, they agree on every field. An unchanged
/// repository hands `stat` the same `origin` URL each time, so the
/// `Remote` it builds is then fully determined.
pub proof fn lemma_parse_deterministic(
    u: Seq<char>,
    r1: (Seq<char>, Seq<char>, Seq<char>),
    r2: (Seq<char>, Seq<char>, Seq<char>),
)
    requires
        parse_url_spec(u) == Some(r1),
        parse_url_spec(u) == Some(r2),
    ensures
        r1 == r2,
{
}

} // verus!
