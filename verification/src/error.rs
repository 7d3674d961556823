use vstd::prelude::*;

verus! {

/// The failure categories of `stat`, one per stage of the lookup.
#[derive(Debug, Clone, Copy, PartialEq, Eq, Structural)]
pub enum ErrorKind {
    /// The repository at the given path could not be opened.
    Git,
    /// The repository has no remote named `origin`.
    GitRemoteOrigin,
    /// The `origin` remote has no readable URL.
    GitRemoteUrl,
    /// The remote URL lacks the delimiters the parser needs.
    GitHubUrl,
}

/// A typed failure: a kind, and optionally the message of the underlying
/// cause, kept for diagnostic display.
#[derive(Debug, Clone)]
pub struct Error {
    kind: ErrorKind,
    message: Option<String>,
}

impl Error {
    /// The failure category.
    pub closed spec fn kind_spec(&self) -> ErrorKind {
        self.kind
    }

    /// The message of the underlying cause, when one was recorded.
    pub closed spec fn message_spec(&self) -> Option<Seq<char>> {
        match self.message {
            Some(m) => Some(m@),
            None => None,
        }
    }

    /// An error of the given kind with no recorded cause.
    pub fn from_kind(kind: ErrorKind) -> (r: Error)
        ensures
            r.kind_spec() == kind,
            r.message_spec() is None,
    {
        Error { kind, message: None }
    }

    /// An error of the given kind carrying the message of its cause.
    pub fn with_message(kind: ErrorKind, message: String) -> (r: Error)
        ensures
            r.kind_spec() == kind,
            r.message_spec() == Some(message@),
    {
        Error { kind, message: Some(message) }
    }

    /// The failure category.
    pub fn kind(&self) -> (r: ErrorKind)
        ensures
            r == self.kind_spec(),
    {
        self.kind
    }

    /// The message of the underlying cause, when one was recorded.
    pub fn message(&self) -> (r: &Option<String>)
        ensures
            match r {
                Some(m) => self.message_spec() == Some(m@),
                None => self.message_spec() is None,
            },
    {
        &self.message
    }
}

} // verus!
