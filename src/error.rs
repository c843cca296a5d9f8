//! The error type of the crate: a root-cause kind and an ordered list of
//! context lines, outermost last.

use vstd::prelude::*;

verus! {

/// What went wrong, at the root.
#[derive(Debug, Clone, Copy, PartialEq, Eq, Structural)]
pub enum ErrorKind {
    /// Connecting, a timeout, TLS.
    Network,
    /// A malformed header or an unexpected status.
    Protocol,
    /// An unparsable challenge, a failed token exchange, or a request that
    /// stayed unauthorized after its one retry.
    Auth,
    /// Content did not hash to its expected digest.
    DigestMismatch,
    /// The digest's algorithm cannot be computed here.
    UnsupportedAlgorithm,
    /// The registry does not know the repository.
    RepoNotFound,
    /// The download directory is already there.
    DirectoryExists,
    /// A body is larger than the caller allowed.
    PayloadTooLarge,
    /// A digest string does not have the `algorithm:hex` shape.
    MalformedDigest,
    /// Creating, writing or reading a file failed.
    Filesystem,
}

/// An error: its root cause and what was being done when it happened.
#[derive(Debug, Clone)]
pub struct Error {
    pub kind: ErrorKind,
    /// Context lines, in the order in which they were attached.
    pub context: Vec<String>,
}

impl Error {
    /// An error of the given kind with no context yet.
    pub fn new(kind: ErrorKind) -> (r: Error)
        ensures
            r.kind == kind,
            r.context@.len() == 0,
    {
        Error { kind, context: Vec::new() }
    }

    /// The same error, with one more line of context.
    pub fn context(self, line: String) -> (r: Error)
        ensures
            r.kind == self.kind,
            r.context@ == self.context@.push(line),
    {
        let mut context = self.context;
        context.push(line);
        Error { kind: self.kind, context }
    }

    /// The root-cause kind.
    pub fn kind(&self) -> (r: ErrorKind)
        ensures
            r == self.kind,
    {
        self.kind
    }
}

} // verus!
