use vstd::prelude::*;
use vstd::string::*;

verus! {

/// Why a work could not be loaded. Each one drops the work, never the scan.
#[derive(Debug, Clone, Copy, PartialEq, Eq, Structural)]
pub enum LoadError {
    /// The descriptor has no `id`, or an empty one.
    MissingId,
    /// The descriptor's `status` names no known status.
    UnknownStatus,
    /// A chapter file is neither a directory nor a recognised archive.
    UnknownFileType,
    /// Fewer than four bytes could be read from a local zip header.
    ShortLocalHeader,
    /// An entry's data offset does not fit in 64 bits.
    OffsetOverflow,
    /// Another work already holds this id.
    DuplicateId,
}

/// Why a request failed: a status to answer with, or a fault that is logged
/// and answered with 500.
#[derive(Debug)]
pub enum Error {
    StatusCode(u16),
    Other(String),
}

impl Error {
    pub fn not_found() -> (r: Error)
        ensures
            r == Error::StatusCode(404),
    {
        Error::StatusCode(404)
    }

    pub fn not_acceptable() -> (r: Error)
        ensures
            r == Error::StatusCode(406),
    {
        Error::StatusCode(406)
    }

    /// The status code answered.
    pub open spec fn spec_status(&self) -> u16 {
        match self {
            Error::StatusCode(c) => *c,
            Error::Other(_) => 500,
        }
    }

    pub fn status(&self) -> (r: u16)
        ensures
            r == self.spec_status(),
    {
        match self {
            Error::StatusCode(c) => *c,
            Error::Other(_) => 500,
        }
    }

    /// Puts `ctx` in front of a fault's message; a status is kept as it is.
    pub fn with_context(self, ctx: &str) -> (r: Error)
        ensures
            match self {
                Error::Other(m) => r matches Error::Other(n) && n@ == ctx@ + ": "@ + m@,
                Error::StatusCode(c) => r == Error::StatusCode(c),
            },
    {
        match self {
            Error::Other(m) => {
                let mut n = String::from_str(ctx);
                n.append(": ");
                n.append(m.as_str());
                Error::Other(n)
            },
            Error::StatusCode(c) => Error::StatusCode(c),
        }
    }
}

} // verus!
