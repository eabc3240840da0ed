//! The failures the library reports.
use vstd::prelude::*;

verus! {

/// Which required field a response builder was missing.
#[derive(Debug, Clone, Copy, PartialEq, Eq, Structural)]
pub enum BuildError {
    MissingOutput,
    MissingStatusCode,
    MissingBody,
}

/// Every failure of the library, by kind.
#[derive(Debug, Clone, Copy, PartialEq, Eq, Structural)]
pub enum Error {
    /// A bad start line, an unknown method, a bad length, a missing or
    /// unusable host: the request cannot be understood.
    MalformedRequest,
    /// Reading or writing the connection failed, or it ended too early.
    Transport,
    /// A response was built without a required field or with an unknown status.
    Build(BuildError),
    /// A response body is not text.
    BodyEncoding,
    /// A probe value of the right shape that no canned answer is kept for.
    UnknownSignature,
}

} // verus!
