//! The error taxonomy shared by every fallible operation of the library.

use vstd::prelude::*;

verus! {

/// What went wrong, by class.
#[derive(Clone, Copy, Debug, PartialEq, Eq, Structural)]
pub enum ErrorKind {
    /// A login or renew was rejected or its response was malformed.
    AuthenticationFailure,
    /// A response had an unexpected shape.
    ProtocolError,
    /// The transport collaborator reported a network or HTTP failure.
    TransportError,
    /// JSON, binary or decompression input could not be parsed.
    DecodeError,
    /// A value could not be cast, or its type is explicitly unsupported.
    TypeCastError,
    /// No idle session was available in the pool.
    PoolExhausted,
    /// The session behind a handle was already reclaimed or dropped.
    DeadSession,
    /// The operation itself is out of scope (file transfer, composite
    /// columnar types, the SLICE column type).
    UnsupportedOperation,
}

/// A typed failure: its class plus a human-readable message naming the
/// originating operation.
#[derive(Clone, Debug)]
pub struct SnowflakeError {
    pub kind: ErrorKind,
    pub message: String,
}

impl SnowflakeError {
    pub fn new(kind: ErrorKind, message: String) -> (r: Self)
        ensures
            r.kind == kind,
            r.message@ == message@,
    {
        SnowflakeError { kind, message }
    }

    pub fn kind(&self) -> (r: ErrorKind)
        ensures
            r == self.kind,
    {
        self.kind
    }

    pub fn message(&self) -> (r: &str)
        ensures
            r@ == self.message@,
    {
        self.message.as_str()
    }

    pub open spec fn spec_kind(&self) -> ErrorKind {
        self.kind
    }

    pub open spec fn spec_message(&self) -> Seq<char> {
        self.message@
    }
}

} // verus!
