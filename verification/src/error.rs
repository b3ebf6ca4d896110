use vstd::prelude::*;

verus! {

/// A reply that cannot be understood: not one complete JSON object of the
/// profile this client speaks, or an object without a `data` field.
#[derive(Clone, Copy, PartialEq, Eq, Structural, Debug)]
pub enum ProtocolError {
    Malformed,
}

/// Everything that can go wrong in one request/reply exchange with the
/// player, from the caller's point of view.
#[derive(Clone, Copy, PartialEq, Eq, Structural, Debug)]
pub enum MpvError {
    /// The IPC endpoint was unreachable or refused the connection.
    Connection,
    /// A read or write failed mid-exchange.
    Io,
    /// No reply arrived within the caller's bound.
    Timeout,
    /// The reply could not be decoded.
    Protocol(ProtocolError),
    /// The reply carried a value of an unexpected kind, or one outside the
    /// range this client can represent.
    Coercion,
}

impl MpvError {
    /// A short stable name for each error kind, for callers that render
    /// errors as text.
    pub fn describe(&self) -> (r: &'static str)
        ensures
            r@ == self.spec_describe(),
    {
        match self {
            MpvError::Connection => "connection refused or endpoint unreachable",
            MpvError::Io => "read or write failed",
            MpvError::Timeout => "no reply within the time bound",
            MpvError::Protocol(ProtocolError::Malformed) => "malformed reply",
            MpvError::Coercion => "value of unexpected kind",
        }
    }

    pub open spec fn spec_describe(&self) -> Seq<char> {
        match self {
            MpvError::Connection => "connection refused or endpoint unreachable"@,
            MpvError::Io => "read or write failed"@,
            MpvError::Timeout => "no reply within the time bound"@,
            MpvError::Protocol(ProtocolError::Malformed) => "malformed reply"@,
            MpvError::Coercion => "value of unexpected kind"@,
        }
    }
}

} // verus!
