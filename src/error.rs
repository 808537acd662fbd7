use vstd::prelude::*;

verus! {

/// What can go wrong while decoding a request or routing its packets.
#[derive(Debug, Clone, Copy, PartialEq, Eq, Structural)]
pub enum BanchoError {
    /// Fewer bytes remain than a fixed-width field needs.
    UnexpectedEof,
    /// A string is not UTF-8, or a ULEB128 length never ends.
    InvalidEncoding,
    /// A frame header declares more body bytes than the request holds.
    TruncatedFrame,
    /// A session token was presented that names no session.
    SessionNotFound,
}

} // verus!
