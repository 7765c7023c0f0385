//! The error taxonomy of the channel.

use vstd::prelude::*;

verus! {

/// Why an inbound Call frame was rejected by the server: either the bytes do
/// not form a Call envelope at all, or they name a procedure tag that no
/// dispatch record was registered for. A rejected frame is dropped; the
/// connection stays open.
#[derive(Clone, Copy, Debug, PartialEq, Eq, Structural)]
pub enum DecodeError {
    Malformed,
    UnknownTag,
}

/// A failure surfaced to a caller by the client transaction manager.
///
/// `Decode`: an inbound frame did not form a Result envelope.
/// `ProtocolViolation`: a Result arrived for a transaction id with no pending
/// entry, or one whose result was already delivered; reported, never silently
/// dropped, and the other pending calls are untouched.
/// `ConnectionClosed`: the underlying connection failed, so a pending call
/// can never receive its Result.
#[derive(Clone, Copy, Debug, PartialEq, Eq, Structural)]
pub enum ClientError {
    Decode,
    ProtocolViolation,
    ConnectionClosed,
}

/// Refusal to register a second dispatch record under a tag that is already
/// taken. Registration happens once at process start, so the caller treats
/// this as a fatal configuration error.
#[derive(Clone, Copy, Debug, PartialEq, Eq, Structural)]
pub struct DuplicateTag;

} // verus!
