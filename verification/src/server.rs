//! The server connection loop's decision core.
//!
//! Per connection the server is a small state machine: it is `Open` while
//! frames are being received and dispatched, and `Closed` once the socket
//! fails or shuts down cleanly. For each inbound frame the core decodes the
//! Call envelope, selects the dispatch record registered for its tag, and
//! hands back everything the caller of the loop needs to run the procedure
//! concurrently and write exactly one Result frame for it. A frame that
//! cannot be decoded, or that names an unregistered tag, fails only that
//! dispatch attempt: the error is reported and the connection stays open.
//! Procedures run concurrently, so Results may be produced in any order;
//! each Result frame embeds the transaction id of the Call it answers.

use vstd::prelude::*;
use crate::errors::DecodeError;
use crate::registry::Registry;
use crate::wire::{
    encode_result, spec_decode_call, spec_encode_result, Outcome, ResultEnvelope, ResultView,
};

verus! {

/// Whether a connection still accepts frames.
#[derive(Clone, Copy, Debug, PartialEq, Eq, Structural)]
pub enum ServerState {
    Open,
    Closed,
}

/// One inbound Call, decoded and routed: the handle of the dispatch record
/// registered for the call's tag, the transaction id to embed in the Result,
/// and the parameter bytes that only the selected record knows how to
/// decode.
#[derive(Debug, PartialEq, Eq)]
pub struct DispatchJob {
    pub handle: usize,
    pub txid: u64,
    pub params: Vec<u8>,
}

/// The per-connection server state machine.
pub struct ServerConn {
    state: ServerState,
}

impl ServerConn {
    /// The connection accepts frames.
    pub closed spec fn is_open(&self) -> bool {
        self.state == ServerState::Open
    }

    /// A fresh connection, open and ready to receive frames.
    pub fn new() -> (c: ServerConn)
        ensures
            c.is_open(),
    {
        ServerConn { state: ServerState::Open }
    }

    /// Whether the connection is still open.
    pub fn open(&self) -> (r: bool)
        ensures
            r == self.is_open(),
    {
        self.state == ServerState::Open
    }

    /// Routes one inbound frame. On success the frame was a Call envelope
    /// whose tag is registered, and the job names that record, the call's
    /// transaction id and its parameter bytes. A malformed frame or an
    /// unknown tag is refused with the matching `DecodeError`; the
    /// connection itself is untouched either way and keeps receiving.
    pub fn handle_frame(&self, reg: &Registry, frame: &[u8]) -> (r: Result<
        DispatchJob,
        DecodeError,
    >)
        requires
            self.is_open(),
            reg.wf(),
        ensures
            (match r {
                Ok(job) => {
                    &&& spec_decode_call(frame@) is Some
                    &&& job.txid == spec_decode_call(frame@)->0.txid
                    &&& job.params@ == spec_decode_call(frame@)->0.params
                    &&& job.handle < reg@.len()
                    &&& reg@[job.handle as int] == spec_decode_call(frame@)->0.tag
                },
                Err(DecodeError::Malformed) => spec_decode_call(frame@) is None,
                Err(DecodeError::UnknownTag) => {
                    &&& spec_decode_call(frame@) is Some
                    &&& forall|i: int|
                        0 <= i < reg@.len() ==> reg@[i] != spec_decode_call(frame@)->0.tag
                },
            }),
    {
        let call = match crate::wire::decode_call(frame) {
            Ok(c) => c,
            Err(e) => {
                return Err(e);
            },
        };
        match reg.lookup(call.tag.as_slice()) {
            Some(handle) => Ok(DispatchJob { handle, txid: call.txid, params: call.params }),
            None => Err(DecodeError::UnknownTag),
        }
    }

    /// Builds the one Result frame owed for a dispatched call, embedding the
    /// transaction id of the Call it answers so the client can correlate it
    /// whatever order the concurrent dispatches complete in.
    pub fn reply_frame(&self, txid: u64, outcome: Outcome) -> (out: Vec<u8>)
        ensures
            out@ == spec_encode_result((ResultView { txid, outcome: outcome@ })),
    {
        encode_result(&ResultEnvelope { txid, outcome })
    }

    /// The socket failed or shut down: the connection is closed for good
    /// and no further frame is handled.
    pub fn on_socket_closed(&mut self)
        ensures
            !final(self).is_open(),
    {
        self.state = ServerState::Closed;
    }
}

} // verus!
