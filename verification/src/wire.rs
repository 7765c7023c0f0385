//! The wire envelope codec.
//!
//! A Call envelope travels as `[tag length: 8 bytes LE][tag bytes]
//! [transaction id: 8 bytes LE][parameter bytes]`; a Result envelope as
//! `[transaction id: 8 bytes LE][outcome flag: 1 byte][payload bytes]`,
//! flag 1 for success and 0 for failure. Encoding and decoding are
//! deterministic exact inverses of one another; malformed bytes are rejected
//! whole, never turned into a partial envelope.

use vstd::prelude::*;
use vstd::bytes::{
    lemma_auto_spec_u64_to_from_le_bytes, spec_u64_from_le_bytes, spec_u64_to_le_bytes,
    u64_from_le_bytes, u64_to_le_bytes,
};
use vstd::slice::{slice_index_get, slice_subrange, slice_to_vec};
use crate::errors::DecodeError;

verus! {

broadcast use vstd::seq::group_seq_axioms;

/// The mathematical value of a Call envelope: which procedure is named, the
/// transaction id that correlates the eventual Result, and the serialized
/// parameter tuple.
pub struct CallView {
    pub tag: Seq<u8>,
    pub txid: u64,
    pub params: Seq<u8>,
}

/// The mathematical value of a Result outcome: either the serialized success
/// value of the procedure, or the serialized description of its failure.
/// A failing procedure is reported this way, inside a Result envelope,
/// never as a transport error.
pub enum OutcomeView {
    Success(Seq<u8>),
    Failure(Seq<u8>),
}

/// The mathematical value of a Result envelope.
pub struct ResultView {
    pub txid: u64,
    pub outcome: OutcomeView,
}

/// A Call envelope: produced by the client transaction manager, consumed
/// exactly once by the server's dispatch registry.
#[derive(Debug, PartialEq, Eq)]
pub struct CallEnvelope {
    pub tag: Vec<u8>,
    pub txid: u64,
    pub params: Vec<u8>,
}

/// The outcome carried by a Result envelope.
#[derive(Debug, PartialEq, Eq)]
pub enum Outcome {
    Success(Vec<u8>),
    Failure(Vec<u8>),
}

/// A Result envelope: produced by the server, consumed exactly once by the
/// caller that issued the matching Call.
#[derive(Debug, PartialEq, Eq)]
pub struct ResultEnvelope {
    pub txid: u64,
    pub outcome: Outcome,
}

impl View for CallEnvelope {
    type V = CallView;

    open spec fn view(&self) -> CallView {
        CallView { tag: self.tag@, txid: self.txid, params: self.params@ }
    }
}

impl View for Outcome {
    type V = OutcomeView;

    open spec fn view(&self) -> OutcomeView {
        match self {
            Outcome::Success(p) => OutcomeView::Success(p@),
            Outcome::Failure(p) => OutcomeView::Failure(p@),
        }
    }
}

impl View for ResultEnvelope {
    type V = ResultView;

    open spec fn view(&self) -> ResultView {
        ResultView { txid: self.txid, outcome: self.outcome@ }
    }
}

/// A Call envelope is well formed when its tag length fits in the 8-byte
/// length prefix of the wire layout.
pub open spec fn call_wf(c: CallView) -> bool {
    c.tag.len() <= u64::MAX
}

/// The bytes of a Call envelope on the wire. The tag comes first so a
/// decoder can select the parameter layout before reading the rest.
pub open spec fn spec_encode_call(c: CallView) -> Seq<u8> {
    spec_u64_to_le_bytes(c.tag.len() as u64) + c.tag + spec_u64_to_le_bytes(c.txid) + c.params
}

/// The Call envelope a byte string denotes, or `None` where the bytes are
/// not the encoding of any Call envelope.
pub open spec fn spec_decode_call(s: Seq<u8>) -> Option<CallView> {
    if s.len() < 16 {
        None
    } else {
        let tl = spec_u64_from_le_bytes(s.subrange(0, 8)) as int;
        if s.len() < 16 + tl {
            None
        } else {
            Some(
                CallView {
                    tag: s.subrange(8, 8 + tl),
                    txid: spec_u64_from_le_bytes(s.subrange(8 + tl, 16 + tl)),
                    params: s.subrange(16 + tl, s.len() as int),
                },
            )
        }
    }
}

/// The bytes of a Result envelope on the wire.
pub open spec fn spec_encode_result(r: ResultView) -> Seq<u8> {
    match r.outcome {
        OutcomeView::Success(p) => spec_u64_to_le_bytes(r.txid) + seq![1u8] + p,
        OutcomeView::Failure(p) => spec_u64_to_le_bytes(r.txid) + seq![0u8] + p,
    }
}

/// The Result envelope a byte string denotes, or `None` where the bytes are
/// not the encoding of any Result envelope.
pub open spec fn spec_decode_result(s: Seq<u8>) -> Option<ResultView> {
    if s.len() < 9 {
        None
    } else {
        let txid = spec_u64_from_le_bytes(s.subrange(0, 8));
        let payload = s.subrange(9, s.len() as int);
        if s[8] == 1u8 {
            Some(ResultView { txid, outcome: OutcomeView::Success(payload) })
        } else if s[8] == 0u8 {
            Some(ResultView { txid, outcome: OutcomeView::Failure(payload) })
        } else {
            None
        }
    }
}

/// Round-trip law for Call envelopes: decoding what was encoded yields the
/// original envelope, for every well-formed envelope.
pub proof fn lemma_call_round_trip(c: CallView)
    requires
        call_wf(c),
    ensures
        spec_decode_call(spec_encode_call(c)) == Some(c),
{
    lemma_auto_spec_u64_to_from_le_bytes();
    let s = spec_encode_call(c);
    let pre = spec_u64_to_le_bytes(c.tag.len() as u64);
    let mid = spec_u64_to_le_bytes(c.txid);
    let tl = c.tag.len() as int;
    assert(s.subrange(0, 8) =~= pre);
    assert(spec_u64_from_le_bytes(s.subrange(0, 8)) == c.tag.len() as u64);
    assert(s.subrange(8, 8 + tl) =~= c.tag);
    assert(s.subrange(8 + tl, 16 + tl) =~= mid);
    assert(s.subrange(16 + tl, s.len() as int) =~= c.params);
    assert(spec_decode_call(s) == Some(c));
}

/// Exactness of the Call decoder: every byte string it accepts is the
/// encoding of the (well-formed) envelope it returns, so encoding is
/// injective and no two distinct envelopes share a wire image.
pub proof fn lemma_call_decode_exact(s: Seq<u8>)
    requires
        spec_decode_call(s) is Some,
    ensures
        call_wf(spec_decode_call(s)->0),
        spec_encode_call(spec_decode_call(s)->0) == s,
{
    lemma_auto_spec_u64_to_from_le_bytes();
    let c = spec_decode_call(s)->0;
    let tl = spec_u64_from_le_bytes(s.subrange(0, 8)) as int;
    assert(c.tag.len() == tl);
    assert(c.tag.len() as u64 == spec_u64_from_le_bytes(s.subrange(0, 8)));
    assert(spec_u64_to_le_bytes(c.tag.len() as u64) =~= s.subrange(0, 8));
    assert(spec_u64_to_le_bytes(c.txid) =~= s.subrange(8 + tl, 16 + tl));
    assert(spec_encode_call(c) =~= s);
}

/// Round-trip law for Result envelopes: decoding what was encoded yields the
/// original envelope, for every envelope.
pub proof fn lemma_result_round_trip(r: ResultView)
    ensures
        spec_decode_result(spec_encode_result(r)) == Some(r),
{
    lemma_auto_spec_u64_to_from_le_bytes();
    let s = spec_encode_result(r);
    let pre = spec_u64_to_le_bytes(r.txid);
    assert(s.subrange(0, 8) =~= pre);
    match r.outcome {
        OutcomeView::Success(p) => {
            assert(s[8] == 1u8);
            assert(s.subrange(9, s.len() as int) =~= p);
        },
        OutcomeView::Failure(p) => {
            assert(s[8] == 0u8);
            assert(s.subrange(9, s.len() as int) =~= p);
        },
    }
    assert(spec_decode_result(s) == Some(r));
}

/// Exactness of the Result decoder: every byte string it accepts is the
/// encoding of the envelope it returns.
pub proof fn lemma_result_decode_exact(s: Seq<u8>)
    requires
        spec_decode_result(s) is Some,
    ensures
        spec_encode_result(spec_decode_result(s)->0) == s,
{
    lemma_auto_spec_u64_to_from_le_bytes();
    let r = spec_decode_result(s)->0;
    assert(spec_u64_to_le_bytes(r.txid) =~= s.subrange(0, 8));
    assert(spec_encode_result(r) =~= s);
}

/// Appends every byte of `src` to `dst`, in order.
fn push_bytes(dst: &mut Vec<u8>, src: &[u8])
    ensures
        final(dst)@ == old(dst)@ + src@,
{
    let ghost base = dst@;
    let mut i: usize = 0;
    while i < src.len()
        invariant
            i <= src@.len(),
            dst@ == base + src@.subrange(0, i as int),
        decreases src@.len() - i,
    {
        let b = *slice_index_get(src, i);
        dst.push(b);
        proof {
            assert(dst@ =~= base + src@.subrange(0, i + 1));
        }
        i = i + 1;
    }
    proof {
        assert(src@.subrange(0, src@.len() as int) =~= src@);
    }
}

/// Encodes a Call envelope into its wire bytes. Every envelope that fits in
/// memory is well formed, so its encoding decodes back to it.
pub fn encode_call(e: &CallEnvelope) -> (out: Vec<u8>)
    ensures
        out@ == spec_encode_call(e@),
        call_wf(e@),
{
    let mut out = u64_to_le_bytes(e.tag.len() as u64);
    push_bytes(&mut out, e.tag.as_slice());
    let txid_bytes = u64_to_le_bytes(e.txid);
    push_bytes(&mut out, txid_bytes.as_slice());
    push_bytes(&mut out, e.params.as_slice());
    proof {
        assert(out@ =~= spec_encode_call(e@));
    }
    out
}

/// Decodes wire bytes into the Call envelope they denote. Fails exactly on
/// the byte strings that no Call envelope encodes to, and never constructs
/// a partial envelope.
pub fn decode_call(bytes: &[u8]) -> (r: Result<CallEnvelope, DecodeError>)
    ensures
        (match r {
            Ok(e) => spec_decode_call(bytes@) == Some(e@),
            Err(err) => err == DecodeError::Malformed && spec_decode_call(bytes@) is None,
        }),
{
    if bytes.len() < 16 {
        return Err(DecodeError::Malformed);
    }
    let tl64 = u64_from_le_bytes(slice_subrange(bytes, 0, 8));
    let rest = (bytes.len() - 16) as u64;
    if tl64 > rest {
        return Err(DecodeError::Malformed);
    }
    let tl = tl64 as usize;
    let tag = slice_to_vec(slice_subrange(bytes, 8, 8 + tl));
    let txid = u64_from_le_bytes(slice_subrange(bytes, 8 + tl, 16 + tl));
    let params = slice_to_vec(slice_subrange(bytes, 16 + tl, bytes.len()));
    Ok(CallEnvelope { tag, txid, params })
}

/// Encodes a Result envelope into its wire bytes.
pub fn encode_result(e: &ResultEnvelope) -> (out: Vec<u8>)
    ensures
        out@ == spec_encode_result(e@),
{
    let mut out = u64_to_le_bytes(e.txid);
    match &e.outcome {
        Outcome::Success(p) => {
            out.push(1u8);
            push_bytes(&mut out, p.as_slice());
        },
        Outcome::Failure(p) => {
            out.push(0u8);
            push_bytes(&mut out, p.as_slice());
        },
    }
    proof {
        assert(out@ =~= spec_encode_result(e@));
    }
    out
}

/// Decodes wire bytes into the Result envelope they denote. Fails exactly
/// on the byte strings that no Result envelope encodes to.
pub fn decode_result(bytes: &[u8]) -> (r: Result<ResultEnvelope, DecodeError>)
    ensures
        (match r {
            Ok(e) => spec_decode_result(bytes@) == Some(e@),
            Err(err) => err == DecodeError::Malformed && spec_decode_result(bytes@) is None,
        }),
{
    if bytes.len() < 9 {
        return Err(DecodeError::Malformed);
    }
    let txid = u64_from_le_bytes(slice_subrange(bytes, 0, 8));
    let flag = *slice_index_get(bytes, 8);
    let payload = slice_to_vec(slice_subrange(bytes, 9, bytes.len()));
    if flag == 1u8 {
        Ok(ResultEnvelope { txid, outcome: Outcome::Success(payload) })
    } else if flag == 0u8 {
        Ok(ResultEnvelope { txid, outcome: Outcome::Failure(payload) })
    } else {
        Err(DecodeError::Malformed)
    }
}

} // verus!
