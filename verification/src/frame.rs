//! Length-prefixed frames: a 4-byte big-endian length, then the payload.

use crate::model::{ClientError, ErrorView};
use crate::wire::{be32, from_be32, holds_at, lemma_read_u32_at, push_all, push_u32, read_u32, spec_read_u32};
use vstd::prelude::*;

verus! {

/// The frame that carries `payload`.
pub open spec fn spec_write_frame(payload: Seq<u8>) -> Seq<u8> {
    be32(payload.len() as u32) + payload
}

/// What a frame header announces: too few bytes are an I/O failure, a length
/// over `max` a protocol failure, anything else the payload's length.
pub open spec fn spec_frame_length(header: Seq<u8>, max: u32) -> Result<int, ErrorView> {
    match spec_read_u32(header, 0) {
        None => Err(ErrorView::Io),
        Some((n, _)) => if n > max {
            Err(ErrorView::Protocol)
        } else {
            Ok(n as int)
        },
    }
}

/// The payload of the frame with which `stream` begins.
pub open spec fn spec_read_frame(stream: Seq<u8>, max: u32) -> Result<Seq<u8>, ErrorView> {
    match spec_frame_length(stream, max) {
        Err(e) => Err(e),
        Ok(n) => if stream.len() < 4 + n {
            Err(ErrorView::Io)
        } else {
            Ok(stream.subrange(4, 4 + n))
        },
    }
}

/// Frames a payload. A payload longer than `max` is refused as a protocol
/// failure.
pub fn write_frame(payload: &[u8], max: u32) -> (r: Result<Vec<u8>, ClientError>)
    ensures
        payload@.len() <= max ==> r is Ok && r->Ok_0@ == spec_write_frame(payload@),
        payload@.len() > max ==> r is Err && r->Err_0@ == ErrorView::Protocol,
{
    if payload.len() > max as usize {
        return Err(ClientError::Protocol);
    }
    let mut out: Vec<u8> = Vec::new();
    push_u32(&mut out, payload.len() as u32);
    push_all(&mut out, payload);
    assert(out@ =~= spec_write_frame(payload@));
    Ok(out)
}

/// Reads the length that a frame header announces, before anything is
/// allocated for the payload.
pub fn frame_length(header: &[u8], max: u32) -> (r: Result<usize, ClientError>)
    ensures
        match r {
            Ok(n) => spec_frame_length(header@, max) == Ok::<int, ErrorView>(n as int),
            Err(e) => spec_frame_length(header@, max) == Err::<int, ErrorView>(e@),
        },
{
    match read_u32(header, 0) {
        None => Err(ClientError::Io),
        Some((n, _)) => {
            if n > max {
                Err(ClientError::Protocol)
            } else {
                Ok(n as usize)
            }
        },
    }
}

/// Takes the payload out of the frame with which `stream` begins.
pub fn read_frame(stream: &[u8], max: u32) -> (r: Result<Vec<u8>, ClientError>)
    ensures
        match r {
            Ok(p) => spec_read_frame(stream@, max) == Ok::<Seq<u8>, ErrorView>(p@),
            Err(e) => spec_read_frame(stream@, max) == Err::<Seq<u8>, ErrorView>(e@),
        },
{
    match frame_length(stream, max) {
        Err(e) => Err(e),
        Ok(n) => {
            if stream.len() - 4 < n {
                Err(ClientError::Io)
            } else {
                Ok(vstd::slice::slice_to_vec(vstd::slice::slice_subrange(stream, 4, 4 + n)))
            }
        },
    }
}

/// Reading a written frame gives the payload back, for every payload that is
/// no longer than the maximum.
pub proof fn lemma_frame_round_trip(payload: Seq<u8>, max: u32)
    requires
        payload.len() <= max,
    ensures
        spec_read_frame(spec_write_frame(payload), max) == Ok::<Seq<u8>, ErrorView>(payload),
{
    let f = spec_write_frame(payload);
    let n = payload.len() as u32;
    assert(holds_at(f, 0, be32(n)));
    lemma_read_u32_at(f, 0, n);
    assert(f.subrange(4, 4 + n) =~= payload);
}

/// A header that announces more than the maximum is a protocol failure,
/// whatever follows it.
pub proof fn lemma_oversized_frame_rejected(stream: Seq<u8>, max: u32)
    requires
        stream.len() >= 4,
        from_be32(stream[0], stream[1], stream[2], stream[3]) > max,
    ensures
        spec_frame_length(stream.subrange(0, 4), max) == Err::<int, ErrorView>(ErrorView::Protocol),
        spec_read_frame(stream, max) == Err::<Seq<u8>, ErrorView>(ErrorView::Protocol),
{
}

} // verus!
