//! Frames on the duplex channel: the payload's length as eight little-endian
//! bytes, followed by exactly that many bytes of payload.

use vstd::prelude::*;
use vstd::array::array_as_slice;
use vstd::bytes::{
    lemma_auto_spec_u64_to_from_le_bytes, spec_u64_from_le_bytes, spec_u64_to_le_bytes,
    u64_from_le_bytes, u64_to_le_bytes,
};
use vstd::slice::{slice_subrange, slice_to_vec};

verus! {

/// The length of the prefix that announces the payload's length.
pub const FRAME_HEADER_LEN: usize = 8;

/// The frame that carries `payload`.
pub open spec fn frame_bytes(payload: Seq<u8>) -> Seq<u8> {
    spec_u64_to_le_bytes(payload.len() as u64) + payload
}

/// The payload of the frame at the head of `bytes` and the frame's length;
/// `None` while the header or the payload is incomplete.
pub open spec fn parsed_frame(bytes: Seq<u8>) -> Option<(Seq<u8>, nat)> {
    if bytes.len() < 8 {
        None
    } else {
        let length = spec_u64_from_le_bytes(bytes.take(8));
        if bytes.len() - 8 < length {
            None
        } else {
            Some((bytes.subrange(8, 8 + length), (8 + length) as nat))
        }
    }
}

/// Wire framing round-trip: the frame of a payload, whatever follows it,
/// reads back as that payload.
pub proof fn law_frame_round_trip(payload: Seq<u8>, rest: Seq<u8>)
    requires
        payload.len() <= u64::MAX,
    ensures
        parsed_frame(frame_bytes(payload) + rest) == Some((payload, 8 + payload.len())),
{
    lemma_auto_spec_u64_to_from_le_bytes();
    let header = spec_u64_to_le_bytes(payload.len() as u64);
    let bytes = frame_bytes(payload) + rest;
    assert(bytes.take(8) =~= header);
    assert(bytes.subrange(8, 8 + payload.len() as int) =~= payload);
}

/// Builds the frame that carries `payload`.
pub fn encode_frame(payload: &[u8]) -> (frame: Vec<u8>)
    ensures
        frame@ == frame_bytes(payload@),
{
    let mut frame = u64_to_le_bytes(payload.len() as u64);
    let ghost header = frame@;
    frame.extend_from_slice(payload);
    proof {
        assert(frame@ =~= header + payload@);
    }
    frame
}

/// The payload length that a frame header announces; `None` when this
/// machine cannot address that many bytes.
pub fn frame_length(header: &[u8; 8]) -> (length: Option<usize>)
    ensures
        match length {
            Some(length) => length == spec_u64_from_le_bytes(header@),
            None => spec_u64_from_le_bytes(header@) > usize::MAX,
        },
{
    let announced: u64 = u64_from_le_bytes(array_as_slice(header));
    if announced > usize::MAX as u64 {
        None
    } else {
        Some(announced as usize)
    }
}

/// Takes one frame off the head of `bytes`. Returns its payload and the index
/// just behind the frame; `None` while the frame is incomplete.
pub fn split_frame(bytes: &[u8]) -> (split: Option<(Vec<u8>, usize)>)
    ensures
        match split {
            Some((payload, next)) => parsed_frame(bytes@) == Some((payload@, next as nat)),
            None => parsed_frame(bytes@) is None,
        },
{
    let end: usize = bytes.len();
    if end < 8 {
        return None;
    }
    let announced: u64 = u64_from_le_bytes(slice_subrange(bytes, 0, 8));
    proof {
        assert(bytes@.subrange(0, 8) =~= bytes@.take(8));
    }
    if announced > (end - 8) as u64 {
        return None;
    }
    let next: usize = 8 + announced as usize;
    let payload = slice_to_vec(slice_subrange(bytes, 8, next));
    Some((payload, next))
}

} // verus!
