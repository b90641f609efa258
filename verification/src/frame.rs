//! Checksum framer: wraps an encoded TLV payload in the fixed packet
//! header and the 16-bit checksum trailer.
//!
//! An outbound frame is laid out as
//! `[b0, b1, 0x04, 0x00, 0x00, 0x00, 0x65, b2, b3, b4, len, tlv.., crc_hi, crc_lo]`
//! where `b0..b4` are the caller-supplied command bytes, `len` is the
//! number of TLV payload bytes, and the checksum covers every byte from
//! the literal `0x04` through the end of the payload.  The length byte
//! caps the payload at 255 bytes; `build_frame` rejects anything longer
//! rather than truncating.
//!
//! Inbound register-update frames are recognised by a fixed byte pattern
//! at offsets 2..=8 and by the length byte at offset 10 matching the frame
//! length; anything else is ignored, not an error.

use crate::crc16::{crc16, spec_crc16};
use vstd::prelude::*;

verus! {

/// The five caller-supplied command bytes that select a packet's meaning.
/// They are opaque to the framer.
#[derive(Clone, Copy, Debug, PartialEq, Eq, Structural)]
pub struct CommandHeader {
    pub b0: u8,
    pub b1: u8,
    pub b2: u8,
    pub b3: u8,
    pub b4: u8,
}

/// The command bytes of a generic register write packet.
pub fn write_command() -> (h: CommandHeader)
    ensures
        h == (CommandHeader { b0: 1, b1: 1, b2: 2, b3: 1, b4: 1 }),
{
    CommandHeader { b0: 1, b1: 1, b2: 2, b3: 1, b4: 1 }
}

/// The command bytes of a state query packet.
pub fn query_command() -> (h: CommandHeader)
    ensures
        h == (CommandHeader { b0: 1, b1: 1, b2: 2, b3: 2, b4: 1 }),
{
    CommandHeader { b0: 1, b1: 1, b2: 2, b3: 2, b4: 1 }
}

/// The checksummed span of a frame: the literal marker bytes, the last
/// three command bytes, the payload length and the payload itself.
pub open spec fn spec_frame_body(h: CommandHeader, tlv: Seq<u8>) -> Seq<u8> {
    seq![4u8, 0u8, 0u8, 0u8, 0x65u8, h.b2, h.b3, h.b4, tlv.len() as u8] + tlv
}

/// A complete wire frame for the given command bytes and TLV payload.
pub open spec fn spec_frame(h: CommandHeader, tlv: Seq<u8>) -> Seq<u8> {
    let body = spec_frame_body(h, tlv);
    let crc = spec_crc16(body) as int;
    seq![h.b0, h.b1] + body + seq![(crc / 256) as u8, (crc % 256) as u8]
}

/// Frame a TLV payload.  Returns `None` when the payload cannot be
/// declared in the single length byte (more than 255 bytes); the caller
/// surfaces that instead of sending a corrupt frame.
pub fn build_frame(h: CommandHeader, tlv_buf: &[u8]) -> (r: Option<Vec<u8>>)
    ensures
        r is Some <==> tlv_buf@.len() <= 255,
        r matches Some(f) ==> f@ == spec_frame(h, tlv_buf@),
{
    if tlv_buf.len() > 255 {
        return None;
    }

    let mut body: Vec<u8> = Vec::new();
    body.push(4);
    body.push(0);
    body.push(0);
    body.push(0);
    body.push(0x65);
    body.push(h.b2);
    body.push(h.b3);
    body.push(h.b4);
    body.push(tlv_buf.len() as u8);

    let ghost head = body@;
    proof {
        assert(head =~= seq![4u8, 0u8, 0u8, 0u8, 0x65u8, h.b2, h.b3, h.b4, (
        tlv_buf@.len() as u8
        )]);
        assert(body@ =~= head + tlv_buf@.take(0));
    }

    let mut i: usize = 0;
    while i < tlv_buf.len()
        invariant
            i <= tlv_buf@.len(),
            body@ == head + tlv_buf@.take(i as int),
        decreases tlv_buf@.len() - i,
    {
        body.push(tlv_buf[i]);
        proof {
            assert(head + tlv_buf@.take(i + 1) =~= (head + tlv_buf@.take(i as int)).push(
                tlv_buf@[i as int],
            ));
        }
        i = i + 1;
    }

    proof {
        assert(tlv_buf@.take(tlv_buf@.len() as int) =~= tlv_buf@);
        assert(body@ =~= spec_frame_body(h, tlv_buf@));
    }

    let c = crc16(body.as_slice());

    let mut frame: Vec<u8> = Vec::new();
    frame.push(h.b0);
    frame.push(h.b1);

    proof {
        assert(frame@ =~= seq![h.b0, h.b1] + body@.take(0));
    }

    let mut j: usize = 0;
    while j < body.len()
        invariant
            j <= body@.len(),
            frame@ == seq![h.b0, h.b1] + body@.take(j as int),
        decreases body@.len() - j,
    {
        frame.push(body[j]);
        proof {
            assert(seq![h.b0, h.b1] + body@.take(j + 1) =~= (seq![h.b0, h.b1] + body@.take(
                j as int,
            )).push(body@[j as int]));
        }
        j = j + 1;
    }

    frame.push((c / 256) as u8);
    frame.push((c % 256) as u8);

    proof {
        assert(body@.take(body@.len() as int) =~= body@);
        assert(frame@ =~= spec_frame(h, tlv_buf@));
    }

    Some(frame)
}

/// Whether an inbound wire frame is recognised as a device register
/// update: the marker pattern at offsets 2..=8 (the class marker at
/// offset 6 varies by appliance family) and a length byte that matches
/// the frame length.
pub open spec fn spec_frame_accepted(buf: Seq<u8>) -> bool {
    &&& buf.len() >= 13
    &&& buf[2] == 4u8
    &&& buf[3] == 0u8
    &&& buf[4] == 0u8
    &&& buf[5] == 0u8
    &&& (buf[6] == 0x65u8 || buf[6] == 0x87u8 || buf[6] == 0xA7u8)
    &&& buf[7] == 2u8
    &&& buf[8] == 4u8
    &&& buf[10] as int == buf.len() - 13
}

/// The TLV payload bytes of an accepted frame: everything between the
/// length byte and the checksum trailer.
pub open spec fn spec_frame_payload(buf: Seq<u8>) -> Seq<u8> {
    buf.subrange(11, buf.len() - 2)
}

/// Validate an inbound frame and copy out its TLV payload.  Frames that
/// fail the pattern are ignored (`None`), never an error.
pub fn extract_payload(buf: &[u8]) -> (r: Option<Vec<u8>>)
    ensures
        r is Some <==> spec_frame_accepted(buf@),
        r matches Some(p) ==> p@ == spec_frame_payload(buf@),
{
    if buf.len() < 13 {
        return None;
    }
    if !(buf[2] == 4 && buf[3] == 0 && buf[4] == 0 && buf[5] == 0) {
        return None;
    }
    if !(buf[6] == 0x65 || buf[6] == 0x87 || buf[6] == 0xA7) {
        return None;
    }
    if !(buf[7] == 2 && buf[8] == 4) {
        return None;
    }
    if buf[10] as usize != buf.len() - 13 {
        return None;
    }

    let end = buf.len() - 2;
    let mut payload: Vec<u8> = Vec::new();
    let mut i: usize = 11;

    proof {
        assert(payload@ =~= buf@.subrange(11, 11));
    }

    while i < end
        invariant
            11 <= i <= end,
            end == buf@.len() - 2,
            payload@ == buf@.subrange(11, i as int),
        decreases end - i,
    {
        payload.push(buf[i]);
        proof {
            assert(buf@.subrange(11, i + 1) =~= buf@.subrange(11, i as int).push(
                buf@[i as int],
            ));
        }
        i = i + 1;
    }

    Some(payload)
}

} // verus!
