//! Tag-length-value codec for the appliance register protocol.
//!
//! A record carries a 10-bit register tag and an unsigned value.  On the
//! wire a record starts with two header bytes `b0, b1`:
//!
//! * tag      = `b0 * 4 + b1 / 64`   (8 high bits in `b0`, 2 in `b1`),
//! * selector = `b1 / 16 % 4`        (how many value bytes follow),
//! * selector 0 stores the value inline in the low nibble of `b1`;
//!   selectors 1..3 store it big-endian in that many trailing bytes.
//!
//! The encoder picks the selector from the value's magnitude.  The format
//! reserves at most three trailing bytes, so values are capped at 24 bits:
//! `build_tlv` requires `v <= 0xFF_FFFF` rather than dropping high bits
//! silently.  The decoder drops a truncated trailing record instead of
//! failing; `lemma_decode_encoded_prefix` makes that exact.

use vstd::arithmetic::div_mod::{
    lemma_div_denominator, lemma_fundamental_div_mod, lemma_fundamental_div_mod_converse_div,
    lemma_fundamental_div_mod_converse_mod, lemma_small_mod,
};
use vstd::prelude::*;

verus! {

/// One tag-length-value record: a register tag and its raw value.
#[derive(Clone, Copy, Debug, PartialEq, Eq, Structural)]
pub struct Tlv {
    pub t: u16,
    pub v: u32,
}

/// Largest register tag the wire format can carry (10 bits).
pub const TAG_MAX: u16 = 1023;

/// Largest value the wire format can carry (24 bits).
pub const VALUE_MAX: u32 = 0xFF_FFFF;

/// A record the wire format can represent without loss.
pub open spec fn tlv_wire_ok(r: Tlv) -> bool {
    r.t <= TAG_MAX && r.v <= VALUE_MAX
}

/// Every record of the sequence fits the wire format.
pub open spec fn tlvs_wire_ok(rs: Seq<Tlv>) -> bool {
    forall|i: int| 0 <= i < rs.len() ==> tlv_wire_ok(#[trigger] rs[i])
}

/// Number of trailing value bytes the encoder picks for value `v`.
pub open spec fn spec_selector(v: u32) -> int {
    if v < 16 {
        0
    } else if v < 256 {
        1
    } else if v < 65536 {
        2
    } else {
        3
    }
}

/// The wire bytes of one record.
pub open spec fn spec_encode_record(r: Tlv) -> Seq<u8> {
    let t = r.t as int;
    let v = r.v as int;
    let t0 = (t / 4) as u8;
    if v < 16 {
        seq![t0, (t % 4 * 64 + v) as u8]
    } else if v < 256 {
        seq![t0, (t % 4 * 64 + 16) as u8, v as u8]
    } else if v < 65536 {
        seq![t0, (t % 4 * 64 + 32) as u8, (v / 256) as u8, (v % 256) as u8]
    } else {
        seq![
            t0,
            (t % 4 * 64 + 48) as u8,
            (v / 65536 % 256) as u8,
            (v / 256 % 256) as u8,
            (v % 256) as u8,
        ]
    }
}

/// The wire bytes of a record sequence: each record's bytes in order.
pub open spec fn spec_encode(rs: Seq<Tlv>) -> Seq<u8>
    decreases rs.len(),
{
    if rs.len() == 0 {
        seq![]
    } else {
        spec_encode_record(rs[0]) + spec_encode(rs.skip(1))
    }
}

/// The records read from a byte buffer.  A record whose header or declared
/// value bytes run past the end of the buffer is dropped, together with
/// everything after it; decoding never fails.
pub open spec fn spec_decode(buf: Seq<u8>) -> Seq<Tlv>
    decreases buf.len(),
{
    if buf.len() < 2 {
        seq![]
    } else {
        let b0 = buf[0] as int;
        let b1 = buf[1] as int;
        let sel = b1 / 16 % 4;
        if buf.len() < 2 + sel {
            seq![]
        } else {
            let tag = (b0 * 4 + b1 / 64) as u16;
            let v = if sel == 0 {
                (b1 % 16) as u32
            } else if sel == 1 {
                buf[2] as u32
            } else if sel == 2 {
                (buf[2] as int * 256 + buf[3] as int) as u32
            } else {
                (buf[2] as int * 65536 + buf[3] as int * 256 + buf[4] as int) as u32
            };
            seq![Tlv { t: tag, v }] + spec_decode(buf.skip(2 + sel))
        }
    }
}

/// Decode a byte buffer into the records it holds, dropping a truncated
/// trailing record rather than failing.
pub fn parse_tlv(buf: &[u8]) -> (result: Vec<Tlv>)
    ensures
        result@ == spec_decode(buf@),
{
    let mut result: Vec<Tlv> = Vec::new();
    let mut i: usize = 0;

    proof {
        assert(buf@.skip(0) =~= buf@);
        assert(result@ + spec_decode(buf@) =~= spec_decode(buf@));
    }

    while i < buf.len()
        invariant
            i <= buf@.len(),
            spec_decode(buf@) == result@ + spec_decode(buf@.skip(i as int)),
        decreases buf@.len() - i,
    {
        if buf.len() - i < 2 {
            proof {
                assert(buf@.skip(i as int).len() < 2);
                assert(result@ + spec_decode(buf@.skip(i as int)) =~= result@);
            }
            return result;
        }

        let b0 = buf[i];
        let b1 = buf[i + 1];

        let tag = u16::from(b0) * 4 + u16::from(b1) / 64;
        let value_bytes = (b1 / 16 % 4) as usize;

        proof {
            let rest = buf@.skip(i as int);
            assert(rest[0] == b0 && rest[1] == b1);
        }

        if buf.len() - i - 2 < value_bytes {
            proof {
                let rest = buf@.skip(i as int);
                assert(rest.len() < 2 + value_bytes);
                assert(spec_decode(rest) == Seq::<Tlv>::empty());
                assert(result@ + spec_decode(rest) =~= result@);
            }
            return result;
        }

        let value: u32 = if value_bytes == 0 {
            u32::from(b1 % 16)
        } else if value_bytes == 1 {
            u32::from(buf[i + 2])
        } else if value_bytes == 2 {
            u32::from(buf[i + 2]) * 256 + u32::from(buf[i + 3])
        } else {
            u32::from(buf[i + 2]) * 65536 + u32::from(buf[i + 3]) * 256 + u32::from(buf[i + 4])
        };

        proof {
            let rest = buf@.skip(i as int);
            assert(rest.len() >= 2 + value_bytes);
            assert(value_bytes >= 1 ==> rest[2] == buf@[i + 2]);
            assert(value_bytes >= 2 ==> rest[3] == buf@[i + 3]);
            assert(value_bytes >= 3 ==> rest[4] == buf@[i + 4]);
            assert(spec_decode(rest) == seq![Tlv { t: tag, v: value }] + spec_decode(
                rest.skip(2 + value_bytes as int),
            ));
            assert(rest.skip(2 + value_bytes as int) =~= buf@.skip(
                i + 2 + value_bytes as int,
            ));
            assert(result@.push(Tlv { t: tag, v: value }) =~= result@ + seq![
                Tlv { t: tag, v: value },
            ]);
            assert(result@ + spec_decode(rest) =~= result@.push(Tlv { t: tag, v: value })
                + spec_decode(buf@.skip(i + 2 + value_bytes as int)));
        }

        result.push(Tlv { t: tag, v: value });
        i = i + 2 + value_bytes;
    }

    proof {
        assert(buf@.skip(buf@.len() as int).len() == 0);
        assert(result@ + spec_decode(buf@.skip(i as int)) =~= result@);
    }
    result
}

/// Encode records to wire bytes.  The caller vouches that every record fits
/// the wire format: tags above `TAG_MAX` and values above `VALUE_MAX` have
/// no lossless encoding and are not accepted silently.
pub fn build_tlv(elements: &[Tlv]) -> (out: Vec<u8>)
    requires
        tlvs_wire_ok(elements@),
    ensures
        out@ == spec_encode(elements@),
{
    let mut out: Vec<u8> = Vec::new();
    let mut i: usize = 0;

    proof {
        assert(elements@.take(0) =~= Seq::<Tlv>::empty());
    }

    while i < elements.len()
        invariant
            i <= elements@.len(),
            tlvs_wire_ok(elements@),
            out@ == spec_encode(elements@.take(i as int)),
        decreases elements@.len() - i,
    {
        let el = elements[i];
        let ghost out_before = out@;
        let t0 = (el.t / 4) as u8;
        let tl = (el.t % 4 * 64) as u8;

        out.push(t0);
        if el.v < 16 {
            out.push(tl + el.v as u8);
        } else if el.v < 256 {
            out.push(tl + 16);
            out.push(el.v as u8);
        } else if el.v < 65536 {
            out.push(tl + 32);
            out.push((el.v / 256) as u8);
            out.push((el.v % 256) as u8);
        } else {
            out.push(tl + 48);
            out.push((el.v / 65536 % 256) as u8);
            out.push((el.v / 256 % 256) as u8);
            out.push((el.v % 256) as u8);
        }

        proof {
            assert(out@ =~= out_before + spec_encode_record(el));
            lemma_encode_snoc(elements@.take(i as int), elements@[i as int]);
            assert(elements@.take(i + 1) =~= elements@.take(i as int).push(
                elements@[i as int],
            ));
        }
        i = i + 1;
    }

    proof {
        assert(elements@.take(elements@.len() as int) =~= elements@);
    }
    out
}

/// An encoding never takes more than five bytes per record.
pub proof fn lemma_encode_len(rs: Seq<Tlv>)
    ensures
        spec_encode(rs).len() <= 5 * rs.len(),
    decreases rs.len(),
{
    if rs.len() > 0 {
        lemma_encode_len(rs.skip(1));
    }
}

/// Every decoded record fits the wire format: a tag is at most ten bits
/// and a value at most 24.
pub proof fn lemma_decode_wire_ok(buf: Seq<u8>)
    ensures
        tlvs_wire_ok(spec_decode(buf)),
    decreases buf.len(),
{
    if buf.len() >= 2 {
        let b1 = buf[1] as int;
        let sel = b1 / 16 % 4;
        if buf.len() >= 2 + sel {
            lemma_decode_wire_ok(buf.skip(2 + sel));
            assert(forall|i: int|
                0 <= i < spec_decode(buf).len() ==> tlv_wire_ok(#[trigger] spec_decode(buf)[i]));
        }
    }
}

/// Appending one record to a sequence appends its bytes to the encoding.
pub proof fn lemma_encode_snoc(rs: Seq<Tlv>, r: Tlv)
    ensures
        spec_encode(rs.push(r)) == spec_encode(rs) + spec_encode_record(r),
    decreases rs.len(),
{
    if rs.len() == 0 {
        assert(rs.push(r)[0] == r);
        assert(rs.push(r).skip(1) =~= Seq::<Tlv>::empty());
        assert(spec_encode(rs.push(r)) == spec_encode_record(r) + spec_encode(
            Seq::<Tlv>::empty(),
        ));
        assert(spec_encode_record(r) + seq![] =~= seq![] + spec_encode_record(r));
    } else {
        assert(rs.push(r)[0] == rs[0]);
        assert(rs.push(r).skip(1) =~= rs.skip(1).push(r));
        lemma_encode_snoc(rs.skip(1), r);
        assert(spec_encode_record(rs[0]) + (spec_encode(rs.skip(1)) + spec_encode_record(r))
            =~= (spec_encode_record(rs[0]) + spec_encode(rs.skip(1))) + spec_encode_record(r));
    }
}

/// The header facts shared by the decode lemmas: for a wire-valid record,
/// the second header byte gives back the selector and the tag bits exactly.
proof fn lemma_header_fields(r: Tlv)
    requires
        tlv_wire_ok(r),
    ensures
        spec_encode_record(r)[0] as int == r.t as int / 4,
        spec_encode_record(r)[1] as int / 16 % 4 == spec_selector(r.v),
        spec_encode_record(r)[1] as int / 64 == r.t as int % 4,
        spec_selector(r.v) == 0 ==> spec_encode_record(r)[1] as int % 16 == r.v as int,
{
    let t = r.t as int;
    let v = r.v as int;
    let sel = spec_selector(r.v);
    let nib: int = if sel == 0 {
        v
    } else {
        0
    };
    let b1 = spec_encode_record(r)[1] as int;
    assert(b1 == t % 4 * 64 + sel * 16 + nib);
    assert(b1 / 64 == t % 4) by {
        lemma_fundamental_div_mod_converse_div(b1, 64, t % 4, sel * 16 + nib);
    }
    assert(b1 / 16 == t % 4 * 4 + sel) by {
        assert(b1 == (t % 4 * 4 + sel) * 16 + nib);
        lemma_fundamental_div_mod_converse_div(b1, 16, t % 4 * 4 + sel, nib);
    }
    assert((t % 4 * 4 + sel) % 4 == sel) by {
        lemma_fundamental_div_mod_converse_mod(t % 4 * 4 + sel, 4, t % 4, sel);
    }
    if sel == 0 {
        assert(b1 % 16 == v) by {
            assert(b1 == (t % 4 * 4 + sel) * 16 + nib);
            lemma_fundamental_div_mod_converse_mod(b1, 16, t % 4 * 4 + sel, nib);
        }
    }
}

/// Decoding an encoded wire-valid record, whatever follows it, yields the
/// record back and continues with the trailing bytes.
proof fn lemma_decode_record_step(r: Tlv, rest: Seq<u8>)
    requires
        tlv_wire_ok(r),
    ensures
        spec_decode(spec_encode_record(r) + rest) == seq![r] + spec_decode(rest),
{
    let enc = spec_encode_record(r);
    let buf = enc + rest;
    let t = r.t as int;
    let v = r.v as int;
    let sel = spec_selector(r.v);
    lemma_header_fields(r);
    assert(buf[0] == enc[0] && buf[1] == enc[1]);
    assert(sel >= 1 ==> buf[2] == enc[2]);
    assert(sel >= 2 ==> buf[3] == enc[3]);
    assert(sel >= 3 ==> buf[4] == enc[4]);
    let b0 = buf[0] as int;
    let b1 = buf[1] as int;
    assert(b1 / 16 % 4 == sel);
    assert(buf.len() >= 2 + sel);
    assert(b0 * 4 + b1 / 64 == t) by {
        lemma_fundamental_div_mod(t, 4);
    }
    let decoded_v: int = if sel == 0 {
        b1 % 16
    } else if sel == 1 {
        buf[2] as int
    } else if sel == 2 {
        buf[2] as int * 256 + buf[3] as int
    } else {
        buf[2] as int * 65536 + buf[3] as int * 256 + buf[4] as int
    };
    assert(decoded_v == v) by {
        if sel == 2 {
            lemma_fundamental_div_mod(v, 256);
        } else if sel == 3 {
            assert(v / 65536 % 256 == v / 65536) by {
                assert(v / 65536 < 256);
                lemma_small_mod((v / 65536) as nat, 256);
            }
            lemma_fundamental_div_mod(v, 256);
            lemma_fundamental_div_mod(v / 256, 256);
            assert(v / 256 / 256 == v / 65536) by {
                lemma_div_denominator(v, 256, 256);
            }
        }
    }
    assert(buf.skip(2 + sel) =~= rest);
    assert(spec_decode(buf) == seq![Tlv { t: (b0 * 4 + b1 / 64) as u16, v: decoded_v as u32 }]
        + spec_decode(rest));
    assert(seq![Tlv { t: (b0 * 4 + b1 / 64) as u16, v: decoded_v as u32 }] =~= seq![r]);
}

/// Round trip: decoding the encoding of wire-valid records gives the
/// records back unchanged.
pub proof fn lemma_round_trip(rs: Seq<Tlv>)
    requires
        tlvs_wire_ok(rs),
    ensures
        spec_decode(spec_encode(rs)) == rs,
    decreases rs.len(),
{
    if rs.len() == 0 {
        assert(spec_decode(spec_encode(rs)) =~= rs);
    } else {
        assert(tlvs_wire_ok(rs.skip(1)));
        lemma_round_trip(rs.skip(1));
        lemma_decode_record_step(rs[0], spec_encode(rs.skip(1)));
        assert(seq![rs[0]] + rs.skip(1) =~= rs);
    }
}

/// Decoding a strict prefix of one encoded record yields nothing: either
/// the header is incomplete, or the header declares more value bytes than
/// remain.
proof fn lemma_decode_partial_record(r: Tlv, n: int)
    requires
        tlv_wire_ok(r),
        0 <= n < spec_encode_record(r).len(),
    ensures
        spec_decode(spec_encode_record(r).take(n)) == Seq::<Tlv>::empty(),
{
    let pre = spec_encode_record(r).take(n);
    if n < 2 {
        assert(pre.len() < 2);
        assert(spec_decode(pre) =~= Seq::<Tlv>::empty());
    } else {
        lemma_header_fields(r);
        assert(pre[1] == spec_encode_record(r)[1]);
        assert(pre[1] as int / 16 % 4 == spec_selector(r.v));
        assert(pre.len() < 2 + spec_selector(r.v));
        assert(spec_decode(pre) =~= Seq::<Tlv>::empty());
    }
}

/// Truncation: decoding any prefix of an encoded record sequence returns a
/// prefix of the records — the fully contained ones — and never fails.
pub proof fn lemma_decode_encoded_prefix(rs: Seq<Tlv>, n: int)
    requires
        tlvs_wire_ok(rs),
        0 <= n <= spec_encode(rs).len(),
    ensures
        exists|k: int| 0 <= k <= rs.len() && spec_decode(spec_encode(rs).take(n)) == rs.take(k),
    decreases rs.len(),
{
    if rs.len() == 0 {
        assert(spec_encode(rs).take(n) =~= Seq::<u8>::empty());
        assert(spec_decode(spec_encode(rs).take(n)) =~= rs.take(0));
    } else {
        let head = spec_encode_record(rs[0]);
        let tail = spec_encode(rs.skip(1));
        assert(spec_encode(rs) == head + tail);
        if n < head.len() {
            assert(spec_encode(rs).take(n) =~= head.take(n));
            lemma_decode_partial_record(rs[0], n);
            assert(rs.take(0) =~= Seq::<Tlv>::empty());
            assert(spec_decode(spec_encode(rs).take(n)) == rs.take(0));
        } else {
            assert(tlvs_wire_ok(rs.skip(1)));
            lemma_decode_encoded_prefix(rs.skip(1), n - head.len());
            let k = choose|k: int|
                0 <= k <= rs.skip(1).len() && spec_decode(tail.take(n - head.len())) == rs.skip(
                    1,
                ).take(k);
            assert(spec_encode(rs).take(n) =~= head + tail.take(n - head.len()));
            lemma_decode_record_step(rs[0], tail.take(n - head.len()));
            assert(seq![rs[0]] + rs.skip(1).take(k) =~= rs.take(k + 1));
            assert(spec_decode(spec_encode(rs).take(n)) == rs.take(k + 1));
        }
    }
}

} // verus!
