//! 16-bit cyclic redundancy check used by the packet framer.
//!
//! The polynomial is 0x1021 (CRC-16/XMODEM): the register starts at zero,
//! each byte is xor-ed into the high half, and the register is shifted
//! eight times, folding the polynomial in whenever the top bit falls out.

use vstd::prelude::*;

verus! {

/// One shift of the CRC register: shift left and fold the polynomial in
/// when the top bit falls out.
pub open spec fn spec_crc16_shift(c: u16) -> u16 {
    if c & 0x8000 != 0 {
        (c << 1) ^ 0x1021
    } else {
        c << 1
    }
}

/// The CRC register after `n` shifts.
pub open spec fn spec_crc16_shifts(c: u16, n: nat) -> u16
    decreases n,
{
    if n == 0 {
        c
    } else {
        spec_crc16_shift(spec_crc16_shifts(c, (n - 1) as nat))
    }
}

/// The CRC register after folding in one byte: the byte enters the high
/// half and the register is shifted eight times.
pub open spec fn spec_crc16_byte(c: u16, b: u8) -> u16 {
    spec_crc16_shifts(c ^ ((b as u16) << 8), 8)
}

/// The CRC register after folding in every byte of `bytes`, front first.
pub open spec fn spec_crc16_fold(c: u16, bytes: Seq<u8>) -> u16
    decreases bytes.len(),
{
    if bytes.len() == 0 {
        c
    } else {
        spec_crc16_fold(spec_crc16_byte(c, bytes[0]), bytes.skip(1))
    }
}

/// The checksum of a byte sequence, from an all-zero register.
pub open spec fn spec_crc16(bytes: Seq<u8>) -> u16 {
    spec_crc16_fold(0, bytes)
}

/// Folding one more byte continues the fold from the accumulated register.
proof fn lemma_crc16_fold_snoc(c: u16, bytes: Seq<u8>, b: u8)
    ensures
        spec_crc16_fold(c, bytes.push(b)) == spec_crc16_byte(spec_crc16_fold(c, bytes), b),
    decreases bytes.len(),
{
    if bytes.len() == 0 {
        assert(bytes.push(b)[0] == b);
        assert(bytes.push(b).skip(1) =~= Seq::<u8>::empty());
        assert(spec_crc16_fold(c, bytes.push(b)) == spec_crc16_fold(
            spec_crc16_byte(c, b),
            Seq::<u8>::empty(),
        ));
        assert(spec_crc16_fold(spec_crc16_byte(c, b), Seq::<u8>::empty()) == spec_crc16_byte(
            c,
            b,
        ));
    } else {
        assert(bytes.push(b)[0] == bytes[0]);
        assert(bytes.push(b).skip(1) =~= bytes.skip(1).push(b));
        assert(spec_crc16_fold(c, bytes.push(b)) == spec_crc16_fold(
            spec_crc16_byte(c, bytes[0]),
            bytes.skip(1).push(b),
        ));
        lemma_crc16_fold_snoc(spec_crc16_byte(c, bytes[0]), bytes.skip(1), b);
        assert(spec_crc16_fold(c, bytes) == spec_crc16_fold(
            spec_crc16_byte(c, bytes[0]),
            bytes.skip(1),
        ));
    }
}

/// Compute the 16-bit checksum of a buffer.
pub fn crc16(buf: &[u8]) -> (crc: u16)
    ensures
        crc == spec_crc16(buf@),
{
    let mut crc: u16 = 0;
    let mut i: usize = 0;

    proof {
        assert(buf@.take(0) =~= Seq::<u8>::empty());
    }

    while i < buf.len()
        invariant
            i <= buf@.len(),
            crc == spec_crc16_fold(0, buf@.take(i as int)),
        decreases buf@.len() - i,
    {
        let b = buf[i];
        let ghost crc_in = crc;
        crc = crc ^ ((b as u16) << 8u16);

        let mut k: usize = 0;
        while k < 8
            invariant
                k <= 8,
                crc == spec_crc16_shifts(crc_in ^ ((b as u16) << 8u16), k as nat),
            decreases 8 - k,
        {
            if crc & 0x8000 != 0 {
                crc = (crc << 1u16) ^ 0x1021;
            } else {
                crc = crc << 1u16;
            }
            k = k + 1;
        }

        proof {
            lemma_crc16_fold_snoc(0, buf@.take(i as int), b);
            assert(buf@.take(i + 1) =~= buf@.take(i as int).push(buf@[i as int]));
        }
        i = i + 1;
    }

    proof {
        assert(buf@.take(buf@.len() as int) =~= buf@);
    }
    crc
}

} // verus!
