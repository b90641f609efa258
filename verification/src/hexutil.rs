//! Hex transcoding of wire frames, as carried in the `data` field of the
//! broker's JSON envelopes.  The transcoding itself is done by the `hex`
//! crate behind two trusted wrappers whose contracts state the encoding
//! exactly, digit by digit.

use vstd::prelude::*;

verus! {

/// The lowercase hex character of a nibble.
pub open spec fn spec_hex_digit(d: int) -> char {
    if d == 0 {
        '0'
    } else if d == 1 {
        '1'
    } else if d == 2 {
        '2'
    } else if d == 3 {
        '3'
    } else if d == 4 {
        '4'
    } else if d == 5 {
        '5'
    } else if d == 6 {
        '6'
    } else if d == 7 {
        '7'
    } else if d == 8 {
        '8'
    } else if d == 9 {
        '9'
    } else if d == 10 {
        'a'
    } else if d == 11 {
        'b'
    } else if d == 12 {
        'c'
    } else if d == 13 {
        'd'
    } else if d == 14 {
        'e'
    } else {
        'f'
    }
}

/// The lowercase hex rendering of a byte sequence: two characters per
/// byte, high nibble first.
pub open spec fn spec_hex_encode(b: Seq<u8>) -> Seq<char> {
    Seq::new(
        b.len() * 2,
        |i: int|
            if i % 2 == 0 {
                spec_hex_digit(b[i / 2] as int / 16)
            } else {
                spec_hex_digit(b[i / 2] as int % 16)
            },
    )
}

/// Whether a character is a hex digit, of either case.
pub open spec fn spec_is_hex_digit(c: char) -> bool {
    ||| 48 <= c as int <= 57
    ||| 97 <= c as int <= 102
    ||| 65 <= c as int <= 70
}

/// The nibble value of a hex digit, of either case.
pub open spec fn spec_hex_digit_val(c: char) -> int {
    if 48 <= c as int <= 57 {
        c as int - 48
    } else if 97 <= c as int <= 102 {
        c as int - 87
    } else {
        c as int - 55
    }
}

/// Whether a string is a well-formed hex rendering: an even number of
/// characters, each a hex digit of either case.
pub open spec fn spec_is_hex(s: Seq<char>) -> bool {
    s.len() % 2 == 0 && (forall|i: int| 0 <= i < s.len() ==> spec_is_hex_digit(#[trigger] s[i]))
}

/// The bytes of a well-formed hex string, one per character pair.
pub open spec fn spec_hex_decode(s: Seq<char>) -> Seq<u8> {
    Seq::new(
        s.len() / 2,
        |i: int| (spec_hex_digit_val(s[2 * i]) * 16 + spec_hex_digit_val(s[2 * i + 1])) as u8,
    )
}

/// Relies on hex::encode: two lowercase hex digits per input byte, high
/// nibble first.
#[verifier::external_body]
pub fn hex_encode(b: &[u8]) -> (r: String)
    ensures
        r@ == spec_hex_encode(b@),
{
    hex::encode(b)
}

/// Relies on hex::decode: succeeds exactly on an even number of hex
/// digits (either case accepted), pairing them high nibble first.
#[verifier::external_body]
pub fn hex_decode(s: &str) -> (r: Option<Vec<u8>>)
    ensures
        r is Some <==> spec_is_hex(s@),
        r matches Some(v) ==> v@ == spec_hex_decode(s@),
{
    hex::decode(s).ok()
}

} // verus!
