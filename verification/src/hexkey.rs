//! Decoding the hex-encoded encryption key: a key string is 32 hex
//! digits, in either case, standing for exactly 16 bytes.

use vstd::prelude::*;

verus! {

pub open spec fn is_hex_digit(c: char) -> bool {
    ('0' as u32 <= c as u32 && c as u32 <= '9' as u32) || ('a' as u32 <= c as u32 && c as u32
        <= 'f' as u32) || ('A' as u32 <= c as u32 && c as u32 <= 'F' as u32)
}

pub open spec fn hex_digit_value(c: char) -> u8 {
    if '0' as u32 <= c as u32 && c as u32 <= '9' as u32 {
        (c as u32 - '0' as u32) as u8
    } else if 'a' as u32 <= c as u32 && c as u32 <= 'f' as u32 {
        (c as u32 - 'a' as u32 + 10) as u8
    } else {
        (c as u32 - 'A' as u32 + 10) as u8
    }
}

/// A decodable hex string: an even number of characters, all hex digits.
pub open spec fn is_hex_string(s: Seq<char>) -> bool {
    s.len() % 2 == 0 && (forall|i: int| 0 <= i < s.len() ==> is_hex_digit(#[trigger] s[i]))
}

/// The bytes a hex string stands for: two digits per byte, high digit first.
pub open spec fn spec_hex_decode(s: Seq<char>) -> Seq<u8> {
    Seq::new(
        s.len() / 2,
        |i: int| (16 * hex_digit_value(s[2 * i]) + hex_digit_value(s[2 * i + 1])) as u8,
    )
}

/// Relies on hex::decode (crate hex): it returns the bytes written by the
/// string's hex-digit pairs, upper or lower case, and errors exactly on an
/// odd number of digits or on any character that is not a hex digit.
#[verifier::external_body]
fn hex_decode(s: &str) -> (r: Option<Vec<u8>>)
    ensures
        (r is Some) == is_hex_string(s@),
        r matches Some(v) ==> v@ == spec_hex_decode(s@),
{
    hex::decode(s).ok()
}

/// The key a candidate string decodes to: its bytes if it is a hex string
/// of exactly 16 bytes, nothing otherwise.
pub open spec fn spec_decode_key(s: Seq<char>) -> Option<Seq<u8>> {
    if is_hex_string(s) && s.len() == 32 {
        Some(spec_hex_decode(s))
    } else {
        None
    }
}

/// Decode a key string: accepts exactly a 32-digit hex string, whose 16
/// bytes it returns.
pub fn decode_key(s: &str) -> (r: Option<Vec<u8>>)
    ensures
        r.deep_view() == spec_decode_key(s@),
        r matches Some(k) ==> k@.len() == 16,
{
    match hex_decode(s) {
        Some(v) => {
            if v.len() == 16 {
                Some(v)
            } else {
                None
            }
        },
        None => None,
    }
}

} // verus!
