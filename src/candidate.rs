//! The start candidate, given as hex digit pairs and placed in the low-order
//! bytes of the 32-byte counter.

use vstd::prelude::*;
use vstd::string::*;
use crate::search::ConfigError;

verus! {

#[verifier::external_type_specification]
#[verifier::external_body]
pub struct ExFromHexError(hex::FromHexError);

/// An ASCII hex digit, either case.
pub open spec fn is_hex_digit(c: u8) -> bool {
    (48 <= c <= 57) || (65 <= c <= 70) || (97 <= c <= 102)
}

/// The value of the hex digit `c`.
pub open spec fn hex_digit_value(c: u8) -> nat {
    if c <= 57 {
        (c - 48) as nat
    } else if c <= 70 {
        (c - 55) as nat
    } else {
        (c - 87) as nat
    }
}

/// `s` is a string of hex digit pairs.
pub open spec fn is_hex_text(s: Seq<u8>) -> bool {
    s.len() % 2 == 0 && forall|i: int| 0 <= i < s.len() ==> #[trigger] is_hex_digit(s[i])
}

/// The bytes a string of hex digit pairs spells, high digit first.
pub open spec fn hex_decoded(s: Seq<u8>) -> Seq<u8> {
    Seq::new(
        s.len() / 2,
        |i: int| (16 * hex_digit_value(s[2 * i]) + hex_digit_value(s[2 * i + 1])) as u8,
    )
}

/// `bytes` followed by zeros up to 32 bytes.
pub open spec fn zero_padded(bytes: Seq<u8>) -> Seq<u8> {
    Seq::new(32, |i: int| if i < bytes.len() { bytes[i] } else { 0u8 })
}

/// Relies on `hex::decode`: it fails on an odd length or a byte that is not
/// a hex digit, and otherwise returns one byte per digit pair, high digit
/// first, digits of either case.
#[verifier::external_body]
fn decode_hex(data: &[u8]) -> (r: Result<Vec<u8>, hex::FromHexError>)
    ensures
        r is Ok <==> is_hex_text(data@),
        r matches Ok(v) ==> v@ == hex_decoded(data@),
{
    hex::decode(data)
}

/// The first candidate of a run: the bytes that `start` spells in hex,
/// in that order from byte 0 of the counter, and zeros after them.
/// The empty string gives the all-zero candidate.
pub fn start_candidate(start: &str) -> (r: Result<[u8; 32], ConfigError>)
    ensures
        !is_hex_text(start.spec_bytes()) ==> r == Err::<[u8; 32], ConfigError>(
            ConfigError::InvalidStartHex,
        ),
        is_hex_text(start.spec_bytes()) && hex_decoded(start.spec_bytes()).len() > 32 ==> r
            == Err::<[u8; 32], ConfigError>(ConfigError::StartTooLong),
        is_hex_text(start.spec_bytes()) && hex_decoded(start.spec_bytes()).len() <= 32 ==> (
        r matches Ok(c) && c@ == zero_padded(hex_decoded(start.spec_bytes()))),
{
    let decoded = match decode_hex(start.as_bytes()) {
        Ok(v) => v,
        Err(_) => {
            return Err(ConfigError::InvalidStartHex);
        },
    };
    if decoded.len() > 32 {
        return Err(ConfigError::StartTooLong);
    }
    let mut candidate: [u8; 32] = [0u8; 32];
    let mut i: usize = 0;
    while i < decoded.len()
        invariant
            i <= decoded@.len() <= 32,
            candidate@.len() == 32,
            forall|k: int| 0 <= k < 32 ==> #[trigger] candidate@[k] == if k < i {
                decoded@[k]
            } else {
                0u8
            },
        decreases decoded@.len() - i,
    {
        candidate[i] = decoded[i];
        i += 1;
    }
    assert(candidate@ =~= zero_padded(decoded@));
    Ok(candidate)
}

} // verus!
