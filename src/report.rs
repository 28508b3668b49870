//! Text for the progress lines and for the final report of a hit.

use vstd::prelude::*;
use vstd::string::*;
use crate::decimal::{decimal, digit_char, push_decimal};

verus! {

/// The lower-case hex digit for `d`.
pub open spec fn hex_char(d: nat) -> char {
    "0123456789abcdef"@[d as int]
}

/// `bytes` in lower-case hex, two digits per byte, high digit first.
pub open spec fn hex_text(bytes: Seq<u8>) -> Seq<char> {
    Seq::new(
        2 * bytes.len(),
        |i: int|
            if i % 2 == 0 {
                hex_char((bytes[i / 2] / 16) as nat)
            } else {
                hex_char((bytes[i / 2] % 16) as nat)
            },
    )
}

/// `m % 1000` as exactly three decimal digits.
pub open spec fn three_digits(m: nat) -> Seq<char> {
    seq![digit_char((m / 100) % 10), digit_char((m / 10) % 10), digit_char(m % 10)]
}

/// `n` in decimal with a comma between groups of three digits.
pub open spec fn grouped_decimal(n: nat) -> Seq<char>
    decreases n,
{
    if n < 1000 {
        decimal(n)
    } else {
        grouped_decimal(n / 1000) + seq![','] + three_digits(n % 1000)
    }
}

/// The SHA-256 digest of `data`.
pub uninterp spec fn sha256_of(data: Seq<u8>) -> Seq<u8>;

/// Relies on `hex::encode`: two lower-case hex digits per byte, high digit
/// first.
#[verifier::external_body]
fn to_hex(data: &[u8]) -> (r: String)
    ensures
        r@ == hex_text(data@),
{
    hex::encode(data)
}

/// Relies on `sha2::Sha256::digest`: the 32-byte SHA-256 digest of `data`.
#[verifier::external_body]
fn sha256_digest(data: &[u8]) -> (r: Vec<u8>)
    ensures
        r@ == sha256_of(data@),
        r@.len() == 32,
{
    <sha2::Sha256 as sha2::Digest>::digest(data).to_vec()
}

/// Relies on `num_format::ToFormattedString::to_formatted_string` with
/// `Locale::en`: decimal digits grouped by three with `,` between groups.
#[verifier::external_body]
fn en_grouped(n: u128) -> (r: String)
    ensures
        r@ == grouped_decimal(n as nat),
{
    num_format::ToFormattedString::to_formatted_string(&n, &num_format::Locale::en)
}

/// The report printed for a winning input: the input and its SHA-256
/// digest, both in lower-case hex.
pub struct HitReport {
    pub input_hex: String,
    pub sha256_hex: String,
}

/// Builds the report for the winning input `winner`.
pub fn hit_report(winner: &[u8; 32]) -> (r: HitReport)
    ensures
        r.input_hex@ == hex_text(winner@),
        r.sha256_hex@ == hex_text(sha256_of(winner@)),
{
    let digest = sha256_digest(winner.as_slice());
    HitReport { input_hex: to_hex(winner.as_slice()), sha256_hex: to_hex(digest.as_slice()) }
}

/// The progress line printed before each dispatch: the batch index, the
/// candidate in hex, the elapsed time as the caller wrote it, the candidates
/// hashed so far and the rate per second, both grouped by thousands.
pub fn progress_line(batch: u64, candidate: &[u8; 32], elapsed: &str, hashes: u128, rate: u64) -> (r:
    String)
    ensures
        r@ == "dispatch: "@ + decimal(batch as nat) + ", start: "@ + hex_text(candidate@)
            + ", elapsed: "@ + elapsed@ + ", hashes: "@ + grouped_decimal(hashes as nat)
            + ", hashrate: "@ + grouped_decimal(rate as nat) + " H/s"@,
{
    let mut out = String::new();
    out.append("dispatch: ");
    push_decimal(&mut out, batch);
    out.append(", start: ");
    let hex = to_hex(candidate.as_slice());
    out.append(hex.as_str());
    out.append(", elapsed: ");
    out.append(elapsed);
    out.append(", hashes: ");
    let h = en_grouped(hashes);
    out.append(h.as_str());
    out.append(", hashrate: ");
    let g = en_grouped(rate as u128);
    out.append(g.as_str());
    out.append(" H/s");
    assert(out@ =~= "dispatch: "@ + decimal(batch as nat) + ", start: "@ + hex_text(candidate@)
        + ", elapsed: "@ + elapsed@ + ", hashes: "@ + grouped_decimal(hashes as nat)
        + ", hashrate: "@ + grouped_decimal(rate as nat) + " H/s"@);
    out
}

} // verus!
