//! Byte encodings computed by outside crates: standard base64 and SHA-256.

use base64::Engine;
use sha2::Digest;
use vstd::prelude::*;

verus! {

/// The character of the standard base64 alphabet for the six-bit value `v`:
/// `A` to `Z`, `a` to `z`, `0` to `9`, then `+` and `/`.
pub open spec fn base64_digit(v: int) -> char {
    if v < 26 {
        (65 + v) as char
    } else if v < 52 {
        (97 + v - 26) as char
    } else if v < 62 {
        (48 + v - 52) as char
    } else if v == 62 {
        '+'
    } else {
        '/'
    }
}

/// The standard, padded base64 text of `data`: each group of three bytes
/// gives four characters of six bits each, high bits first; a last group of
/// one or two bytes is filled with zero bits and its missing characters are
/// written `=`.
pub open spec fn base64_standard_encoding(data: Seq<u8>) -> Seq<char>
    decreases data.len(),
{
    if data.len() == 0 {
        Seq::empty()
    } else {
        let b0 = data[0] as int;
        let b1 = if data.len() > 1 {
            data[1] as int
        } else {
            0
        };
        let b2 = if data.len() > 2 {
            data[2] as int
        } else {
            0
        };
        let group = seq![
            base64_digit(b0 / 4),
            base64_digit(b0 % 4 * 16 + b1 / 16),
            if data.len() > 1 {
                base64_digit(b1 % 16 * 4 + b2 / 64)
            } else {
                '='
            },
            if data.len() > 2 {
                base64_digit(b2 % 64)
            } else {
                '='
            },
        ];
        if data.len() <= 3 {
            group
        } else {
            group + base64_standard_encoding(data.subrange(3, data.len() as int))
        }
    }
}

/// The bytes that the `base64` crate's `STANDARD` engine decodes from the
/// text `text`, or `None` where it reports an error.
pub uninterp spec fn base64_standard_decoding(text: Seq<char>) -> Option<Seq<u8>>;

/// The SHA-256 digest of `data`, as the `sha2` crate computes it.
pub uninterp spec fn sha256_digest(data: Seq<u8>) -> Seq<u8>;

/// Length of the padded base64 text of `n` bytes: four characters for each
/// started group of three bytes.
pub open spec fn padded_base64_len(n: int) -> int {
    n / 3 * 4 + if n % 3 > 0 {
        4int
    } else {
        0int
    }
}

/// Calls `base64::engine::general_purpose::STANDARD.encode`. Claims that the
/// text is the standard, padded base64 encoding of the bytes, as
/// `base64_standard_encoding` spells it out. The crate panics when the
/// encoded length overflows `usize`; `requires` leaves that out.
#[verifier::external_body]
pub fn base64_encode(b: &[u8]) -> (r: String)
    requires
        padded_base64_len(b@.len() as int) <= usize::MAX,
    ensures
        r@ == base64_standard_encoding(b@),
{
    base64::engine::general_purpose::STANDARD.encode(b)
}

/// Calls `base64::engine::general_purpose::STANDARD.decode` and keeps the
/// bytes when it succeeds. Claims that the result is the named standard
/// decoding of the text, `None` exactly where that decoding fails.
#[verifier::external_body]
pub fn base64_decode(s: &str) -> (r: Option<Vec<u8>>)
    ensures
        match r {
            Some(v) => base64_standard_decoding(s@) == Some(v@),
            None => base64_standard_decoding(s@) is None,
        },
{
    base64::engine::general_purpose::STANDARD.decode(s).ok()
}

/// Calls `sha2::Sha256::digest`. Claims that the result is the named digest
/// of `data` and, as the hasher's output size says, 32 bytes long.
#[verifier::external_body]
pub fn sha256(data: &[u8]) -> (r: Vec<u8>)
    ensures
        r@ == sha256_digest(data@),
        r@.len() == 32,
{
    sha2::Sha256::digest(data).to_vec()
}

} // verus!
