//! Decoding of hexadecimal strings, with or without a leading `0x`.

use vstd::prelude::*;
use vstd::string::StringSliceAdditionalSpecFns;

verus! {

/// Why a hex string could not be decoded.
#[derive(Debug, Clone, Copy, PartialEq, Eq, Structural)]
pub enum HexError {
    /// A byte that is not `0-9`, `a-f` or `A-F`, with its position.
    InvalidHexCharacter { c: char, index: usize },
    /// The number of digits is odd.
    OddLength,
    /// A fixed-size output did not match the input length.
    InvalidStringLength,
}

/// The value of one hex digit, if `b` is one.
pub open spec fn hex_value(b: u8) -> Option<u8> {
    if 0x30 <= b && b <= 0x39 {
        Some((b - 0x30) as u8)
    } else if 0x41 <= b && b <= 0x46 {
        Some((b - 0x41 + 10) as u8)
    } else if 0x61 <= b && b <= 0x66 {
        Some((b - 0x61 + 10) as u8)
    } else {
        None
    }
}

/// The bytes that an even-length run of valid hex digits stands for.
pub open spec fn hex_bytes(s: Seq<u8>) -> Seq<u8> {
    Seq::new(
        s.len() / 2,
        |i: int| (hex_value(s[2 * i]).unwrap() * 16 + hex_value(s[2 * i + 1]).unwrap()) as u8,
    )
}

/// The position of the first byte at or after `i` that is not a hex digit.
pub open spec fn first_non_hex_from(s: Seq<u8>, i: int) -> Option<int>
    decreases s.len() - i,
{
    if i < 0 || i >= s.len() {
        None
    } else if hex_value(s[i]) is None {
        Some(i)
    } else {
        first_non_hex_from(s, i + 1)
    }
}

/// The error that decoding `s` ends in, if any: an odd length is reported
/// before any bad digit, and a bad digit by its first occurrence.
pub open spec fn hex_error(s: Seq<u8>) -> Option<HexError> {
    if s.len() % 2 == 1 {
        Some(HexError::OddLength)
    } else {
        match first_non_hex_from(s, 0) {
            Some(k) => Some(HexError::InvalidHexCharacter { c: s[k] as char, index: k as usize }),
            None => None,
        }
    }
}

/// What decoding the digits `s` gives.
pub open spec fn decodes_to(s: Seq<u8>, r: Result<Vec<u8>, HexError>) -> bool {
    match hex_error(s) {
        Some(e) => r == Err::<Vec<u8>, HexError>(e),
        None => r is Ok && r->Ok_0@ == hex_bytes(s),
    }
}

/// `s` with one leading `0x` taken off, if it has one.
pub open spec fn strip_hex_prefix(s: Seq<u8>) -> Seq<u8> {
    if s.len() >= 2 && s[0] == 0x30u8 && s[1] == 0x78u8 {
        s.skip(2)
    } else {
        s
    }
}

/// Relies on `hex::decode`: the length is checked first (`OddLength`), then
/// each pair of digits in order; the first byte that is no hex digit is
/// reported with its position, and otherwise each pair gives one byte.
#[verifier::external_body]
fn hex_decode(digits: &[u8]) -> (r: Result<Vec<u8>, HexError>)
    ensures
        decodes_to(digits@, r),
{
    hex::decode(digits).map_err(|e| match e {
        hex::FromHexError::InvalidHexCharacter { c, index } => HexError::InvalidHexCharacter { c, index },
        hex::FromHexError::OddLength => HexError::OddLength,
        hex::FromHexError::InvalidStringLength => HexError::InvalidStringLength,
    })
}

/// Decodes a hex string, with or without one leading `0x`.
pub fn decode_hex(input: &str) -> (r: Result<Vec<u8>, HexError>)
    ensures
        decodes_to(strip_hex_prefix(input.spec_bytes()), r),
{
    let bytes = input.as_bytes();
    let n = bytes.len();
    let start: usize = if n >= 2 && bytes[0] == 0x30u8 && bytes[1] == 0x78u8 {
        2
    } else {
        0
    };
    assert(bytes@.subrange(start as int, n as int) =~= strip_hex_prefix(bytes@));
    hex_decode(&bytes[start..n])
}

/// One leading `0x` changes nothing of what hex digits decode to: the
/// prefixed string and the bare digits are decoded from the same bytes.
pub proof fn lemma_prefix_ignored(digits: Seq<u8>)
    requires
        !(digits.len() >= 2 && digits[0] == 0x30u8 && digits[1] == 0x78u8),
    ensures
        strip_hex_prefix(seq![0x30u8, 0x78u8] + digits) == digits,
        strip_hex_prefix(digits) == digits,
{
    assert((seq![0x30u8, 0x78u8] + digits).skip(2) =~= digits);
}

} // verus!
