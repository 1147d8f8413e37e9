//! Bytes written as pairs of hexadecimal digits.

use vstd::prelude::*;

verus! {

/// Why a text is not a string of hexadecimal digit pairs.
#[derive(Debug, Clone, Copy, PartialEq, Eq, Structural)]
pub enum HexError {
    /// A byte of the text is no hexadecimal digit; holds that byte as a
    /// character and its position.
    InvalidHexCharacter { c: char, index: usize },
    /// The text has an odd number of bytes.
    OddLength,
    /// The text does not fill a container of fixed size; decoding into a
    /// vector never yields this.
    InvalidStringLength,
}

/// Whether `b` is one of `0`-`9`, `a`-`f` or `A`-`F`.
pub open spec fn is_hex_digit(b: u8) -> bool {
    ||| ('0' as u8) <= b <= ('9' as u8)
    ||| ('a' as u8) <= b <= ('f' as u8)
    ||| ('A' as u8) <= b <= ('F' as u8)
}

/// The number, 0 to 15, that the hexadecimal digit `b` stands for.
pub open spec fn hex_digit_value(b: u8) -> int {
    if ('0' as u8) <= b <= ('9' as u8) {
        b - ('0' as u8)
    } else if ('a' as u8) <= b <= ('f' as u8) {
        b - ('a' as u8) + 10
    } else {
        b - ('A' as u8) + 10
    }
}

/// Whether every byte of `text` is a hexadecimal digit.
pub open spec fn all_hex_digits(text: Seq<u8>) -> bool {
    forall|i: int| 0 <= i < text.len() ==> is_hex_digit(#[trigger] text[i])
}

/// Whether `index` is the place of the first byte of `text` that is no
/// hexadecimal digit.
pub open spec fn is_first_bad_digit(text: Seq<u8>, index: int) -> bool {
    &&& 0 <= index < text.len()
    &&& !is_hex_digit(text[index])
    &&& forall|j: int| 0 <= j < index ==> is_hex_digit(#[trigger] text[j])
}

/// The bytes that the digit pairs of `text` stand for, the first digit of a
/// pair being the high half of its byte.
pub open spec fn hex_pairs(text: Seq<u8>) -> Seq<u8> {
    Seq::new(
        text.len() / 2,
        |i: int| (16 * hex_digit_value(text[2 * i]) + hex_digit_value(text[2 * i + 1])) as u8,
    )
}

/// Whether `error` is the one that decoding `text` fails with: an odd length
/// is reported before any digit is looked at, and of the bad digits the first.
pub open spec fn hex_rejects(text: Seq<u8>, error: HexError) -> bool {
    match error {
        HexError::OddLength => text.len() % 2 != 0,
        HexError::InvalidHexCharacter { c, index } => {
            &&& text.len() % 2 == 0
            &&& is_first_bad_digit(text, index as int)
            &&& c == text[index as int] as char
        },
        HexError::InvalidStringLength => false,
    }
}

/// Calls `hex::decode` on `data`. Trusted, from the source of `hex`: a text of
/// even length whose bytes are all hexadecimal digits, in either case, yields
/// the bytes of its digit pairs; a text of odd length yields `OddLength`; any
/// other text yields `InvalidHexCharacter` with the first offending byte and
/// its position. `InvalidStringLength` is never returned.
#[verifier::external_body]
pub(crate) fn decode_hex(data: &[u8]) -> (r: Result<Vec<u8>, HexError>)
    ensures
        r matches Ok(bytes) ==> data@.len() % 2 == 0 && all_hex_digits(data@)
            && bytes@ == hex_pairs(data@),
        r matches Err(error) ==> hex_rejects(data@, error),
{
    match hex::decode(data) {
        Ok(bytes) => Ok(bytes),
        Err(hex::FromHexError::InvalidHexCharacter { c, index }) => Err(
            HexError::InvalidHexCharacter { c, index },
        ),
        Err(hex::FromHexError::OddLength) => Err(HexError::OddLength),
        Err(hex::FromHexError::InvalidStringLength) => Err(HexError::InvalidStringLength),
    }
}

} // verus!
