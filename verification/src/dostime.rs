//! The 32-bit DOS timestamp, whose high half is the packed date, in the two
//! forms in which it arrives: as a number, and as eight hexadecimal digits
//! that stand for its four bytes, most significant first.

use crate::decode::{decoded, parse_dos_date, DecodeError};
use crate::format::{format_output, formatted, Output, OutputView};
use crate::hex_bytes::{
    all_hex_digits, decode_hex, hex_digit_value, hex_pairs, hex_rejects, HexError,
};
use vstd::prelude::*;
use vstd::string::StringSliceAdditionalSpecFns;

verus! {

/// What to tell a reader whose text failed with `InputError::WrongLength`.
pub const WRONG_LENGTH_MESSAGE: &'static str =
    "Hex string must represent exactly 4 bytes (32-bit DOSTIME)";

/// Why a text does not hold a timestamp.
#[derive(Debug, Clone, Copy, PartialEq, Eq, Structural)]
pub enum InputError {
    /// The text is no string of hexadecimal digit pairs.
    Hex(HexError),
    /// The digit pairs stand for a number of bytes other than four.
    WrongLength,
}

/// Why a timestamp in hexadecimal digits was not converted.
#[derive(Debug, Clone, Copy, PartialEq, Eq, Structural)]
pub enum ConvertError {
    /// The text does not hold a timestamp.
    Input(InputError),
    /// The timestamp's date field is rejected.
    Date(DecodeError),
}

/// The packed date of a timestamp: its upper sixteen bits.
pub open spec fn date_field(dostime: u32) -> u16 {
    (dostime / 0x1_0000) as u16
}

/// The number that four bytes stand for, most significant byte first.
pub open spec fn be_word(bytes: Seq<u8>) -> int {
    bytes[0] * 0x100_0000 + bytes[1] * 0x1_0000 + bytes[2] * 0x100 + bytes[3]
}

/// Whether `text` is a timestamp in hexadecimal: eight digits.
pub open spec fn is_hex_dostime(text: Seq<u8>) -> bool {
    text.len() == 8 && all_hex_digits(text)
}

/// The timestamp that eight hexadecimal digits stand for.
pub open spec fn hex_dostime(text: Seq<u8>) -> u32 {
    be_word(hex_pairs(text)) as u32
}

/// Whether `error` is the one that reading `text` as a timestamp fails with.
pub open spec fn input_rejects(text: Seq<u8>, error: InputError) -> bool {
    match error {
        InputError::Hex(hex_error) => hex_rejects(text, hex_error),
        InputError::WrongLength => text.len() % 2 == 0 && all_hex_digits(text) && text.len() != 8,
    }
}

/// The outcome of converting a timestamp: the formatted date that its date
/// field holds, or the reason why that field is rejected.
pub open spec fn converted(dostime: u32) -> Result<OutputView, DecodeError> {
    match decoded(date_field(dostime)) {
        Ok(components) => Ok(formatted(components)),
        Err(error) => Err(error),
    }
}

/// Eight hexadecimal digits stand for the number that they spell, and the
/// packed date of that timestamp is the number that the first four spell.
pub proof fn lemma_hex_date_field(text: Seq<u8>)
    requires
        is_hex_dostime(text),
    ensures
        hex_dostime(text) == 0x1000_0000 * hex_digit_value(text[0])
            + 0x100_0000 * hex_digit_value(text[1])
            + 0x10_0000 * hex_digit_value(text[2])
            + 0x1_0000 * hex_digit_value(text[3])
            + 0x1000 * hex_digit_value(text[4])
            + 0x100 * hex_digit_value(text[5])
            + 0x10 * hex_digit_value(text[6])
            + hex_digit_value(text[7]),
        date_field(hex_dostime(text)) == 0x1000 * hex_digit_value(text[0])
            + 0x100 * hex_digit_value(text[1])
            + 0x10 * hex_digit_value(text[2])
            + hex_digit_value(text[3]),
{
    let bytes = hex_pairs(text);
    assert(bytes[0] == 16 * hex_digit_value(text[0]) + hex_digit_value(text[1]));
    assert(bytes[1] == 16 * hex_digit_value(text[2]) + hex_digit_value(text[3]));
    assert(bytes[2] == 16 * hex_digit_value(text[4]) + hex_digit_value(text[5]));
    assert(bytes[3] == 16 * hex_digit_value(text[6]) + hex_digit_value(text[7]));
}

/// Takes the packed date out of a timestamp.
pub fn dos_date_of(dostime: u32) -> (date: u16)
    ensures
        date == date_field(dostime),
        date == dostime / 0x1_0000,
        date == dostime >> 16,
{
    assert(dostime >> 16 == dostime / 0x1_0000) by (bit_vector);
    (dostime >> 16) as u16
}

/// Reads a timestamp from its hexadecimal form: eight digits, of either
/// case, that stand for its four bytes, most significant first.
///
/// A text of odd length or with a byte that is no hexadecimal digit fails
/// with the error of the hex decoding; digit pairs that stand for more or
/// fewer than four bytes fail with `WrongLength`.
pub fn dostime_from_hex(hex: &str) -> (r: Result<u32, InputError>)
    ensures
        r is Ok <==> is_hex_dostime(hex.spec_bytes()),
        r matches Ok(dostime) ==> dostime == hex_dostime(hex.spec_bytes()),
        r matches Err(error) ==> input_rejects(hex.spec_bytes(), error),
{
    match decode_hex(hex.as_bytes()) {
        Err(error) => Err(InputError::Hex(error)),
        Ok(bytes) => {
            if bytes.len() != 4 {
                Err(InputError::WrongLength)
            } else {
                let word: u32 = (bytes[0] as u32) * 0x100_0000 + (bytes[1] as u32) * 0x1_0000
                    + (bytes[2] as u32) * 0x100 + (bytes[3] as u32);
                Ok(word)
            }
        },
    }
}

/// Converts a timestamp to the formatted date that its date field holds; the
/// lower half of the timestamp, the time of day, is not looked at.
pub fn convert_int_dostime(dostime: u32) -> (r: Result<Output, DecodeError>)
    ensures
        r is Ok <==> converted(dostime) is Ok,
        r matches Ok(out) ==> converted(dostime) === Ok(out@),
        r matches Err(error) ==> converted(dostime) === Err(error),
{
    match parse_dos_date(dos_date_of(dostime)) {
        Ok(components) => Ok(format_output(components)),
        Err(error) => Err(error),
    }
}

/// Converts a timestamp in hexadecimal form to the formatted date that its
/// date field holds. The text is judged first: only a text that holds a
/// timestamp has its date decoded.
pub fn convert_hex_dostime(hex: &str) -> (r: Result<Output, ConvertError>)
    ensures
        r is Ok <==> is_hex_dostime(hex.spec_bytes())
            && converted(hex_dostime(hex.spec_bytes())) is Ok,
        r matches Ok(out) ==> is_hex_dostime(hex.spec_bytes())
            && converted(hex_dostime(hex.spec_bytes())) === Ok(out@),
        r matches Err(ConvertError::Input(error)) ==> input_rejects(hex.spec_bytes(), error),
        r matches Err(ConvertError::Date(error)) ==> is_hex_dostime(hex.spec_bytes())
            && converted(hex_dostime(hex.spec_bytes())) === Err(error),
{
    match dostime_from_hex(hex) {
        Err(error) => Err(ConvertError::Input(error)),
        Ok(dostime) => match convert_int_dostime(dostime) {
            Ok(out) => Ok(out),
            Err(error) => Err(ConvertError::Date(error)),
        },
    }
}

} // verus!
