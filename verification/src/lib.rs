//! Decoding of the packed 16-bit MS-DOS date, as it is found in the high half
//! of a 32-bit DOS timestamp, into a validated calendar date and its text.

pub mod decode;
pub mod dostime;
pub mod format;
pub mod hex_bytes;
pub mod text;

pub use decode::{parse_dos_date, DecodeError, DosDateComponents};
pub use dostime::{
    convert_hex_dostime, convert_int_dostime, dos_date_of, dostime_from_hex, ConvertError,
    InputError, WRONG_LENGTH_MESSAGE,
};
pub use format::{format_output, Output};
pub use hex_bytes::HexError;
