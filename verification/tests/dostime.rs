use rs_dosdate2str_wasi::{
    convert_hex_dostime, convert_int_dostime, dos_date_of, dostime_from_hex, ConvertError,
    DecodeError, DosDateComponents, HexError, InputError, WRONG_LENGTH_MESSAGE,
};

#[test]
fn date_is_the_upper_half_of_the_timestamp() {
    assert_eq!(dos_date_of(0x58B4_0000), 0x58B4);
    assert_eq!(dos_date_of(0x58B4_FFFF), 0x58B4);
    assert_eq!(dos_date_of(0x0000_FFFF), 0);
    assert_eq!(dos_date_of(0xFFFF_FFFF), 0xFFFF);
    assert_eq!(dos_date_of(0x0001_0000), 1);
}

#[test]
fn hex_all_zero_fails_on_the_month() {
    assert_eq!(
        convert_hex_dostime("00000000"),
        Err(ConvertError::Date(DecodeError::InvalidMonth(0)))
    );
}

#[test]
fn int_58b40000_is_2024_05_20() {
    let out = convert_int_dostime(0x58B4_0000).unwrap();
    assert_eq!(
        out.dos_date_components,
        DosDateComponents { year: 2024, month: 5, day: 20, base_year_for_calculation: 1980 }
    );
    assert_eq!(out.formatted_date, "2024-05-20");
}

#[test]
fn int_time_of_day_is_ignored() {
    let out = convert_int_dostime(0x58B4_BF7D).unwrap();
    assert_eq!(out.formatted_date, "2024-05-20");
}

#[test]
fn int_with_invalid_date_fails_with_the_decoders_error() {
    assert_eq!(convert_int_dostime(0), Err(DecodeError::InvalidMonth(0)));
    assert_eq!(convert_int_dostime(0x0020_0000), Err(DecodeError::InvalidDay(0)));
    assert_eq!(convert_int_dostime(0x005E_1234), Err(DecodeError::DayOutOfRange(30, 2, 29)));
}

#[test]
fn hex_58b40000_is_2024_05_20() {
    let out = convert_hex_dostime("58B40000").unwrap();
    assert_eq!(
        out.dos_date_components,
        DosDateComponents { year: 2024, month: 5, day: 20, base_year_for_calculation: 1980 }
    );
    assert_eq!(out.formatted_date, "2024-05-20");
}

#[test]
fn hex_digits_are_read_most_significant_byte_first() {
    assert_eq!(dostime_from_hex("58B40000"), Ok(0x58B4_0000));
    assert_eq!(dostime_from_hex("01020304"), Ok(0x0102_0304));
    assert_eq!(dostime_from_hex("ffffffff"), Ok(0xFFFF_FFFF));
    assert_eq!(dostime_from_hex("00000001"), Ok(1));
    assert_eq!(dostime_from_hex("12345678"), Ok(0x1234_5678));
    assert_eq!(dostime_from_hex("9abcdef0"), Ok(0x9ABC_DEF0));
}

#[test]
fn hex_digits_may_be_of_either_case() {
    assert_eq!(dostime_from_hex("58b4abcd"), Ok(0x58B4_ABCD));
    assert_eq!(dostime_from_hex("58B4ABCD"), Ok(0x58B4_ABCD));
    assert_eq!(dostime_from_hex("58b4AbCd"), Ok(0x58B4_ABCD));
    assert_eq!(dostime_from_hex("aAfF09Ee"), Ok(0xAAFF_09EE));
}

#[test]
fn hex_of_odd_length_is_rejected_before_its_digits() {
    assert_eq!(dostime_from_hex("123"), Err(InputError::Hex(HexError::OddLength)));
    assert_eq!(dostime_from_hex("g"), Err(InputError::Hex(HexError::OddLength)));
    assert_eq!(dostime_from_hex("58B400000"), Err(InputError::Hex(HexError::OddLength)));
    assert_eq!(
        convert_hex_dostime("58B4000"),
        Err(ConvertError::Input(InputError::Hex(HexError::OddLength)))
    );
}

#[test]
fn hex_with_a_bad_digit_names_the_first_one() {
    assert_eq!(
        dostime_from_hex("58g40000"),
        Err(InputError::Hex(HexError::InvalidHexCharacter { c: 'g', index: 2 }))
    );
    assert_eq!(
        dostime_from_hex("5xB4000z"),
        Err(InputError::Hex(HexError::InvalidHexCharacter { c: 'x', index: 1 }))
    );
    assert_eq!(
        dostime_from_hex("58B4000 "),
        Err(InputError::Hex(HexError::InvalidHexCharacter { c: ' ', index: 7 }))
    );
    assert_eq!(
        dostime_from_hex("0x58B40000"),
        Err(InputError::Hex(HexError::InvalidHexCharacter { c: 'x', index: 1 }))
    );
    assert_eq!(
        convert_hex_dostime("zz"),
        Err(ConvertError::Input(InputError::Hex(HexError::InvalidHexCharacter {
            c: 'z',
            index: 0
        })))
    );
}

#[test]
fn hex_outside_ascii_is_judged_byte_by_byte() {
    // U+00E9 is the two bytes C3 A9
    assert_eq!(
        dostime_from_hex("\u{e9}"),
        Err(InputError::Hex(HexError::InvalidHexCharacter { c: '\u{c3}', index: 0 }))
    );
    assert_eq!(
        dostime_from_hex("58B400\u{e9}"),
        Err(InputError::Hex(HexError::InvalidHexCharacter { c: '\u{c3}', index: 6 }))
    );
}

#[test]
fn hex_of_other_than_four_bytes_is_rejected() {
    assert_eq!(dostime_from_hex(""), Err(InputError::WrongLength));
    assert_eq!(dostime_from_hex("58"), Err(InputError::WrongLength));
    assert_eq!(dostime_from_hex("58B4"), Err(InputError::WrongLength));
    assert_eq!(dostime_from_hex("58B400"), Err(InputError::WrongLength));
    assert_eq!(dostime_from_hex("58B4000000"), Err(InputError::WrongLength));
    assert_eq!(
        convert_hex_dostime("58B4"),
        Err(ConvertError::Input(InputError::WrongLength))
    );
}

#[test]
fn wrong_length_message_names_the_expected_length() {
    assert_eq!(
        WRONG_LENGTH_MESSAGE,
        "Hex string must represent exactly 4 bytes (32-bit DOSTIME)"
    );
}

#[test]
fn hex_with_invalid_date_fails_with_the_decoders_error() {
    assert_eq!(
        convert_hex_dostime("00200000"),
        Err(ConvertError::Date(DecodeError::InvalidDay(0)))
    );
    assert_eq!(
        convert_hex_dostime("005e0000"),
        Err(ConvertError::Date(DecodeError::DayOutOfRange(30, 2, 29)))
    );
    assert_eq!(
        convert_hex_dostime("009F0000"),
        Err(ConvertError::Date(DecodeError::DayOutOfRange(31, 4, 30)))
    );
}

#[test]
fn hex_and_int_forms_agree() {
    for dostime in [0x58B4_0000u32, 0x0021_0000, 0xFF9F_FFFF, 0x2A5C_1234, 0, 0xFFFF_FFFF] {
        let text = format!("{:08x}", dostime);
        assert_eq!(dostime_from_hex(&text), Ok(dostime));
        assert_eq!(
            convert_hex_dostime(&text),
            convert_int_dostime(dostime).map_err(ConvertError::Date)
        );
    }
}
