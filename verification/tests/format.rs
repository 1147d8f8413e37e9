use rs_dosdate2str_wasi::{format_output, parse_dos_date, DosDateComponents, Output};

fn components(year: u16, month: u8, day: u8) -> DosDateComponents {
    DosDateComponents { year, month, day, base_year_for_calculation: 1980 }
}

#[test]
fn decode_then_format_2024_05_20() {
    let packed: u16 = (44 << 9) | (5 << 5) | 20;
    let out = format_output(parse_dos_date(packed).unwrap());
    assert_eq!(out.formatted_date, "2024-05-20");
    assert_eq!(out.dos_date_components, components(2024, 5, 20));
}

#[test]
fn decode_then_format_every_valid_word() {
    let mut valid = 0;
    for packed in 0..=u16::MAX {
        if let Ok(c) = parse_dos_date(packed) {
            valid += 1;
            let out = format_output(c);
            let expected = format!(
                "{}-{:02}-{:02}",
                1980 + (packed >> 9),
                (packed >> 5) & 0xF,
                packed & 0x1F
            );
            assert_eq!(out.formatted_date, expected);
            assert_eq!(out.formatted_date.len(), 10);
            assert_eq!(out.dos_date_components, c);
        }
    }
    // 128 years of 7 * 31 + 4 * 30 + 29 days
    assert_eq!(valid, 128 * 366);
}

#[test]
fn month_and_day_are_padded_to_two_digits() {
    assert_eq!(format_output(components(1980, 1, 1)).formatted_date, "1980-01-01");
    assert_eq!(format_output(components(1999, 9, 9)).formatted_date, "1999-09-09");
    assert_eq!(format_output(components(2000, 10, 10)).formatted_date, "2000-10-10");
    assert_eq!(format_output(components(2107, 12, 31)).formatted_date, "2107-12-31");
}

#[test]
fn year_is_written_in_as_many_digits_as_it_has() {
    assert_eq!(format_output(components(0, 1, 1)).formatted_date, "0-01-01");
    assert_eq!(format_output(components(7, 1, 1)).formatted_date, "7-01-01");
    assert_eq!(format_output(components(999, 12, 31)).formatted_date, "999-12-31");
    assert_eq!(format_output(components(65535, 1, 1)).formatted_date, "65535-01-01");
}

#[test]
fn components_are_taken_as_they_are() {
    let odd = DosDateComponents { year: 1234, month: 0, day: 200, base_year_for_calculation: 7 };
    let out = format_output(odd);
    assert_eq!(out.formatted_date, "1234-00-200");
    assert_eq!(out.dos_date_components, odd);
    assert_eq!(format_output(components(1980, 255, 100)).formatted_date, "1980-255-100");
}

#[test]
fn format_agrees_with_std_on_every_month_and_day() {
    for value in 0..=u8::MAX {
        let out = format_output(components(1980 + value as u16, value, value));
        assert_eq!(
            out.formatted_date,
            format!("{}-{:02}-{:02}", 1980 + value as u16, value, value)
        );
    }
}

#[test]
fn formatting_twice_gives_identical_output() {
    let c = components(2024, 5, 20);
    let first = format_output(c);
    let second = format_output(c);
    assert_eq!(first, second);
    assert_eq!(first.formatted_date.as_bytes(), second.formatted_date.as_bytes());
    assert_eq!(first.formatted_date.as_bytes(), b"2024-05-20");
}

#[test]
fn output_holds_components_and_text() {
    let out = format_output(components(2024, 5, 20));
    assert_eq!(
        out,
        Output {
            dos_date_components: components(2024, 5, 20),
            formatted_date: String::from("2024-05-20"),
        }
    );
}
