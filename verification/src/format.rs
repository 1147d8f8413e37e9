//! The formatter: from date components to their text and the result record.

use crate::decode::{
    day_field, decoded, lemma_field_layout, month_field, year_offset, DosDateComponents,
};
use crate::text::{
    decimal, digit_char, lemma_decimal_four_digits, lemma_zero_padded_two_digits, push_decimal,
    push_zero_padded, zero_padded,
};
use vstd::prelude::*;
use vstd::utf8::encode_utf8;

verus! {

/// Date components together with their text.
#[derive(Debug, PartialEq, Eq)]
pub struct Output {
    pub dos_date_components: DosDateComponents,
    pub formatted_date: String,
}

/// What an `Output` holds, with the text as a sequence of characters.
pub struct OutputView {
    pub dos_date_components: DosDateComponents,
    pub formatted_date: Seq<char>,
}

impl View for Output {
    type V = OutputView;

    open spec fn view(&self) -> OutputView {
        OutputView {
            dos_date_components: self.dos_date_components,
            formatted_date: self.formatted_date@,
        }
    }
}

/// The text of a date: the year in as many digits as it has, then month and
/// day in two digits each, with hyphens between.
pub open spec fn date_text(components: DosDateComponents) -> Seq<char> {
    decimal(components.year as nat) + seq!['-'] + zero_padded(components.month as nat) + seq!['-']
        + zero_padded(components.day as nat)
}

/// The record that formatting `components` yields.
pub open spec fn formatted(components: DosDateComponents) -> OutputView {
    OutputView { dos_date_components: components, formatted_date: date_text(components) }
}

/// Renders the components as text and hands both back; the components are
/// taken as they are, without validating them again.
pub fn format_output(dos_date_components: DosDateComponents) -> (out: Output)
    ensures
        out@ == formatted(dos_date_components),
        out.dos_date_components == dos_date_components,
        out.formatted_date@ == date_text(dos_date_components),
{
    let mut formatted_date = String::new();
    push_decimal(&mut formatted_date, dos_date_components.year);
    formatted_date.append("-");
    push_zero_padded(&mut formatted_date, dos_date_components.month);
    formatted_date.append("-");
    push_zero_padded(&mut formatted_date, dos_date_components.day);
    proof {
        reveal_strlit("-");
        assert("-"@ =~= seq!['-']);
    }
    Output { dos_date_components, formatted_date }
}

/// The text of a valid date has ten characters: the year in four digits, a
/// hyphen, the month in two digits, a hyphen, and the day in two digits.
pub proof fn lemma_date_text_of_valid(components: DosDateComponents)
    requires
        components.is_valid(),
    ensures
        date_text(components) == seq![
            digit_char(components.year as int / 1000),
            digit_char(components.year as int / 100 % 10),
            digit_char(components.year as int / 10 % 10),
            digit_char(components.year as int % 10),
            '-',
            digit_char(components.month as int / 10),
            digit_char(components.month as int % 10),
            '-',
            digit_char(components.day as int / 10),
            digit_char(components.day as int % 10),
        ],
{
    lemma_decimal_four_digits(components.year as nat);
    lemma_zero_padded_two_digits(components.month as nat);
    lemma_zero_padded_two_digits(components.day as nat);
    assert(date_text(components) =~= seq![
        digit_char(components.year as int / 1000),
        digit_char(components.year as int / 100 % 10),
        digit_char(components.year as int / 10 % 10),
        digit_char(components.year as int % 10),
        '-',
        digit_char(components.month as int / 10),
        digit_char(components.month as int % 10),
        '-',
        digit_char(components.day as int / 10),
        digit_char(components.day as int % 10),
    ]);
}

/// Decoding a valid packed date and formatting what came out gives the
/// decoded components unchanged, and as their text the year, 1980 plus the
/// year offset, in four digits, a hyphen, the month field in two digits, a
/// hyphen, and the day field in two digits.
pub proof fn lemma_decode_then_format(packed: u16)
    requires
        decoded(packed) is Ok,
    ensures
        formatted(decoded(packed)->Ok_0).dos_date_components == decoded(packed)->Ok_0,
        ({
            let year = 1980 + year_offset(packed);
            let month = month_field(packed) as int;
            let day = day_field(packed) as int;
            formatted(decoded(packed)->Ok_0).formatted_date == seq![
                digit_char(year / 1000),
                digit_char(year / 100 % 10),
                digit_char(year / 10 % 10),
                digit_char(year % 10),
                '-',
                digit_char(month / 10),
                digit_char(month % 10),
                '-',
                digit_char(day / 10),
                digit_char(day % 10),
            ]
        }),
{
    lemma_field_layout(packed);
    lemma_date_text_of_valid(decoded(packed)->Ok_0);
}

/// Formatting is a function of the components alone: any two records that
/// formatting the same components yields agree in their components and in
/// their text, character by character and byte by byte.
pub proof fn lemma_format_deterministic(
    components: DosDateComponents,
    first: Output,
    second: Output,
)
    requires
        first@ == formatted(components),
        second@ == formatted(components),
    ensures
        first@ == second@,
        first.dos_date_components == second.dos_date_components,
        first.formatted_date@ == second.formatted_date@,
        encode_utf8(first.formatted_date@) == encode_utf8(second.formatted_date@),
{
}

} // verus!
