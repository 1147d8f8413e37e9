//! The decoder: from a packed 16-bit date to validated date components.
//!
//! Bit layout of a packed date, from the most significant bit down:
//! seven bits of year offset from 1980, four bits of month, five bits of day.

use crate::text::{decimal, push_decimal};
use vstd::prelude::*;

verus! {

/// The year that a year offset of zero stands for.
pub const BASE_YEAR: u16 = 1980;

/// Bits 15 to 9 of a packed date: the years since `BASE_YEAR`.
pub open spec fn year_offset(packed: u16) -> u16 {
    (packed >> 9) & 0x7f
}

/// Bits 8 to 5 of a packed date: the month, not yet validated.
pub open spec fn month_field(packed: u16) -> u16 {
    (packed >> 5) & 0x0f
}

/// Bits 4 to 0 of a packed date: the day, not yet validated.
pub open spec fn day_field(packed: u16) -> u16 {
    packed & 0x1f
}

/// The largest day that a month admits. February always admits 29 days:
/// leap years are not told apart.
pub open spec fn days_in_month(month: int) -> int {
    if month == 2 {
        29
    } else if month == 4 || month == 6 || month == 9 || month == 11 {
        30
    } else {
        31
    }
}

/// Whether `month` and `day` name a day of the simplified calendar.
pub open spec fn is_calendar_day(month: int, day: int) -> bool {
    1 <= month <= 12 && 1 <= day <= days_in_month(month)
}

/// A decoded and validated date.
#[derive(Debug, Clone, Copy, PartialEq, Eq, Structural)]
pub struct DosDateComponents {
    pub year: u16,
    pub month: u8,
    pub day: u8,
    pub base_year_for_calculation: u16,
}

impl DosDateComponents {
    /// What holds of every value that the decoder hands out: the year lies
    /// within the 128 years from the base year, and month and day name a day
    /// of the simplified calendar.
    pub open spec fn is_valid(&self) -> bool {
        &&& self.base_year_for_calculation == BASE_YEAR
        &&& BASE_YEAR <= self.year <= BASE_YEAR + 127
        &&& is_calendar_day(self.month as int, self.day as int)
    }
}

/// Why a packed date was rejected.
#[derive(Debug, Clone, Copy, PartialEq, Eq, Structural)]
pub enum DecodeError {
    /// The month field is 0 or greater than 12; holds the month field.
    InvalidMonth(u8),
    /// The day field is 0; holds the day field.
    InvalidDay(u8),
    /// The day exceeds the month's length; holds the day, the month and the
    /// largest day that the month admits.
    DayOutOfRange(u8, u8, u8),
}

impl DecodeError {
    /// The text of the error, for a reader.
    pub open spec fn message_text(self) -> Seq<char> {
        match self {
            DecodeError::InvalidMonth(month) => "Invalid month: "@ + decimal(month as nat)
                + ". Month must be between 1 and 12."@,
            DecodeError::InvalidDay(day) => "Invalid day: "@ + decimal(day as nat)
                + ". Day must be between 1 and 31."@,
            DecodeError::DayOutOfRange(day, month, max_day) => "Day "@ + decimal(day as nat)
                + " is out of range for month "@ + decimal(month as nat)
                + ". Allowed day range is 1-"@ + decimal(max_day as nat) + "."@,
        }
    }

    /// Renders the error as a sentence that names the offending values.
    pub fn message(&self) -> (text: String)
        ensures
            text@ == self.message_text(),
    {
        match *self {
            DecodeError::InvalidMonth(month) => {
                let mut text = String::from_str("Invalid month: ");
                push_decimal(&mut text, month as u16);
                text.append(". Month must be between 1 and 12.");
                text
            },
            DecodeError::InvalidDay(day) => {
                let mut text = String::from_str("Invalid day: ");
                push_decimal(&mut text, day as u16);
                text.append(". Day must be between 1 and 31.");
                text
            },
            DecodeError::DayOutOfRange(day, month, max_day) => {
                let mut text = String::from_str("Day ");
                push_decimal(&mut text, day as u16);
                text.append(" is out of range for month ");
                push_decimal(&mut text, month as u16);
                text.append(". Allowed day range is 1-");
                push_decimal(&mut text, max_day as u16);
                text.append(".");
                text
            },
        }
    }
}

/// The outcome of decoding `packed`: the month is judged first, then the
/// day's lower bound, then its upper bound; the year offset is never rejected.
pub open spec fn decoded(packed: u16) -> Result<DosDateComponents, DecodeError> {
    let month = month_field(packed);
    let day = day_field(packed);
    if month == 0 || month > 12 {
        Err(DecodeError::InvalidMonth(month as u8))
    } else if day == 0 {
        Err(DecodeError::InvalidDay(day as u8))
    } else if day > days_in_month(month as int) {
        Err(DecodeError::DayOutOfRange(day as u8, month as u8, days_in_month(month as int) as u8))
    } else {
        Ok(
            DosDateComponents {
                year: (BASE_YEAR + year_offset(packed)) as u16,
                month: month as u8,
                day: day as u8,
                base_year_for_calculation: BASE_YEAR,
            },
        )
    }
}

/// The three fields tile the sixteen bits: each is the quotient or remainder
/// that its position gives, each stays within its width, and together they
/// make up the packed value again.
pub proof fn lemma_field_layout(packed: u16)
    ensures
        year_offset(packed) == packed / 512,
        month_field(packed) == (packed / 32) % 16,
        day_field(packed) == packed % 32,
        year_offset(packed) < 128,
        month_field(packed) < 16,
        day_field(packed) < 32,
        packed == 512 * year_offset(packed) + 32 * month_field(packed) + day_field(packed),
{
    assert((packed >> 9) & 0x7f == packed / 512) by (bit_vector);
    assert((packed >> 5) & 0x0f == (packed / 32) % 16) by (bit_vector);
    assert(packed & 0x1f == packed % 32) by (bit_vector);
}

/// The thirtieth of February is rejected whatever the year: no year is taken
/// for a leap year with more than 29 days, and none is asked for.
pub proof fn lemma_february_30_rejected(packed: u16)
    requires
        month_field(packed) == 2,
        day_field(packed) == 30,
    ensures
        decoded(packed) === Err(DecodeError::DayOutOfRange(30, 2, 29)),
{
}

/// The thirty-first of April is rejected whatever the year.
pub proof fn lemma_april_31_rejected(packed: u16)
    requires
        month_field(packed) == 4,
        day_field(packed) == 31,
    ensures
        decoded(packed) === Err(DecodeError::DayOutOfRange(31, 4, 30)),
{
}

/// Decodes a packed date and validates it against the simplified calendar.
///
/// Succeeds on exactly the packed dates whose month and day fields name a
/// calendar day, whatever the year offset, and then hands out the three
/// fields, the year counted from 1980. Otherwise the month is judged before
/// the day, and the day's lower bound before its upper bound.
pub fn parse_dos_date(dos_date_val: u16) -> (r: Result<DosDateComponents, DecodeError>)
    ensures
        r == decoded(dos_date_val),
        r is Ok <==> is_calendar_day(
            month_field(dos_date_val) as int,
            day_field(dos_date_val) as int,
        ),
        r matches Ok(c) ==> {
            &&& c.is_valid()
            &&& c.year == 1980 + year_offset(dos_date_val)
            &&& c.month == month_field(dos_date_val)
            &&& c.day == day_field(dos_date_val)
            &&& c.base_year_for_calculation == 1980
        },
        month_field(dos_date_val) == 0 ==> r === Err(DecodeError::InvalidMonth(0)),
        month_field(dos_date_val) > 12 ==> r === Err(
            DecodeError::InvalidMonth(month_field(dos_date_val) as u8),
        ),
        1 <= month_field(dos_date_val) <= 12 && day_field(dos_date_val) == 0 ==> r === Err(
            DecodeError::InvalidDay(0),
        ),
        1 <= month_field(dos_date_val) <= 12 && day_field(dos_date_val) > days_in_month(
            month_field(dos_date_val) as int,
        ) ==> r === Err(
            DecodeError::DayOutOfRange(
                day_field(dos_date_val) as u8,
                month_field(dos_date_val) as u8,
                days_in_month(month_field(dos_date_val) as int) as u8,
            ),
        ),
{
    proof {
        lemma_field_layout(dos_date_val);
    }
    let offset: u16 = (dos_date_val >> 9) & 0x7f;
    let year: u16 = BASE_YEAR + offset;
    let month: u8 = ((dos_date_val >> 5) & 0x0f) as u8;
    let day: u8 = (dos_date_val & 0x1f) as u8;

    if month == 0 || month > 12 {
        return Err(DecodeError::InvalidMonth(month));
    }
    if day == 0 {
        return Err(DecodeError::InvalidDay(day));
    }
    let max_day: u8 = match month {
        2 => 29,
        4 | 6 | 9 | 11 => 30,
        _ => 31,
    };
    if day > max_day {
        return Err(DecodeError::DayOutOfRange(day, month, max_day));
    }
    Ok(DosDateComponents { year, month, day, base_year_for_calculation: BASE_YEAR })
}

} // verus!
