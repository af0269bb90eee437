//! Raw cells of a schedule and what a date cell, a time cell and a
//! completion cell stand for.

use crate::text::{
    chars_of, decimal_two, optional_text, push_decimal_two, trim_bounds, trim_to_string, trimmed,
};
use chrono::NaiveDate;
use vstd::prelude::*;

verus! {

/// The day number, counted from 1 January of the year 1 as day 1, of the day
/// before serial day 1: 30 December 1899.
pub const EPOCH_DAY_NUMBER: i64 = 693_594;

/// The first day number that `chrono` holds a date for.
pub const FIRST_DAY_NUMBER: i64 = -95_746_129;

/// The last day number that `chrono` holds a date for.
pub const LAST_DAY_NUMBER: i64 = 95_745_399;

/// The first serial day that has a date.
pub const SERIAL_DAY_MIN: i64 = -96_439_723;

/// The last serial day that has a date.
pub const SERIAL_DAY_MAX: i64 = 95_051_805;

/// A serial number of a spreadsheet, taken in the two ways a schedule reads
/// it: `days` are its whole days, the fraction cut off toward zero, and
/// `seconds` is the number times 86 400, rounded to whole seconds.
#[derive(Clone, Copy, Debug, PartialEq, Eq, Structural)]
pub struct SerialNumber {
    pub days: i64,
    pub seconds: u32,
}

/// A cell as the row source hands it over.
#[derive(Debug, PartialEq, Eq)]
pub enum RawCell {
    /// Text, with whatever surrounds it.
    Text(String),
    /// A plain number.
    Number(SerialNumber),
    /// A date or a time, held as its serial number.
    Timestamp(SerialNumber),
    /// A value of another kind that is not empty, with the number it can be
    /// taken for, if any.
    Other(Option<SerialNumber>),
    /// Nothing.
    Empty,
}

/// What `chrono` writes, in the form year, hyphen, month, hyphen, day, for the
/// day with this number, or nothing where it holds no date for the number.
pub uninterp spec fn day_text(day_number: int) -> Option<Seq<char>>;

/// `NaiveDate::from_num_days_from_ce_opt` of `chrono`, and `format` with
/// `%Y-%m-%d` on the date that comes out. The text is a function of the day
/// number alone, and there is one exactly for the days from 1 January -262143
/// to 31 December 262142.
#[verifier::external_body]
pub(crate) fn format_day_number(day_number: i32) -> (r: Option<String>)
    ensures
        match r {
            Some(s) => day_text(day_number as int) == Some(s@),
            None => day_text(day_number as int) is None,
        },
        r is Some <==> FIRST_DAY_NUMBER <= day_number <= LAST_DAY_NUMBER,
{
    match NaiveDate::from_num_days_from_ce_opt(day_number) {
        Some(date) => Some(date.format("%Y-%m-%d").to_string()),
        None => None,
    }
}

/// The date of a serial day, written as year, month and day, where the day
/// has a date.
pub open spec fn serial_date_text(days: int) -> Option<Seq<char>> {
    if SERIAL_DAY_MIN <= days <= SERIAL_DAY_MAX {
        day_text(days + EPOCH_DAY_NUMBER)
    } else {
        None
    }
}

/// The time `total` seconds after midnight as hours, minutes and seconds, each
/// of two digits or more. The hours are not held below 24.
pub open spec fn serial_time_text(total: nat) -> Seq<char> {
    decimal_two(total / 3600) + seq![':'] + decimal_two((total % 3600) / 60) + seq![':']
        + decimal_two(total % 60)
}

/// The date of a serial day, where it has one.
pub fn serial_date(days: i64) -> (r: Option<String>)
    ensures
        match r {
            Some(s) => serial_date_text(days as int) == Some(s@),
            None => serial_date_text(days as int) is None,
        },
        r is Some <==> SERIAL_DAY_MIN <= days <= SERIAL_DAY_MAX,
{
    if SERIAL_DAY_MIN <= days && days <= SERIAL_DAY_MAX {
        format_day_number((days + EPOCH_DAY_NUMBER) as i32)
    } else {
        None
    }
}

/// The date of a serial day that has one.
pub fn excel_date_to_string(days: i64) -> (s: String)
    requires
        SERIAL_DAY_MIN <= days <= SERIAL_DAY_MAX,
    ensures
        serial_date_text(days as int) == Some(s@),
{
    match serial_date(days) {
        Some(s) => s,
        None => vstd::pervasive::unreached(),
    }
}

/// The time of day `total_seconds` after midnight.
pub fn excel_time_to_string(total_seconds: u32) -> (s: String)
    ensures
        s@ == serial_time_text(total_seconds as nat),
{
    let mut s = String::new();
    push_decimal_two(&mut s, (total_seconds / 3600) as u128);
    s.push(':');
    push_decimal_two(&mut s, ((total_seconds % 3600) / 60) as u128);
    s.push(':');
    push_decimal_two(&mut s, (total_seconds % 60) as u128);
    assert(s@ =~= serial_time_text(total_seconds as nat));
    s
}

/// The date that a cell in the date column stands for.
pub open spec fn cell_date(cell: Option<RawCell>) -> Option<Seq<char>> {
    match cell {
        Some(RawCell::Text(s)) => Some(trimmed(s@)),
        Some(RawCell::Number(n)) => serial_date_text(n.days as int),
        Some(RawCell::Timestamp(n)) => serial_date_text(n.days as int),
        Some(RawCell::Other(Some(n))) => serial_date_text(n.days as int),
        _ => None,
    }
}

/// The time that a cell in the time column stands for.
pub open spec fn cell_time(cell: Option<RawCell>) -> Option<Seq<char>> {
    match cell {
        Some(RawCell::Text(s)) => Some(trimmed(s@)),
        Some(RawCell::Number(n)) => Some(serial_time_text(n.seconds as nat)),
        Some(RawCell::Timestamp(n)) => Some(serial_time_text(n.seconds as nat)),
        Some(RawCell::Other(Some(n))) => Some(serial_time_text(n.seconds as nat)),
        _ => None,
    }
}

/// Whether a cell in the completion column marks its row as done: any
/// content but blank text does.
pub open spec fn cell_completed(cell: Option<RawCell>) -> bool {
    match cell {
        None => false,
        Some(RawCell::Empty) => false,
        Some(RawCell::Text(s)) => trimmed(s@).len() != 0,
        Some(_) => true,
    }
}

/// The date of a cell in the date column: text as it stands, trimmed; a
/// number as the date of its serial day; nothing for a cell that is absent,
/// empty, of a kind that no number stands for, or beyond the calendar.
pub fn date_of_cell(cell: Option<&RawCell>) -> (r: Option<String>)
    ensures
        optional_text(r) == cell_date(
            match cell {
                Some(c) => Some(*c),
                None => None,
            },
        ),
{
    match cell {
        Some(RawCell::Text(s)) => Some(trim_to_string(s.as_str())),
        Some(RawCell::Number(n)) => serial_date(n.days),
        Some(RawCell::Timestamp(n)) => serial_date(n.days),
        Some(RawCell::Other(Some(n))) => serial_date(n.days),
        _ => None,
    }
}

/// The time of a cell in the time column: text as it stands, trimmed; a
/// number as the time of its seconds; nothing for a cell that is absent,
/// empty, or of a kind that no number stands for.
pub fn time_of_cell(cell: Option<&RawCell>) -> (r: Option<String>)
    ensures
        optional_text(r) == cell_time(
            match cell {
                Some(c) => Some(*c),
                None => None,
            },
        ),
{
    match cell {
        Some(RawCell::Text(s)) => Some(trim_to_string(s.as_str())),
        Some(RawCell::Number(n)) => Some(excel_time_to_string(n.seconds)),
        Some(RawCell::Timestamp(n)) => Some(excel_time_to_string(n.seconds)),
        Some(RawCell::Other(Some(n))) => Some(excel_time_to_string(n.seconds)),
        _ => None,
    }
}

/// Whether a cell in the completion column marks its row as done.
pub fn is_completed(cell: Option<&RawCell>) -> (r: bool)
    ensures
        r == cell_completed(
            match cell {
                Some(c) => Some(*c),
                None => None,
            },
        ),
{
    match cell {
        None => false,
        Some(RawCell::Empty) => false,
        Some(RawCell::Text(s)) => {
            let chars = chars_of(s.as_str());
            let (a, b) = trim_bounds(&chars, 0, chars.len());
            assert(chars@.subrange(0, chars.len() as int) == chars@);
            a < b
        },
        Some(_) => true,
    }
}

} // verus!
