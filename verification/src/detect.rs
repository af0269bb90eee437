//! The scan of a sheet's rows and the detection run over all managed sheets.

use crate::cell::{
    cell_completed, cell_date, cell_time, date_of_cell, is_completed, time_of_cell, RawCell,
};
use crate::classify::{classify, verdict, Classification, Verdict};
use crate::clock::TimeOfDay;
use crate::missing::{lemma_rising_unique, NotificationList};
use crate::text::texts;
use vstd::prelude::*;

verus! {

/// The column of the date cell, counted from 0.
pub const DATE_COLUMN: usize = 1;

/// The column of the time cell, counted from 0.
pub const TIME_COLUMN: usize = 2;

/// The column of the completion cell, counted from 0.
pub const COMPLETION_COLUMN: usize = 3;

/// A managed sheet as it was read: its name and its rows from top to bottom,
/// or no rows where the sheet could not be found or read.
#[derive(Debug, PartialEq, Eq)]
pub struct SheetRead {
    pub name: String,
    pub rows: Option<Vec<Vec<RawCell>>>,
}

/// Why a sheet could not be scanned.
#[derive(Clone, Copy, Debug, PartialEq, Eq, Structural)]
pub enum ScanError {
    /// The sheet could not be found or read.
    SheetUnavailable,
}

/// The cell of a row in column `i`, if the row reaches that far.
pub open spec fn row_cell(row: Seq<RawCell>, i: int) -> Option<RawCell> {
    if 0 <= i < row.len() {
        Some(row[i])
    } else {
        None
    }
}

/// The verdict on a row.
pub open spec fn row_verdict(row: Seq<RawCell>, today: Seq<char>, now: TimeOfDay) -> Verdict {
    verdict(
        cell_date(row_cell(row, DATE_COLUMN as int)),
        cell_time(row_cell(row, TIME_COLUMN as int)),
        cell_completed(row_cell(row, COMPLETION_COLUMN as int)),
        today,
        now,
    )
}

/// The entries of the missing rows, from top to bottom.
pub open spec fn missing_in_rows(rows: Seq<Vec<RawCell>>, today: Seq<char>, now: TimeOfDay) -> Seq<
    Seq<char>,
>
    decreases rows.len(),
{
    if rows.len() == 0 {
        Seq::empty()
    } else {
        let above = missing_in_rows(rows.drop_last(), today, now);
        match row_verdict(rows.last()@, today, now) {
            Verdict::Missing(entry) => above.push(entry),
            _ => above,
        }
    }
}

/// The missing entries that a sheet adds to a run: those of its rows, and
/// none where it could not be read.
pub open spec fn sheet_missing(sheet: SheetRead, today: Seq<char>, now: TimeOfDay) -> Seq<
    Seq<char>,
> {
    match sheet.rows {
        Some(rows) => missing_in_rows(rows@, today, now),
        None => Seq::empty(),
    }
}

/// The outcome of a run over `sheets` in their order: each sheet with a
/// missing entry stands under its name with its entries.
pub open spec fn detection(sheets: Seq<SheetRead>, today: Seq<char>, now: TimeOfDay) -> Map<
    Seq<char>,
    Seq<Seq<char>>,
>
    decreases sheets.len(),
{
    if sheets.len() == 0 {
        Map::empty()
    } else {
        let before = detection(sheets.drop_last(), today, now);
        let found = sheet_missing(sheets.last(), today, now);
        if found.len() > 0 {
            before.insert(sheets.last().name@, found)
        } else {
            before
        }
    }
}

/// The cell of `row` in column `i`, if the row reaches that far.
pub fn cell_at(row: &Vec<RawCell>, i: usize) -> (r: Option<&RawCell>)
    ensures
        match r {
            Some(c) => row_cell(row@, i as int) == Some(*c),
            None => row_cell(row@, i as int) is None,
        },
{
    if i < row.len() {
        Some(&row[i])
    } else {
        None
    }
}

/// Classifies a row by its date, time and completion cells.
pub fn classify_row(row: &Vec<RawCell>, today: &str, now: &TimeOfDay) -> (r: Classification)
    ensures
        r@ == row_verdict(row@, today@, *now),
{
    let date = date_of_cell(cell_at(row, DATE_COLUMN));
    let completed = is_completed(cell_at(row, COMPLETION_COLUMN));
    let time = time_of_cell(cell_at(row, TIME_COLUMN));
    let date_text = match &date {
        Some(s) => Some(s.as_str()),
        None => None,
    };
    let time_text = match &time {
        Some(s) => Some(s.as_str()),
        None => None,
    };
    classify(date_text, time_text, completed, today, now)
}

/// The entries of the missing rows, from top to bottom.
pub fn scan_rows(rows: &Vec<Vec<RawCell>>, today: &str, now: &TimeOfDay) -> (found: Vec<String>)
    ensures
        texts(found@) == missing_in_rows(rows@, today@, *now),
{
    let mut found: Vec<String> = Vec::new();
    let mut i: usize = 0;
    assert(rows@.take(0) =~= Seq::<Vec<RawCell>>::empty());
    assert(texts(found@) =~= Seq::<Seq<char>>::empty());
    while i < rows.len()
        invariant
            i <= rows.len(),
            texts(found@) == missing_in_rows(rows@.take(i as int), today@, *now),
        decreases rows.len() - i,
    {
        assert(rows@.take(i as int + 1).drop_last() =~= rows@.take(i as int));
        assert(rows@.take(i as int + 1).last() == rows@[i as int]);
        let ghost held = texts(found@);
        match classify_row(&rows[i], today, now) {
            Classification::Missing(entry) => {
                found.push(entry);
                assert(texts(found@) =~= held.push(entry@));
            },
            _ => {},
        }
        i += 1;
    }
    assert(rows@.take(i as int) =~= rows@);
    found
}

/// Scans a sheet: the entries of its missing rows from top to bottom, or an
/// error where the sheet could not be read.
pub fn scan(sheet: &SheetRead, today: &str, now: &TimeOfDay) -> (r: Result<Vec<String>, ScanError>)
    ensures
        match r {
            Ok(found) => sheet.rows matches Some(rows) && texts(found@) == missing_in_rows(
                rows@,
                today@,
                *now,
            ),
            Err(e) => sheet.rows is None && e == ScanError::SheetUnavailable,
        },
{
    match &sheet.rows {
        Some(rows) => Ok(scan_rows(rows, today, now)),
        None => Err(ScanError::SheetUnavailable),
    }
}

/// Runs the detection over the managed sheets in their order. A sheet that
/// could not be read adds nothing and stops nothing.
pub fn check_for_missed_notifications(sheets: &Vec<SheetRead>, today: &str, now: &TimeOfDay) -> (r:
    NotificationList)
    ensures
        r.wf(),
        r@ == detection(sheets@, today@, *now),
{
    let mut list = NotificationList::new();
    let mut i: usize = 0;
    assert(sheets@.take(0) =~= Seq::<SheetRead>::empty());
    while i < sheets.len()
        invariant
            i <= sheets.len(),
            list.wf(),
            list@ == detection(sheets@.take(i as int), today@, *now),
        decreases sheets.len() - i,
    {
        assert(sheets@.take(i as int + 1).drop_last() =~= sheets@.take(i as int));
        assert(sheets@.take(i as int + 1).last() == sheets@[i as int]);
        match scan(&sheets[i], today, now) {
            Ok(found) => {
                if found.len() > 0 {
                    list.insert(sheets[i].name.clone(), found);
                }
            },
            Err(_) => {},
        }
        i += 1;
    }
    assert(sheets@.take(i as int) =~= sheets@);
    list
}

/// The entries of a sheet stand in the order of its rows: what the rows down
/// to any row give is the beginning of what the rows further down give.
pub proof fn lemma_scan_keeps_row_order(
    rows: Seq<Vec<RawCell>>,
    today: Seq<char>,
    now: TimeOfDay,
    i: int,
    j: int,
)
    requires
        0 <= i <= j <= rows.len(),
    ensures
        missing_in_rows(rows.take(i), today, now).is_prefix_of(
            missing_in_rows(rows.take(j), today, now),
        ),
    decreases j - i,
{
    if i < j {
        lemma_scan_keeps_row_order(rows, today, now, i, j - 1);
        assert(rows.take(j).drop_last() =~= rows.take(j - 1));
        let above = missing_in_rows(rows.take(j - 1), today, now);
        let all = missing_in_rows(rows.take(j), today, now);
        assert(above.is_prefix_of(all));
        let first = missing_in_rows(rows.take(i), today, now);
        assert(first =~= all.subrange(0, first.len() as int)) by {
            assert(first == above.subrange(0, first.len() as int));
            assert(above == all.subrange(0, above.len() as int));
        }
    }
}

/// A sheet that could not be read leaves the outcome of a run as it was.
pub proof fn lemma_unread_sheet_adds_nothing(
    sheets: Seq<SheetRead>,
    unread: SheetRead,
    today: Seq<char>,
    now: TimeOfDay,
)
    requires
        unread.rows is None,
    ensures
        detection(sheets.push(unread), today, now) == detection(sheets, today, now),
{
    assert(sheets.push(unread).drop_last() =~= sheets);
}

/// A name stands in the outcome of a run only for a sheet that was read and
/// has a missing entry, and then with at least one entry.
pub proof fn lemma_detected_sheets(
    sheets: Seq<SheetRead>,
    today: Seq<char>,
    now: TimeOfDay,
    name: Seq<char>,
)
    requires
        detection(sheets, today, now).dom().contains(name),
    ensures
        detection(sheets, today, now)[name].len() > 0,
        exists|i: int|
            0 <= i < sheets.len() && (#[trigger] sheets[i]).name@ == name && sheets[i].rows is Some
                && detection(sheets, today, now)[name] == sheet_missing(sheets[i], today, now),
    decreases sheets.len(),
{
    let found = sheet_missing(sheets.last(), today, now);
    if found.len() > 0 && sheets.last().name@ == name {
        let i = sheets.len() - 1;
        assert(sheets[i].name@ == name && sheets[i].rows is Some);
    } else {
        lemma_detected_sheets(sheets.drop_last(), today, now, name);
        let i = choose|i: int|
            0 <= i < sheets.drop_last().len() && (#[trigger] sheets.drop_last()[i]).name@ == name
                && sheets.drop_last()[i].rows is Some && detection(
                sheets.drop_last(),
                today,
                now,
            )[name] == sheet_missing(sheets.drop_last()[i], today, now);
        assert(sheets[i] == sheets.drop_last()[i]);
    }
}

/// Two runs over the same sheets at the same moment hold the same sheets with
/// the same entries in the same order.
pub proof fn lemma_run_is_repeatable(
    first: NotificationList,
    second: NotificationList,
    sheets: Seq<SheetRead>,
    today: Seq<char>,
    now: TimeOfDay,
)
    requires
        first.wf(),
        second.wf(),
        first@ == detection(sheets, today, now),
        second@ == detection(sheets, today, now),
    ensures
        first.sections() == second.sections(),
{
    lemma_rising_unique(first.sections(), second.sections());
}

} // verus!
