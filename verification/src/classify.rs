//! The verdict on one row of a schedule: missing, not due, or skipped.

use crate::clock::{parse_time_of_day, time_of_text, TimeOfDay, NANOS_PER_SECOND};
use crate::text::str_equal;
use vstd::prelude::*;
use vstd::string::StringExecFns;

verus! {

/// The grace period after a scheduled time, in seconds: nine minutes.
pub const GRACE_PERIOD_SECONDS: i64 = 540;

/// The grace period in nanoseconds.
pub const GRACE_PERIOD_NANOS: i64 = 540_000_000_000;

/// The verdict on a row. A missing row carries its entry, the date and the
/// time with one blank between them.
#[derive(Debug, PartialEq, Eq)]
pub enum Classification {
    Missing(String),
    NotDue,
    Skipped,
}

/// A verdict as a mathematical value.
pub enum Verdict {
    Missing(Seq<char>),
    NotDue,
    Skipped,
}

impl View for Classification {
    type V = Verdict;

    open spec fn view(&self) -> Verdict {
        match self {
            Classification::Missing(entry) => Verdict::Missing(entry@),
            Classification::NotDue => Verdict::NotDue,
            Classification::Skipped => Verdict::Skipped,
        }
    }
}

/// The characters of an optional text.
pub open spec fn text_of(t: Option<&str>) -> Option<Seq<char>> {
    match t {
        Some(s) => Some(s@),
        None => None,
    }
}

/// The entry of a missing row.
pub open spec fn missing_entry(date: Seq<char>, time: Seq<char>) -> Seq<char> {
    date + seq![' '] + time
}

/// Whether a row scheduled at `due` has run out of its grace period at `now`.
pub open spec fn grace_expired(due: TimeOfDay, now: TimeOfDay) -> bool {
    due.before(now) && now.nanos_since(due) >= GRACE_PERIOD_NANOS
}

/// The verdict on a row, given the reading `due` of its time text.
pub open spec fn verdict_given(
    date: Option<Seq<char>>,
    time: Option<Seq<char>>,
    completed: bool,
    today: Seq<char>,
    now: TimeOfDay,
    due: Option<TimeOfDay>,
) -> Verdict {
    if date != Some(today) || completed {
        Verdict::NotDue
    } else if time is None || due is None {
        Verdict::Skipped
    } else if grace_expired(due->0, now) {
        Verdict::Missing(missing_entry(today, time->0))
    } else {
        Verdict::NotDue
    }
}

/// The verdict on a row.
pub open spec fn verdict(
    date: Option<Seq<char>>,
    time: Option<Seq<char>>,
    completed: bool,
    today: Seq<char>,
    now: TimeOfDay,
) -> Verdict {
    verdict_given(
        date,
        time,
        completed,
        today,
        now,
        match time {
            Some(t) => time_of_text(t),
            None => None,
        },
    )
}

/// Classifies a row whose time text has been read as `due`.
pub fn classify_with_due(
    date: Option<&str>,
    time: Option<&str>,
    completed: bool,
    today: &str,
    now: &TimeOfDay,
    due: Option<TimeOfDay>,
) -> (r: Classification)
    ensures
        r@ == verdict_given(text_of(date), text_of(time), completed, today@, *now, due),
        completed ==> r@ is NotDue,
        text_of(date) != Some(today@) ==> r@ is NotDue,
{
    let for_today = match date {
        Some(d) => str_equal(d, today),
        None => false,
    };
    if !for_today || completed {
        return Classification::NotDue;
    }
    match (time, due) {
        (Some(text), Some(at)) => {
            if at.is_before(now) && now.elapsed_nanos_since(&at) >= GRACE_PERIOD_NANOS {
                let mut entry = String::from_str(today);
                entry.push(' ');
                entry.append(text);
                assert(entry@ =~= missing_entry(today@, text@));
                Classification::Missing(entry)
            } else {
                Classification::NotDue
            }
        },
        _ => Classification::Skipped,
    }
}

/// Classifies a row: not due unless it is for today and open; skipped where
/// its time is absent or is no time of day; missing once the scheduled time
/// lies at least the grace period before `now`.
pub fn classify(
    date: Option<&str>,
    time: Option<&str>,
    completed: bool,
    today: &str,
    now: &TimeOfDay,
) -> (r: Classification)
    ensures
        r@ == verdict(text_of(date), text_of(time), completed, today@, *now),
        completed ==> r@ is NotDue,
        text_of(date) != Some(today@) ==> r@ is NotDue,
{
    let due = match time {
        Some(text) => parse_time_of_day(text),
        None => None,
    };
    classify_with_due(date, time, completed, today, now, due)
}

/// A row that is completed, or whose date is not today's, is not due, whatever
/// its time says and whatever the hour.
pub proof fn lemma_done_or_other_day_is_not_due(
    date: Option<Seq<char>>,
    time: Option<Seq<char>>,
    completed: bool,
    today: Seq<char>,
    now: TimeOfDay,
)
    requires
        completed || date != Some(today),
    ensures
        verdict(date, time, completed, today, now) is NotDue,
{
}

/// A row for today that is open and due at `due` is missing exactly when
/// `due` lies before `now` by the grace period or more; a row due exactly
/// the grace period ago is missing already.
pub proof fn lemma_grace_decides(
    time: Seq<char>,
    today: Seq<char>,
    now: TimeOfDay,
    due: TimeOfDay,
)
    ensures
        verdict_given(Some(today), Some(time), false, today, now, Some(due)) is Missing
            <==> grace_expired(due, now),
        !grace_expired(due, now) ==> verdict_given(
            Some(today),
            Some(time),
            false,
            today,
            now,
            Some(due),
        ) is NotDue,
{
}

/// The boundary of the grace period for two times on the second of one day:
/// `gap` seconds after the scheduled time the row is missing where `gap` is
/// the grace period or more, and not due where it is less.
pub proof fn lemma_grace_boundary(
    time: Seq<char>,
    today: Seq<char>,
    now: TimeOfDay,
    due: TimeOfDay,
    gap: int,
)
    requires
        now.frac < NANOS_PER_SECOND,
        due.frac == now.frac,
        now.secs == due.secs + gap,
    ensures
        gap >= GRACE_PERIOD_SECONDS ==> verdict_given(
            Some(today),
            Some(time),
            false,
            today,
            now,
            Some(due),
        ) == Verdict::Missing(missing_entry(today, time)),
        gap < GRACE_PERIOD_SECONDS ==> verdict_given(
            Some(today),
            Some(time),
            false,
            today,
            now,
            Some(due),
        ) is NotDue,
{
    assert(now.leap_between(due) == 0);
    assert(now.nanos_since(due) == gap * NANOS_PER_SECOND);
}

} // verus!
