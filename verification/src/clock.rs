//! Times of day, as `chrono` holds them, and the reading of a clock text.

use chrono::NaiveTime;
use chrono::Timelike;
use vstd::prelude::*;

verus! {

/// Nanoseconds in a second.
pub const NANOS_PER_SECOND: u32 = 1_000_000_000;

/// Seconds in a day.
pub const SECONDS_PER_DAY: u32 = 86_400;

/// A time of day: whole seconds since midnight and nanoseconds into the
/// second. Nanoseconds from one second up stand for a leap second, which can
/// only follow the 59th second of a minute.
#[derive(Clone, Copy, Debug, PartialEq, Eq, Structural)]
pub struct TimeOfDay {
    pub secs: u32,
    pub frac: u32,
}

impl TimeOfDay {
    /// Whether the value is a time of day that a clock can show.
    pub open spec fn wf(self) -> bool {
        &&& self.secs < SECONDS_PER_DAY
        &&& self.frac < 2 * NANOS_PER_SECOND
        &&& (self.frac >= NANOS_PER_SECOND ==> self.secs % 60 == 59)
    }

    /// Whether `self` is strictly earlier than `other`.
    pub open spec fn before(self, other: TimeOfDay) -> bool {
        self.secs < other.secs || (self.secs == other.secs && self.frac < other.frac)
    }

    /// The leap second that lies between `earlier` and `self`, counted once:
    /// 1 where `earlier` is inside one and `self` in a later second, -1 the
    /// other way round.
    pub open spec fn leap_between(self, earlier: TimeOfDay) -> int {
        if self.secs > earlier.secs && earlier.frac >= NANOS_PER_SECOND {
            1
        } else if self.secs < earlier.secs && self.frac >= NANOS_PER_SECOND {
            -1
        } else {
            0
        }
    }

    /// Nanoseconds from `earlier` to `self`; negative where `self` is the
    /// earlier one.
    pub open spec fn nanos_since(self, earlier: TimeOfDay) -> int {
        (self.secs - earlier.secs + self.leap_between(earlier)) * NANOS_PER_SECOND + (self.frac
            - earlier.frac)
    }

    /// The time `secs` seconds after midnight and `frac` nanoseconds into that
    /// second, where there is such a time.
    pub fn new(secs: u32, frac: u32) -> (r: Option<TimeOfDay>)
        ensures
            r == if (TimeOfDay { secs, frac }).wf() {
                Some(TimeOfDay { secs, frac })
            } else {
                None::<TimeOfDay>
            },
    {
        if secs >= SECONDS_PER_DAY || frac >= 2 * NANOS_PER_SECOND || (frac >= NANOS_PER_SECOND
            && secs % 60 != 59) {
            None
        } else {
            Some(TimeOfDay { secs, frac })
        }
    }

    /// The time `hour:minute:second` on the second, where there is such a time.
    pub fn from_hms(hour: u32, minute: u32, second: u32) -> (r: Option<TimeOfDay>)
        ensures
            r == if hour < 24 && minute < 60 && second < 60 {
                Some(TimeOfDay { secs: (hour * 3600 + minute * 60 + second) as u32, frac: 0 })
            } else {
                None::<TimeOfDay>
            },
            r matches Some(t) ==> t.wf(),
    {
        if hour < 24 && minute < 60 && second < 60 {
            Some(TimeOfDay { secs: hour * 3600 + minute * 60 + second, frac: 0 })
        } else {
            None
        }
    }

    /// Whether `self` is strictly earlier than `other`.
    pub fn is_before(&self, other: &TimeOfDay) -> (r: bool)
        ensures
            r == self.before(*other),
    {
        self.secs < other.secs || (self.secs == other.secs && self.frac < other.frac)
    }

    /// Nanoseconds from `earlier` to `self`, a leap second between the two
    /// counted in.
    pub fn elapsed_nanos_since(&self, earlier: &TimeOfDay) -> (r: i64)
        ensures
            r == self.nanos_since(*earlier),
    {
        let mut secs: i64 = self.secs as i64 - earlier.secs as i64;
        if self.secs > earlier.secs && earlier.frac >= NANOS_PER_SECOND {
            secs = secs + 1;
        } else if self.secs < earlier.secs && self.frac >= NANOS_PER_SECOND {
            secs = secs - 1;
        }
        secs * 1_000_000_000 + (self.frac as i64 - earlier.frac as i64)
    }
}

/// What `chrono` reads out of a text in the form hours, colon, minutes, colon,
/// seconds: the seconds since midnight and the nanoseconds of the time, or
/// nothing where it does not take the text for a time.
pub uninterp spec fn clock_reading(text: Seq<char>) -> Option<(u32, u32)>;

/// The reading of a text as a time of day.
pub open spec fn time_of_text(text: Seq<char>) -> Option<TimeOfDay> {
    match clock_reading(text) {
        Some((secs, frac)) => Some(TimeOfDay { secs, frac }),
        None => None,
    }
}

/// `NaiveTime::parse_from_str` of `chrono` with the format `%H:%M:%S`, and the
/// two numbers a `NaiveTime` is made of. The result is a function of the text
/// alone; a time that comes out is one that `NaiveTime` can hold.
#[verifier::external_body]
pub(crate) fn parse_clock_text(text: &str) -> (r: Option<TimeOfDay>)
    ensures
        match r {
            Some(t) => clock_reading(text@) == Some((t.secs, t.frac)) && t.wf(),
            None => clock_reading(text@) is None,
        },
{
    match NaiveTime::parse_from_str(text, "%H:%M:%S") {
        Ok(t) => Some(TimeOfDay { secs: t.num_seconds_from_midnight(), frac: t.nanosecond() }),
        Err(_) => None,
    }
}

/// The time of day that `text` names, where it names one.
pub fn parse_time_of_day(text: &str) -> (r: Option<TimeOfDay>)
    ensures
        r == time_of_text(text@),
        r matches Some(t) ==> t.wf(),
{
    parse_clock_text(text)
}

} // verus!
