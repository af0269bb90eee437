//! The decisions of the poller: when to run a detection, how long to sleep,
//! and what the notifier is told.

use crate::text::{decimal, optional_text, push_decimal, replace_all, replaced};
use vstd::prelude::*;
use vstd::string::StringExecFns;

verus! {

/// Seconds to sleep after a triggered cycle, so that the same minute does not
/// trigger twice.
pub const POST_TRIGGER_SLEEP_SECONDS: u64 = 65;

/// Seconds to sleep after a detection run that failed.
pub const FAILURE_BACKOFF_SECONDS: u64 = 60;

/// Seconds between two looks at the clock in the minute before a trigger.
pub const SHORT_POLL_SECONDS: u64 = 1;

/// Whether a detection runs in this minute of the hour.
pub open spec fn trigger_minute(minute: u32) -> bool {
    minute == 11 || minute == 26 || minute == 41 || minute == 56
}

/// Whether this minute of the hour is the one before a trigger.
pub open spec fn minute_before_trigger(minute: u32) -> bool {
    minute == 10 || minute == 25 || minute == 40 || minute == 55
}

/// Seconds to sleep while waiting: one in the minute before a trigger, else
/// up to the next minute, and one at the start of a minute.
pub open spec fn waiting_sleep(minute: u32, second: u32) -> int {
    if minute_before_trigger(minute) || second == 0 {
        1
    } else {
        60 - second
    }
}

/// Whether a detection runs in this minute of the hour.
pub fn is_trigger_minute(minute: u32) -> (r: bool)
    ensures
        r == trigger_minute(minute),
{
    minute == 11 || minute == 26 || minute == 41 || minute == 56
}

/// Whether this minute of the hour is the one before a trigger.
pub fn is_minute_before_trigger(minute: u32) -> (r: bool)
    ensures
        r == minute_before_trigger(minute),
{
    minute == 10 || minute == 25 || minute == 40 || minute == 55
}

/// Seconds to sleep while waiting. The sleep never reaches past the start of
/// the next minute.
pub fn waiting_sleep_seconds(minute: u32, second: u32) -> (r: u64)
    requires
        second < 60,
    ensures
        r == waiting_sleep(minute, second),
        1 <= r,
        second + r <= 60,
{
    if is_minute_before_trigger(minute) {
        SHORT_POLL_SECONDS
    } else {
        let left: u32 = (60 - second) % 60;
        if left < 1 {
            1
        } else {
            left as u64
        }
    }
}

/// The two states of the poller.
#[derive(Clone, Copy, Debug, PartialEq, Eq, Structural)]
pub enum SchedulerState {
    /// Between detection runs, looking at the clock.
    Waiting,
    /// A detection run was asked for and has not reported yet.
    Triggered,
}

/// What the poller is told.
#[derive(Clone, Copy, Debug, PartialEq, Eq, Structural)]
pub enum SchedulerEvent {
    /// The wall clock shows this minute of the hour and this second.
    Clock { minute: u32, second: u32 },
    /// The detection run ended with this many missing entries in all.
    RunSucceeded { total_missing: u128 },
    /// The detection run could not be made.
    RunFailed,
}

/// What the poller asks for.
#[derive(Clone, Copy, Debug, PartialEq, Eq, Structural)]
pub enum SchedulerAction {
    /// Sleep, then report the clock.
    Sleep { seconds: u64 },
    /// Make a detection run, then report how it ended.
    RunDetection,
    /// Write the report and call the notifier with the count, then sleep and
    /// report the clock.
    Publish { total_missing: u128, then_sleep: u64 },
}

/// A step of the poller: the state it goes to and what it asks for.
#[derive(Clone, Copy, Debug, PartialEq, Eq, Structural)]
pub struct Transition {
    pub next: SchedulerState,
    pub action: SchedulerAction,
}

/// The step that `state` takes on `event`, or nothing where the event is not
/// one that the state waits for: a run's end while waiting, the clock while a
/// run is under way, or a clock that shows no minute or second.
pub open spec fn transition(state: SchedulerState, event: SchedulerEvent) -> Option<Transition> {
    match (state, event) {
        (SchedulerState::Waiting, SchedulerEvent::Clock { minute, second }) => {
            if minute >= 60 || second >= 60 {
                None
            } else if trigger_minute(minute) {
                Some(
                    Transition {
                        next: SchedulerState::Triggered,
                        action: SchedulerAction::RunDetection,
                    },
                )
            } else {
                Some(
                    Transition {
                        next: SchedulerState::Waiting,
                        action: SchedulerAction::Sleep {
                            seconds: waiting_sleep(minute, second) as u64,
                        },
                    },
                )
            }
        },
        (SchedulerState::Triggered, SchedulerEvent::RunSucceeded { total_missing }) => {
            if total_missing > 0 {
                Some(
                    Transition {
                        next: SchedulerState::Waiting,
                        action: SchedulerAction::Publish {
                            total_missing,
                            then_sleep: POST_TRIGGER_SLEEP_SECONDS,
                        },
                    },
                )
            } else {
                Some(
                    Transition {
                        next: SchedulerState::Waiting,
                        action: SchedulerAction::Sleep { seconds: POST_TRIGGER_SLEEP_SECONDS },
                    },
                )
            }
        },
        (SchedulerState::Triggered, SchedulerEvent::RunFailed) => Some(
            Transition {
                next: SchedulerState::Waiting,
                action: SchedulerAction::Sleep { seconds: FAILURE_BACKOFF_SECONDS },
            },
        ),
        _ => None,
    }
}

/// Takes a step of the poller.
pub fn step(state: SchedulerState, event: SchedulerEvent) -> (r: Option<Transition>)
    ensures
        r == transition(state, event),
{
    match (state, event) {
        (SchedulerState::Waiting, SchedulerEvent::Clock { minute, second }) => {
            if minute >= 60 || second >= 60 {
                None
            } else if is_trigger_minute(minute) {
                Some(
                    Transition {
                        next: SchedulerState::Triggered,
                        action: SchedulerAction::RunDetection,
                    },
                )
            } else {
                Some(
                    Transition {
                        next: SchedulerState::Waiting,
                        action: SchedulerAction::Sleep {
                            seconds: waiting_sleep_seconds(minute, second),
                        },
                    },
                )
            }
        },
        (SchedulerState::Triggered, SchedulerEvent::RunSucceeded { total_missing }) => {
            if total_missing > 0 {
                Some(
                    Transition {
                        next: SchedulerState::Waiting,
                        action: SchedulerAction::Publish {
                            total_missing,
                            then_sleep: POST_TRIGGER_SLEEP_SECONDS,
                        },
                    },
                )
            } else {
                Some(
                    Transition {
                        next: SchedulerState::Waiting,
                        action: SchedulerAction::Sleep { seconds: POST_TRIGGER_SLEEP_SECONDS },
                    },
                )
            }
        },
        (SchedulerState::Triggered, SchedulerEvent::RunFailed) => Some(
            Transition {
                next: SchedulerState::Waiting,
                action: SchedulerAction::Sleep { seconds: FAILURE_BACKOFF_SECONDS },
            },
        ),
        _ => None,
    }
}

/// The poller has no last state: whatever a step asks for, the state it goes
/// to takes a step on what comes back, and a state is left for `Triggered`
/// only in a trigger minute.
pub proof fn lemma_poller_never_ends(state: SchedulerState, event: SchedulerEvent)
    requires
        transition(state, event) is Some,
    ensures
        ({
            let t = transition(state, event)->0;
            match t.action {
                SchedulerAction::RunDetection => {
                    &&& t.next == SchedulerState::Triggered
                    &&& event matches SchedulerEvent::Clock { minute, .. } && trigger_minute(minute)
                    &&& transition(t.next, SchedulerEvent::RunFailed) is Some
                    &&& forall|n: u128|
                        (#[trigger] transition(
                            t.next,
                            SchedulerEvent::RunSucceeded { total_missing: n },
                        )) is Some
                },
                _ => {
                    &&& t.next == SchedulerState::Waiting
                    &&& forall|minute: u32, second: u32|
                        minute < 60 && second < 60 ==> (#[trigger] transition(
                            t.next,
                            SchedulerEvent::Clock { minute, second },
                        )) is Some
                },
            }
        }),
{
}

/// The title that stands where none is configured.
pub open spec fn default_title() -> Seq<char> {
    "알림"@
}

/// The message template that stands where none is configured.
pub open spec fn default_message_template() -> Seq<char> {
    "{count}개의 누락된 데이터가 존재합니다!"@
}

/// The placeholder of a message template for the number of missing entries.
pub open spec fn count_placeholder() -> Seq<char> {
    "{count}"@
}

/// The title of a notification.
pub open spec fn title_text(configured: Option<Seq<char>>) -> Seq<char> {
    match configured {
        Some(title) => title,
        None => default_title(),
    }
}

/// The message of a notification: the template with the decimal numeral of
/// the count in place of each placeholder.
pub open spec fn message_text(template: Option<Seq<char>>, total_missing: nat) -> Seq<char> {
    replaced(
        match template {
            Some(t) => t,
            None => default_message_template(),
        },
        count_placeholder(),
        decimal(total_missing),
    )
}

/// The title of a notification: the configured one, or the default.
pub fn notification_title(configured: &Option<String>) -> (title: String)
    ensures
        title@ == title_text(optional_text(*configured)),
{
    match configured {
        Some(title) => title.clone(),
        None => String::from_str("알림"),
    }
}

/// The message of a notification for `total_missing` missing entries, from
/// the configured template or the default.
pub fn notification_message(template: &Option<String>, total_missing: u128) -> (message: String)
    ensures
        message@ == message_text(optional_text(*template), total_missing as nat),
{
    let mut count = String::new();
    push_decimal(&mut count, total_missing);
    assert(count@ =~= decimal(total_missing as nat));
    match template {
        Some(t) => replace_all(t.as_str(), "{count}", count.as_str()),
        None => replace_all("{count}개의 누락된 데이터가 존재합니다!", "{count}", count.as_str()),
    }
}

} // verus!
