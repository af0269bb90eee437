use schedule_watch::cell::RawCell;
use schedule_watch::clock::TimeOfDay;
use schedule_watch::detect::{check_for_missed_notifications, SheetRead};
use schedule_watch::scheduler::{
    is_minute_before_trigger, is_trigger_minute, notification_message, notification_title, step,
    waiting_sleep_seconds, SchedulerAction, SchedulerEvent, SchedulerState, Transition,
    FAILURE_BACKOFF_SECONDS, POST_TRIGGER_SLEEP_SECONDS, SHORT_POLL_SECONDS,
};

#[test]
fn four_minutes_of_the_hour_trigger_a_run() {
    for minute in 0..60u32 {
        let expected = minute == 11 || minute == 26 || minute == 41 || minute == 56;
        assert_eq!(is_trigger_minute(minute), expected);
        let before = minute == 10 || minute == 25 || minute == 40 || minute == 55;
        assert_eq!(is_minute_before_trigger(minute), before);
    }
    assert!(!is_trigger_minute(71));
}

#[test]
fn waiting_sleeps_to_the_next_minute_but_shortly_before_a_trigger() {
    assert_eq!(waiting_sleep_seconds(12, 15), 45);
    assert_eq!(waiting_sleep_seconds(12, 59), 1);
    assert_eq!(waiting_sleep_seconds(12, 1), 59);
    assert_eq!(waiting_sleep_seconds(12, 0), 1);
    assert_eq!(waiting_sleep_seconds(10, 0), 1);
    assert_eq!(waiting_sleep_seconds(25, 30), 1);
    assert_eq!(waiting_sleep_seconds(40, 59), 1);
    assert_eq!(waiting_sleep_seconds(55, 1), 1);
    assert_eq!(SHORT_POLL_SECONDS, 1);
    for minute in 0..60u32 {
        for second in 0..60u32 {
            let sleep = waiting_sleep_seconds(minute, second);
            assert!(1 <= sleep && second as u64 + sleep <= 60);
        }
    }
}

#[test]
fn the_clock_moves_a_waiting_poller() {
    let run = Some(Transition { next: SchedulerState::Triggered, action: SchedulerAction::RunDetection });
    assert_eq!(step(SchedulerState::Waiting, SchedulerEvent::Clock { minute: 11, second: 0 }), run);
    assert_eq!(step(SchedulerState::Waiting, SchedulerEvent::Clock { minute: 56, second: 59 }), run);
    assert_eq!(
        step(SchedulerState::Waiting, SchedulerEvent::Clock { minute: 12, second: 20 }),
        Some(Transition { next: SchedulerState::Waiting, action: SchedulerAction::Sleep { seconds: 40 } })
    );
    assert_eq!(
        step(SchedulerState::Waiting, SchedulerEvent::Clock { minute: 10, second: 20 }),
        Some(Transition { next: SchedulerState::Waiting, action: SchedulerAction::Sleep { seconds: 1 } })
    );
}

#[test]
fn the_end_of_a_run_moves_a_triggered_poller() {
    assert_eq!(
        step(SchedulerState::Triggered, SchedulerEvent::RunSucceeded { total_missing: 3 }),
        Some(Transition {
            next: SchedulerState::Waiting,
            action: SchedulerAction::Publish { total_missing: 3, then_sleep: 65 },
        })
    );
    assert_eq!(
        step(SchedulerState::Triggered, SchedulerEvent::RunSucceeded { total_missing: 0 }),
        Some(Transition { next: SchedulerState::Waiting, action: SchedulerAction::Sleep { seconds: 65 } })
    );
    assert_eq!(
        step(SchedulerState::Triggered, SchedulerEvent::RunFailed),
        Some(Transition { next: SchedulerState::Waiting, action: SchedulerAction::Sleep { seconds: 60 } })
    );
    assert_eq!(POST_TRIGGER_SLEEP_SECONDS, 65);
    assert_eq!(FAILURE_BACKOFF_SECONDS, 60);
}

#[test]
fn an_event_that_the_state_does_not_wait_for_is_refused() {
    assert_eq!(step(SchedulerState::Waiting, SchedulerEvent::RunFailed), None);
    assert_eq!(step(SchedulerState::Waiting, SchedulerEvent::RunSucceeded { total_missing: 1 }), None);
    assert_eq!(step(SchedulerState::Triggered, SchedulerEvent::Clock { minute: 11, second: 0 }), None);
    assert_eq!(step(SchedulerState::Waiting, SchedulerEvent::Clock { minute: 60, second: 0 }), None);
    assert_eq!(step(SchedulerState::Waiting, SchedulerEvent::Clock { minute: 11, second: 60 }), None);
}

#[test]
fn the_count_takes_the_place_of_the_placeholder() {
    let template = Some(String::from("{count}개의 누락"));
    assert_eq!(notification_message(&template, 1), "1개의 누락");
    assert_eq!(notification_message(&template, 120), "120개의 누락");
    assert_eq!(notification_message(&None, 7), "7개의 누락된 데이터가 존재합니다!");
    assert_eq!(notification_message(&Some(String::from("plain")), 7), "plain");
    assert_eq!(notification_message(&Some(String::from("{count}/{count}")), 0), "0/0");
    assert_eq!(notification_title(&None), "알림");
    assert_eq!(notification_title(&Some(String::from("Missed"))), "Missed");
    assert_eq!(notification_title(&Some(String::new())), "");
}

#[test]
fn one_missing_entry_at_minute_eleven_is_published_with_its_count() {
    let first = step(SchedulerState::Waiting, SchedulerEvent::Clock { minute: 11, second: 5 }).unwrap();
    assert_eq!(first.action, SchedulerAction::RunDetection);
    let rows = vec![vec![
        RawCell::Empty,
        RawCell::Text(String::from("2024-01-01")),
        RawCell::Text(String::from("09:00:00")),
        RawCell::Empty,
    ]];
    let sheets = vec![SheetRead { name: String::from("Alpha"), rows: Some(rows) }];
    let now = TimeOfDay::from_hms(9, 11, 5).unwrap();
    let list = check_for_missed_notifications(&sheets, "2024-01-01", &now);
    assert_eq!(list.get("Alpha"), Some(&vec![String::from("2024-01-01 09:00:00")]));
    let event = SchedulerEvent::RunSucceeded { total_missing: list.total_missing() };
    let second = step(first.next, event).unwrap();
    assert_eq!(second.next, SchedulerState::Waiting);
    match second.action {
        SchedulerAction::Publish { total_missing, then_sleep } => {
            assert_eq!(then_sleep, 65);
            let template = Some(String::from("{count}개의 누락"));
            assert_eq!(notification_message(&template, total_missing), "1개의 누락");
        }
        _ => panic!("a run with a missing entry is published"),
    }
}
