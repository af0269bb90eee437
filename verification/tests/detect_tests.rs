use schedule_watch::cell::{RawCell, SerialNumber};
use schedule_watch::classify::Classification;
use schedule_watch::clock::TimeOfDay;
use schedule_watch::detect::{
    cell_at, check_for_missed_notifications, classify_row, scan, scan_rows, ScanError, SheetRead,
};
use schedule_watch::missing::NotificationList;
use schedule_watch::report::write_missing_report;

fn text(s: &str) -> RawCell {
    RawCell::Text(String::from(s))
}

fn row(date: &str, time: &str, done: &str) -> Vec<RawCell> {
    vec![text("label"), text(date), text(time), text(done)]
}

fn sheet(name: &str, rows: Vec<Vec<RawCell>>) -> SheetRead {
    SheetRead { name: String::from(name), rows: Some(rows) }
}

fn unread(name: &str) -> SheetRead {
    SheetRead { name: String::from(name), rows: None }
}

fn noon() -> TimeOfDay {
    TimeOfDay::from_hms(12, 0, 0).unwrap()
}

#[test]
fn a_row_is_read_by_its_second_third_and_fourth_cell() {
    let r = row("2024-01-01", "09:00:00", "");
    assert_eq!(cell_at(&r, 0), Some(&text("label")));
    assert_eq!(cell_at(&r, 3), Some(&text("")));
    assert_eq!(cell_at(&r, 4), None);
    assert_eq!(
        classify_row(&r, "2024-01-01", &noon()),
        Classification::Missing(String::from("2024-01-01 09:00:00"))
    );
    let done = row("2024-01-01", "09:00:00", "ok");
    assert_eq!(classify_row(&done, "2024-01-01", &noon()), Classification::NotDue);
    let swapped = vec![text("2024-01-01"), text("09:00:00"), text(""), text("")];
    assert_eq!(classify_row(&swapped, "2024-01-01", &noon()), Classification::NotDue);
}

#[test]
fn short_rows_lack_the_cells_they_do_not_reach() {
    let now = noon();
    assert_eq!(classify_row(&vec![], "2024-01-01", &now), Classification::NotDue);
    assert_eq!(classify_row(&vec![text("label")], "2024-01-01", &now), Classification::NotDue);
    let no_time = vec![text("label"), text("2024-01-01")];
    assert_eq!(classify_row(&no_time, "2024-01-01", &now), Classification::Skipped);
    let no_flag = vec![text("label"), text("2024-01-01"), text("09:00:00")];
    assert_eq!(
        classify_row(&no_flag, "2024-01-01", &now),
        Classification::Missing(String::from("2024-01-01 09:00:00"))
    );
}

#[test]
fn numeric_cells_are_read_as_date_and_time() {
    let date = RawCell::Timestamp(SerialNumber { days: 45292, seconds: 0 });
    let time = RawCell::Number(SerialNumber { days: 0, seconds: 32400 });
    let r = vec![RawCell::Empty, date, time, RawCell::Empty];
    assert_eq!(
        classify_row(&r, "2024-01-01", &noon()),
        Classification::Missing(String::from("2024-01-01 09:00:00"))
    );
    let late = RawCell::Number(SerialNumber { days: 1, seconds: 90000 });
    let date = RawCell::Timestamp(SerialNumber { days: 45292, seconds: 0 });
    let r = vec![RawCell::Empty, date, late, RawCell::Empty];
    assert_eq!(classify_row(&r, "2024-01-01", &noon()), Classification::Skipped);
}

#[test]
fn missing_entries_come_in_the_order_of_the_rows() {
    let rows = vec![
        row("2024-01-01", "11:00:00", ""),
        row("2024-01-01", "09:00:00", ""),
        row("2024-01-01", "10:00:00", "done"),
        row("2023-12-31", "08:00:00", ""),
        row("2024-01-01", "11:51:00", " "),
        row("2024-01-01", "11:51:01", ""),
        row("2024-01-01", "soon", ""),
        row("2024-01-01", "09:00:00", ""),
        row("2024-01-01", "13:00:00", ""),
    ];
    let found = scan_rows(&rows, "2024-01-01", &noon());
    assert_eq!(
        found,
        vec![
            String::from("2024-01-01 11:00:00"),
            String::from("2024-01-01 09:00:00"),
            String::from("2024-01-01 11:51:00"),
            String::from("2024-01-01 09:00:00"),
        ]
    );
    assert_eq!(scan_rows(&vec![], "2024-01-01", &noon()), Vec::<String>::new());
}

#[test]
fn a_sheet_that_was_not_read_is_an_error_of_the_scan() {
    assert_eq!(scan(&unread("Gone"), "2024-01-01", &noon()), Err(ScanError::SheetUnavailable));
    let s = sheet("Alpha", vec![row("2024-01-01", "09:00:00", "")]);
    assert_eq!(scan(&s, "2024-01-01", &noon()), Ok(vec![String::from("2024-01-01 09:00:00")]));
    assert_eq!(scan(&sheet("Empty", vec![]), "2024-01-01", &noon()), Ok(vec![]));
}

#[test]
fn a_sheet_that_does_not_exist_is_absent_and_the_others_are_scanned() {
    let sheets = vec![
        sheet("Beta", vec![row("2024-01-01", "10:00:00", "")]),
        unread("Gone"),
        sheet("Alpha", vec![row("2024-01-01", "09:00:00", "")]),
    ];
    let list = check_for_missed_notifications(&sheets, "2024-01-01", &noon());
    assert_eq!(list.len(), 2);
    assert_eq!(list.get("Gone"), None);
    assert_eq!(list.get("Alpha"), Some(&vec![String::from("2024-01-01 09:00:00")]));
    assert_eq!(list.get("Beta"), Some(&vec![String::from("2024-01-01 10:00:00")]));
    assert_eq!(list.name_at(0), "Alpha");
    assert_eq!(list.name_at(1), "Beta");
}

#[test]
fn a_sheet_without_missing_entries_is_absent() {
    let sheets = vec![
        sheet("Quiet", vec![row("2024-01-01", "09:00:00", "done"), row("2024-01-01", "13:00:00", "")]),
        sheet("NoRows", vec![]),
    ];
    let list = check_for_missed_notifications(&sheets, "2024-01-01", &noon());
    assert!(list.is_empty());
    assert_eq!(list.len(), 0);
    assert_eq!(list.total_missing(), 0);
    assert_eq!(list.get("Quiet"), None);
    let none = check_for_missed_notifications(&vec![], "2024-01-01", &noon());
    assert!(none.is_empty());
}

#[test]
fn two_runs_on_the_same_input_at_the_same_moment_agree() {
    let make = || {
        vec![
            sheet("Zeta", vec![row("2024-01-01", "09:00:00", ""), row("2024-01-01", "09:30:00", "")]),
            unread("Gone"),
            sheet("Alpha", vec![row("2024-01-01", "08:00:00", "")]),
            sheet("Zeta", vec![row("2024-01-01", "09:00:00", ""), row("2024-01-01", "09:30:00", "")]),
        ]
    };
    let first = check_for_missed_notifications(&make(), "2024-01-01", &noon());
    let second = check_for_missed_notifications(&make(), "2024-01-01", &noon());
    assert_eq!(first, second);
    assert_eq!(first.len(), 2);
    assert_eq!(first.total_missing(), 3);
    let mut a = String::new();
    let mut b = String::from("old");
    write_missing_report(&mut a, &first);
    write_missing_report(&mut b, &second);
    assert_eq!(a, b);
}

#[test]
fn a_name_read_twice_counts_once_with_what_was_read_last() {
    let sheets = vec![
        sheet("Alpha", vec![row("2024-01-01", "08:00:00", "")]),
        sheet("Alpha", vec![row("2024-01-01", "09:00:00", ""), row("2024-01-01", "10:00:00", "")]),
        unread("Alpha"),
        sheet("Alpha", vec![]),
    ];
    let list = check_for_missed_notifications(&sheets, "2024-01-01", &noon());
    assert_eq!(list.len(), 1);
    assert_eq!(
        list.get("Alpha"),
        Some(&vec![String::from("2024-01-01 09:00:00"), String::from("2024-01-01 10:00:00")])
    );
    assert_eq!(list.total_missing(), 2);
}

#[test]
fn nothing_is_missing_before_the_grace_period_has_run_out() {
    let sheets = vec![sheet("Alpha", vec![row("2024-01-01", "09:00:00", "")])];
    let early = TimeOfDay::from_hms(9, 8, 59).unwrap();
    assert!(check_for_missed_notifications(&sheets, "2024-01-01", &early).is_empty());
    let late = TimeOfDay::from_hms(9, 9, 0).unwrap();
    assert_eq!(check_for_missed_notifications(&sheets, "2024-01-01", &late).total_missing(), 1);
    assert!(check_for_missed_notifications(&sheets, "2024-01-02", &late).is_empty());
    assert_eq!(NotificationList::new().len(), 0);
}
