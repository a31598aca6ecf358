use calendar_grid::date::{days_in_month, is_leap_year, leading_offset, CalendarDate, InvalidDate};
use calendar_grid::grid::{is_selected, resolve_cell, week_row_count, CellContent, Membership};
use calendar_grid::labels::weekday_labels;

#[test]
fn leap_year_rule() {
    assert_eq!(days_in_month(2, 2000), 29);
    assert_eq!(days_in_month(2, 1900), 28);
    assert_eq!(days_in_month(2, 2024), 29);
    assert_eq!(days_in_month(2, 2023), 28);
    assert!(is_leap_year(2000));
    assert!(!is_leap_year(1900));
    assert!(is_leap_year(2024));
    assert!(!is_leap_year(2023));
}

#[test]
fn month_lengths() {
    let lengths = [31, 28, 31, 30, 31, 30, 31, 31, 30, 31, 30, 31];
    for month in 1..=12u32 {
        assert_eq!(days_in_month(month, 2023), lengths[(month - 1) as usize]);
    }
}

#[test]
fn leading_offsets() {
    // March 1, 2024 falls on a Friday; the week starts on Sunday.
    assert_eq!(leading_offset(2024, 3), 5);
    // January 1, 2024 falls on a Monday.
    assert_eq!(leading_offset(2024, 1), 1);
    // January 1 of year 1 falls on a Monday in the proleptic calendar.
    assert_eq!(leading_offset(1, 1), 1);
    // January 1, 2000 falls on a Saturday.
    assert_eq!(leading_offset(2000, 1), 6);
}

#[test]
fn march_2024_first_cell_is_february_25() {
    let cell = resolve_cell(0, 0, 2024, 3).unwrap();
    assert_eq!(cell.membership, Membership::PreviousMonth);
    assert_eq!(cell.day_number, 25);
}

#[test]
fn january_2024_rolls_over_from_december_2023() {
    // January 1, 2024 is a Monday, so only the Sunday cell leads in, and it
    // shows the last day of December 2023.
    assert_eq!(leading_offset(2024, 1), 1);
    let cell = resolve_cell(0, 0, 2024, 1).unwrap();
    assert_eq!(cell.membership, Membership::PreviousMonth);
    assert_eq!(cell.day_number, days_in_month(12, 2023));
    assert_eq!(cell.day_number, 31);
    let first = resolve_cell(0, 1, 2024, 1).unwrap();
    assert_eq!(first.membership, Membership::CurrentMonth);
    assert_eq!(first.day_number, 1);
}

#[test]
fn december_rolls_over_into_january() {
    // December 2024 has 31 days and starts on a Sunday, so the view ends
    // with leading days of January 2025.
    assert_eq!(leading_offset(2024, 12), 0);
    let rows = week_row_count(2024, 12);
    assert_eq!(rows, 5);
    let last = resolve_cell((rows - 1) as usize, 6, 2024, 12).unwrap();
    assert_eq!(last.membership, Membership::NextMonth);
    assert_eq!(last.day_number, 4);
}

#[test]
fn week_row_counts() {
    // March 2024: offset 5 + 31 days = 36 cells, so 6 rows.
    assert_eq!(week_row_count(2024, 3), 6);
    // February 2021: offset 1 + 28 days = 29 cells, so 5 rows.
    assert_eq!(week_row_count(2021, 2), 5);
    // February 2026 starts on a Sunday and fills exactly 4 rows.
    assert_eq!(leading_offset(2026, 2), 0);
    assert_eq!(week_row_count(2026, 2), 4);
}

#[test]
fn week_rows_cover_the_month_and_are_minimal() {
    for year in [1, 1900, 2000, 2023, 2024, 2026, 9999] {
        for month in 1..=12u32 {
            let rows = week_row_count(year, month);
            let used = leading_offset(year, month) + days_in_month(month, year);
            assert!(rows * 7 >= used);
            assert!((rows - 1) * 7 < used);
        }
    }
}

#[test]
fn row_major_scan_counts_the_month_once() {
    for (year, month) in [(2024, 3), (2024, 1), (2023, 2), (2024, 2), (1, 1), (9999, 12)] {
        let rows = week_row_count(year, month);
        let mut current: Vec<u32> = Vec::new();
        let mut first_day_cells = 0;
        for row in 0..rows as usize {
            for column in 0..7 {
                let cell = resolve_cell(row, column, year, month).unwrap();
                assert!(cell.day_number >= 1 && cell.day_number <= 31);
                if cell.membership == Membership::CurrentMonth {
                    if cell.day_number == 1 {
                        first_day_cells += 1;
                    }
                    current.push(cell.day_number);
                }
            }
        }
        assert_eq!(first_day_cells, 1);
        let expected: Vec<u32> = (1..=days_in_month(month, year)).collect();
        assert_eq!(current, expected);
    }
}

#[test]
fn invalid_inputs_are_refused() {
    assert_eq!(resolve_cell(0, 0, 2024, 0), Err(InvalidDate));
    assert_eq!(resolve_cell(0, 0, 2024, 13), Err(InvalidDate));
    assert_eq!(resolve_cell(0, 0, 0, 1), Err(InvalidDate));
    assert_eq!(resolve_cell(0, 0, -5, 1), Err(InvalidDate));
    assert!(resolve_cell(5, 6, 2024, 12).is_ok());
}

#[test]
fn date_validation() {
    assert!(CalendarDate::new(2024, 2, 29).is_ok());
    assert_eq!(CalendarDate::new(2023, 2, 29), Err(InvalidDate));
    assert_eq!(CalendarDate::new(2024, 4, 31), Err(InvalidDate));
    assert_eq!(CalendarDate::new(2024, 13, 1), Err(InvalidDate));
    assert_eq!(CalendarDate::new(2024, 0, 1), Err(InvalidDate));
    assert_eq!(CalendarDate::new(0, 1, 1), Err(InvalidDate));
    assert_eq!(CalendarDate::new(2024, 3, 0), Err(InvalidDate));
    let date = CalendarDate::new(2024, 3, 15).unwrap();
    assert_eq!(date.year, 2024);
    assert_eq!(date.month, 3);
    assert_eq!(date.day, 15);
}

#[test]
fn exactly_one_cell_is_selected() {
    let date = CalendarDate::new(2024, 3, 15).unwrap();
    let rows = week_row_count(date.year, date.month);
    let mut selected = 0;
    for row in 0..rows as usize {
        for column in 0..7 {
            let cell = resolve_cell(row, column, date.year, date.month).unwrap();
            if is_selected(&cell, &date) {
                selected += 1;
            }
        }
    }
    assert_eq!(selected, 1);
}

#[test]
fn selection_needs_the_current_month() {
    let date = CalendarDate::new(2024, 3, 25).unwrap();
    let previous = CellContent { day_number: 25, membership: Membership::PreviousMonth };
    let current = CellContent { day_number: 25, membership: Membership::CurrentMonth };
    let other = CellContent { day_number: 24, membership: Membership::CurrentMonth };
    assert!(!is_selected(&previous, &date));
    assert!(is_selected(&current, &date));
    assert!(!is_selected(&other, &date));
}

#[test]
fn weekday_labels_are_seven_and_distinct() {
    let labels = weekday_labels();
    assert_eq!(labels, vec!["Su", "Mo", "Tu", "We", "Th", "Fr", "Sa"]);
    for i in 0..labels.len() {
        for j in 0..labels.len() {
            if i != j {
                assert_ne!(labels[i], labels[j]);
            }
        }
    }
    // The header is caller-independent: a second call returns the same row.
    assert_eq!(weekday_labels(), labels);
}
