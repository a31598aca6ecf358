//! The month-view grid: which calendar day each cell of a seven-column grid
//! shows, whether it belongs to the previous, the current or the next month,
//! how many week rows the view needs, and which cell is selected.

use vstd::prelude::*;
use crate::date::{
    CalendarDate, InvalidDate, days_in_month, leading_offset, spec_days_in_month,
    spec_leading_offset,
};

verus! {

/// Which month a displayed day number belongs to, relative to the month
/// being viewed.
#[derive(Clone, Copy, Debug, PartialEq, Eq, Structural)]
pub enum Membership {
    /// The cell shows a trailing day of the month before the viewed one.
    PreviousMonth,
    /// The cell shows a day of the viewed month itself.
    CurrentMonth,
    /// The cell shows a leading day of the month after the viewed one.
    NextMonth,
}

/// What one grid cell shows: a day number and the month it belongs to.
#[derive(Clone, Copy, Debug, PartialEq, Eq, Structural)]
pub struct CellContent {
    /// The calendar day number displayed in the cell.
    pub day_number: u32,
    /// The month, relative to the viewed one, that the day belongs to.
    pub membership: Membership,
}

/// The year that holds the month before `month` of `year`.
pub open spec fn spec_prev_year(year: int, month: int) -> int {
    if month == 1 {
        year - 1
    } else {
        year
    }
}

/// The month before `month`, rolling over from January to December.
pub open spec fn spec_prev_month(month: int) -> int {
    if month == 1 {
        12
    } else {
        month - 1
    }
}

/// The rank of the cell at `row`, `column` in row-major order, counted from
/// the cell that shows the first of the viewed month: negative for the
/// leading cells before it.
pub open spec fn spec_grid_offset(year: int, month: int, row: int, column: int) -> int {
    row * 7 + column - spec_leading_offset(year, month)
}

/// The month, relative to the viewed one, whose day the cell at `row`,
/// `column` shows.
pub open spec fn spec_cell_membership(year: int, month: int, row: int, column: int) -> Membership {
    let off = spec_grid_offset(year, month, row, column);
    if off < 0 {
        Membership::PreviousMonth
    } else if off < spec_days_in_month(month, year) {
        Membership::CurrentMonth
    } else {
        Membership::NextMonth
    }
}

/// The day number the cell at `row`, `column` shows: the previous month
/// counts down through the leading cells, the viewed month runs 1 to its
/// length, and the next month starts again at 1.
pub open spec fn spec_cell_day_number(year: int, month: int, row: int, column: int) -> int {
    let off = spec_grid_offset(year, month, row, column);
    let dim = spec_days_in_month(month, year);
    if off < 0 {
        spec_days_in_month(spec_prev_month(month), spec_prev_year(year, month)) + off + 1
    } else if off < dim {
        off + 1
    } else {
        off - dim + 1
    }
}

/// The row of the cell that shows day `day` of the viewed month itself.
pub open spec fn spec_day_row(year: int, month: int, day: int) -> int {
    (spec_leading_offset(year, month) + day - 1) / 7
}

/// The column of the cell that shows day `day` of the viewed month itself.
pub open spec fn spec_day_column(year: int, month: int, day: int) -> int {
    (spec_leading_offset(year, month) + day - 1) % 7
}

/// The number of week rows a view of `month` of `year` needs: the least
/// count that covers the leading offset plus every day of the month.
pub open spec fn spec_week_rows(year: int, month: int) -> int {
    (spec_leading_offset(year, month) + spec_days_in_month(month, year) + 6) / 7
}

/// The number of week rows needed to display `month` of `year`, the
/// ceiling of (leading offset + days in the month) / 7.
pub fn week_row_count(year: i32, month: u32) -> (r: u32)
    requires
        1 <= year,
        1 <= month <= 12,
    ensures
        r == spec_week_rows(year as int, month as int),
        4 <= r <= 6,
{
    let lead = leading_offset(year, month);
    let dim = days_in_month(month, year);
    (lead + dim + 6) / 7
}

/// Resolves the grid cell at `row`, `column` for the view of `month` of
/// `year`: which day number it shows and which month that day belongs to.
/// Every month and year of the calendar is accepted; anything else is
/// refused as `InvalidDate`.
pub fn resolve_cell(row: usize, column: usize, year: i32, month: u32) -> (r: Result<
    CellContent,
    InvalidDate,
>)
    requires
        row < 6,
        column < 7,
    ensures
        r is Ok <==> (1 <= year && 1 <= month <= 12),
        r matches Ok(c) ==> {
            &&& c.membership == spec_cell_membership(
                year as int,
                month as int,
                row as int,
                column as int,
            )
            &&& c.day_number == spec_cell_day_number(
                year as int,
                month as int,
                row as int,
                column as int,
            )
            &&& 1 <= c.day_number <= 31
        },
{
    if year < 1 || month < 1 || month > 12 {
        return Err(InvalidDate);
    }
    let lead = leading_offset(year, month) as usize;
    let dim = days_in_month(month, year) as usize;
    let pos = row * 7 + column;
    if pos < lead {
        let prev_month: u32 = if month == 1 {
            12
        } else {
            month - 1
        };
        let prev_year: i32 = if month == 1 {
            year - 1
        } else {
            year
        };
        let prev_dim = days_in_month(prev_month, prev_year) as usize;
        Ok(
            CellContent {
                day_number: (prev_dim + pos + 1 - lead) as u32,
                membership: Membership::PreviousMonth,
            },
        )
    } else if pos - lead < dim {
        Ok(
            CellContent {
                day_number: (pos - lead + 1) as u32,
                membership: Membership::CurrentMonth,
            },
        )
    } else {
        Ok(
            CellContent {
                day_number: (pos - lead - dim + 1) as u32,
                membership: Membership::NextMonth,
            },
        )
    }
}

/// Whether `cell` is the selected cell for `date`: it shows `date`'s day
/// and belongs to the viewed month itself.
pub fn is_selected(cell: &CellContent, date: &CalendarDate) -> (r: bool)
    ensures
        r == (cell.membership is CurrentMonth && cell.day_number == date.day),
{
    cell.membership == Membership::CurrentMonth && cell.day_number == date.day
}

/// Law: `spec_week_rows` rows always cover the leading offset plus every
/// day of the viewed month, and the count is minimal: one row fewer would
/// leave days of the month without a cell. The count is always 4 to 6.
pub proof fn lemma_week_rows_minimal(year: int, month: int)
    requires
        1 <= year,
        1 <= month <= 12,
    ensures
        spec_week_rows(year, month) * 7 >= spec_days_in_month(month, year) + spec_leading_offset(
            year,
            month,
        ),
        (spec_week_rows(year, month) - 1) * 7 < spec_days_in_month(month, year)
            + spec_leading_offset(year, month),
        4 <= spec_week_rows(year, month) <= 6,
{
    let lead = spec_leading_offset(year, month);
    let s = lead + spec_days_in_month(month, year);
    crate::date::lemma_leading_offset_bounds(year, month);
    vstd::arithmetic::div_mod::lemma_fundamental_div_mod(s + 6, 7);
    vstd::arithmetic::div_mod::lemma_mod_bound(s + 6, 7);
}

/// Law: the first day of the viewed month appears in exactly one grid
/// cell, the one whose row-major rank equals the leading offset; that cell
/// lies within the first `spec_week_rows` rows.
pub proof fn lemma_first_day_unique(year: int, month: int)
    requires
        1 <= year,
        1 <= month <= 12,
    ensures
        ({
            let lead = spec_leading_offset(year, month);
            &&& spec_cell_membership(year, month, lead / 7, lead % 7) is CurrentMonth
            &&& spec_cell_day_number(year, month, lead / 7, lead % 7) == 1
            &&& 0 <= lead / 7 < spec_week_rows(year, month)
            &&& 0 <= lead % 7 < 7
            &&& forall|r: int, c: int|
                0 <= r && 0 <= c < 7 && spec_cell_membership(year, month, r, c) is CurrentMonth
                    && spec_cell_day_number(year, month, r, c) == 1 ==> r == lead / 7 && c == lead
                    % 7
        }),
{
    let lead = spec_leading_offset(year, month);
    crate::date::lemma_leading_offset_bounds(year, month);
    vstd::arithmetic::div_mod::lemma_fundamental_div_mod(lead, 7);
    vstd::arithmetic::div_mod::lemma_mod_bound(lead, 7);
    vstd::arithmetic::div_mod::lemma_div_pos_is_pos(lead, 7);
    lemma_week_rows_minimal(year, month);
    assert forall|r: int, c: int|
        0 <= r && 0 <= c < 7 && spec_cell_membership(year, month, r, c) is CurrentMonth
            && spec_cell_day_number(year, month, r, c) == 1 implies r == lead / 7 && c == lead
        % 7 by {
        assert(r * 7 + c == lead);
        vstd::arithmetic::div_mod::lemma_fundamental_div_mod_converse_div(lead, 7, r, c);
        vstd::arithmetic::div_mod::lemma_fundamental_div_mod_converse_mod(lead, 7, r, c);
    }
}

/// Law: a cell's membership is decided by its row-major rank alone. Cells
/// before the leading offset show trailing days of the previous month,
/// counting down from that month's length; the next `spec_days_in_month`
/// cells show the viewed month; every later cell shows the next month.
pub proof fn lemma_membership_ranges(year: int, month: int)
    requires
        1 <= year,
        1 <= month <= 12,
    ensures
        forall|r: int, c: int|
            #![trigger spec_cell_membership(year, month, r, c)]
            0 <= r && 0 <= c < 7 ==> {
                let idx = r * 7 + c;
                let lead = spec_leading_offset(year, month);
                let dim = spec_days_in_month(month, year);
                &&& (spec_cell_membership(year, month, r, c) is PreviousMonth <==> idx < lead)
                &&& (spec_cell_membership(year, month, r, c) is CurrentMonth <==> lead <= idx < lead
                    + dim)
                &&& (spec_cell_membership(year, month, r, c) is NextMonth <==> lead + dim <= idx)
                &&& (idx < lead ==> spec_cell_day_number(year, month, r, c) == spec_days_in_month(
                    spec_prev_month(month),
                    spec_prev_year(year, month),
                ) - (lead - idx) + 1)
                &&& (lead <= idx < lead + dim ==> spec_cell_day_number(year, month, r, c) == idx
                    - lead + 1)
                &&& (lead + dim <= idx ==> spec_cell_day_number(year, month, r, c) == idx - lead
                    - dim + 1)
            },
{
    // Each clause restates one branch of the two cell functions, so the
    // definitions unfold to the claim.
}

/// Law: scanning the grid in row-major order over all `spec_week_rows`
/// rows, the cells of the viewed month show the day numbers 1, 2, ...,
/// `spec_days_in_month` in that order, each day in exactly one cell, with
/// no gaps and no repeats.
pub proof fn lemma_current_month_scan(year: int, month: int)
    requires
        1 <= year,
        1 <= month <= 12,
    ensures
        forall|r: int, c: int|
            0 <= r && 0 <= c < 7 && spec_cell_membership(year, month, r, c) is CurrentMonth
                ==> spec_cell_day_number(year, month, r, c) == r * 7 + c - spec_leading_offset(
                year,
                month,
            ) + 1,
        forall|d: int|
            #![trigger spec_day_row(year, month, d)]
            1 <= d <= spec_days_in_month(month, year) ==> ({
                &&& 0 <= spec_day_row(year, month, d) < spec_week_rows(year, month)
                &&& 0 <= spec_day_column(year, month, d) < 7
                &&& spec_cell_membership(
                    year,
                    month,
                    spec_day_row(year, month, d),
                    spec_day_column(year, month, d),
                ) is CurrentMonth
                &&& spec_cell_day_number(
                    year,
                    month,
                    spec_day_row(year, month, d),
                    spec_day_column(year, month, d),
                ) == d
            }),
        forall|r1: int, c1: int, r2: int, c2: int|
            0 <= r1 && 0 <= c1 < 7 && 0 <= r2 && 0 <= c2 < 7 && spec_cell_membership(
                year,
                month,
                r1,
                c1,
            ) is CurrentMonth && spec_cell_membership(year, month, r2, c2) is CurrentMonth
                && spec_cell_day_number(year, month, r1, c1) == spec_cell_day_number(
                year,
                month,
                r2,
                c2,
            ) ==> r1 == r2 && c1 == c2,
{
    let lead = spec_leading_offset(year, month);
    let dim = spec_days_in_month(month, year);
    crate::date::lemma_leading_offset_bounds(year, month);
    lemma_week_rows_minimal(year, month);
    assert forall|d: int| 1 <= d <= dim implies ({
        &&& 0 <= spec_day_row(year, month, d) < spec_week_rows(year, month)
        &&& 0 <= spec_day_column(year, month, d) < 7
        &&& spec_cell_membership(
            year,
            month,
            spec_day_row(year, month, d),
            spec_day_column(year, month, d),
        ) is CurrentMonth
        &&& spec_cell_day_number(
            year,
            month,
            spec_day_row(year, month, d),
            spec_day_column(year, month, d),
        ) == d
    }) by {
        let idx = lead + d - 1;
        vstd::arithmetic::div_mod::lemma_fundamental_div_mod(idx, 7);
        vstd::arithmetic::div_mod::lemma_mod_bound(idx, 7);
        vstd::arithmetic::div_mod::lemma_div_pos_is_pos(idx, 7);
        assert((idx / 7) * 7 + idx % 7 - lead == d - 1);
    }
}

/// Law: when a valid date's own month is viewed, exactly one grid cell is
/// selected for it: the cell of the viewed month that shows the date's
/// day, and no other.
pub proof fn lemma_selected_unique(date: CalendarDate)
    requires
        date.valid(),
    ensures
        ({
            let year = date.year as int;
            let month = date.month as int;
            let row = spec_day_row(year, month, date.day as int);
            let column = spec_day_column(year, month, date.day as int);
            &&& 0 <= row < spec_week_rows(year, month)
            &&& 0 <= column < 7
            &&& spec_cell_membership(year, month, row, column) is CurrentMonth
            &&& spec_cell_day_number(year, month, row, column) == date.day
            &&& forall|r: int, c: int|
                0 <= r && 0 <= c < 7 && spec_cell_membership(year, month, r, c) is CurrentMonth
                    && spec_cell_day_number(year, month, r, c) == date.day ==> r == row && c
                    == column
        }),
{
    let year = date.year as int;
    let month = date.month as int;
    let lead = spec_leading_offset(year, month);
    lemma_current_month_scan(year, month);
    assert forall|r: int, c: int|
        0 <= r && 0 <= c < 7 && spec_cell_membership(year, month, r, c) is CurrentMonth
            && spec_cell_day_number(year, month, r, c) == date.day implies r == spec_day_row(
        year,
        month,
        date.day as int,
    ) && c == spec_day_column(year, month, date.day as int) by {
        assert(r * 7 + c == lead + date.day - 1);
        vstd::arithmetic::div_mod::lemma_fundamental_div_mod_converse_div(
            lead + date.day - 1,
            7,
            r,
            c,
        );
        vstd::arithmetic::div_mod::lemma_fundamental_div_mod_converse_mod(
            lead + date.day - 1,
            7,
            r,
            c,
        );
    }
}

} // verus!
