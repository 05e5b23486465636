//! What the scraper hands over, the generator can render: the days that are
//! reconstructed from full columns of the page lie within the school's bell
//! times.

use crate::generator::bell_times::{
    midweek_boundaries, regular_boundaries, school_bell_times, slots_between,
};
use crate::generator::{day_fits, has_bell_time, is_rendered, week_fits};
use crate::scraper::cell::RawCellView;
use crate::scraper::lessons_of_cells;
use crate::scraper::reconstruct::{
    column, free_from, lemma_midweek_day_order, lemma_regular_day_order, mark_absences, or_break,
    reconstructed, week_of_cells,
};
use crate::types::{DayOfWeek, LessonView};
use vstd::prelude::*;

verus! {

/// The number of cells in a full column of the page.
pub const FULL_COLUMN: usize = 14;

/// Whether a column is as the cells of the page give it: every lesson is an
/// occupied period or a free period.
pub open spec fn is_raw(column: Seq<LessonView>) -> bool {
    forall|i: int|
        0 <= i < column.len() ==> (#[trigger] column[i] is Present || column[i] is FreePeriod)
}

/// Every weekday has twelve bell times.
pub proof fn lemma_twelve_bell_times(day_of_week: DayOfWeek)
    ensures
        school_bell_times().day(day_of_week).len() == 12,
{
    assert(regular_boundaries().len() == 13);
    assert(midweek_boundaries().len() == 13);
}

/// The day that is reconstructed from a full column of the page has a bell
/// time for every lesson that is rendered, and for lunch the one after it;
/// on Wednesday this asks that period 8, for which Wednesday has no bell
/// time, is free.
pub proof fn lemma_scraped_day_fits(raw: Seq<LessonView>, day_of_week: DayOfWeek)
    requires
        raw.len() == FULL_COLUMN,
        is_raw(raw),
        reconstructed(raw, day_of_week) is Ok,
        day_of_week == DayOfWeek::Wednesday ==> raw[13] is FreePeriod,
    ensures
        day_fits(reconstructed(raw, day_of_week)->Ok_0, school_bell_times().day(day_of_week)),
{
    let bells = school_bell_times().day(day_of_week);
    lemma_twelve_bell_times(day_of_week);
    let day = reconstructed(raw, day_of_week)->Ok_0;
    if day_of_week == DayOfWeek::Wednesday {
        lemma_midweek_day_order(raw);
        let ordered = seq![
            raw[0],
            raw[1],
            raw[2],
            raw[3],
            LessonView::Recess,
            raw[6],
            or_break(raw[8], LessonView::Lunch1),
            or_break(raw[9], LessonView::Lunch2),
            raw[7],
            raw[10],
            raw[11],
            raw[12],
            raw[13],
        ];
        assert(day == mark_absences(ordered));
        assert(free_from(ordered, 12));
        assert(day[12] is AbsentPeriod);
        assert forall|idx: int| 0 <= idx < day.len() && is_rendered(#[trigger] day[idx]) implies has_bell_time(
            day[idx],
            idx,
            bells,
        ) by {
            if day[idx] is Lunch1 {
                assert(ordered[idx] is Lunch1);
                assert(idx == 6);
            }
        }
    } else {
        lemma_regular_day_order(raw, day_of_week);
        let ordered = seq![
            raw[0],
            raw[1],
            raw[2],
            LessonView::Recess,
            raw[6],
            raw[7],
            or_break(raw[8], LessonView::Lunch1),
            or_break(raw[9], LessonView::Lunch2),
            raw[10],
            raw[11],
            raw[12],
            raw[13],
        ];
        assert(day == mark_absences(ordered));
        assert forall|idx: int| 0 <= idx < day.len() && is_rendered(#[trigger] day[idx]) implies has_bell_time(
            day[idx],
            idx,
            bells,
        ) by {
            if day[idx] is Lunch1 {
                assert(ordered[idx] is Lunch1);
                assert(idx == 6);
            }
        }
    }
}

/// The lessons that cells give are occupied periods and free periods.
pub proof fn lemma_cells_give_raw_lessons(cells: Seq<RawCellView>)
    requires
        lessons_of_cells(cells) is Ok,
    ensures
        is_raw(lessons_of_cells(cells)->Ok_0),
        (lessons_of_cells(cells)->Ok_0).len() == cells.len(),
    decreases cells.len(),
{
    if cells.len() > 0 {
        lemma_cells_give_raw_lessons(cells.drop_last());
    }
}

/// The week of a full table of the page, fourteen rows of five cells, can be
/// rendered with the school's bell times if the cell of Wednesday's period 8
/// is free.
pub proof fn lemma_scraped_week_fits(cells: Seq<LessonView>)
    requires
        cells.len() == FULL_COLUMN * 5,
        is_raw(cells),
        week_of_cells(cells) is Ok,
        cells[67] is FreePeriod,
    ensures
        week_fits(week_of_cells(cells)->Ok_0, school_bell_times()),
{
    assert forall|day: nat| day < 5 implies (#[trigger] column(cells, day)).len() == FULL_COLUMN
        && is_raw(column(cells, day)) by {
        let raw = column(cells, day);
        assert forall|i: int| 0 <= i < raw.len() implies (#[trigger] raw[i] is Present
            || raw[i] is FreePeriod) by {
            assert(raw[i] == cells[5 * i + day]);
        }
    }
    assert(column(cells, 2)[13] == cells[67]);
    lemma_scraped_day_fits(column(cells, 0), DayOfWeek::Monday);
    lemma_scraped_day_fits(column(cells, 1), DayOfWeek::Tuesday);
    lemma_scraped_day_fits(column(cells, 2), DayOfWeek::Wednesday);
    lemma_scraped_day_fits(column(cells, 3), DayOfWeek::Thursday);
    lemma_scraped_day_fits(column(cells, 4), DayOfWeek::Friday);
}

} // verus!
