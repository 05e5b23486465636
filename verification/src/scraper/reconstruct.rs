//! From the cells of a week's table to the week: the cells are dealt out to
//! the five weekdays, and each day's column is put into the order in which
//! its periods really follow each other.
//!
//! A raw column holds, from the top: periods 0, 1 and 2, the assembly, a
//! column that is always empty, recess, periods 3 and 4, the two halves of
//! lunch, and periods 5 to 8.

use crate::scraper::ScrapeError;
use crate::types::{lessons_view, Day, DayOfWeek, Lesson, LessonView, Week, WeekView};
use vstd::prelude::*;

verus! {

/// The number of weekdays, which is the number of columns of the table.
pub const DAYS: usize = 5;

/// The fewest cells that a day's raw column must hold for every position
/// that the reconstruction touches to exist.
pub const SHORTEST_COLUMN: usize = 10;

/// Where the always-empty column stands in a raw column.
pub const PLACEHOLDER: usize = 4;

/// Where recess stands once the always-empty column is gone.
pub const RECESS: usize = 4;

/// Where the first half of lunch stands once the always-empty column is gone.
pub const LUNCH_1: usize = 7;

/// Where the second half of lunch stands once the always-empty column is
/// gone.
pub const LUNCH_2: usize = 8;

/// Where the assembly stands.
pub const ASSEMBLY: usize = 3;

/// Where the page shows Wednesday's period 4 once the always-empty column is
/// gone: before lunch.
pub const PERIOD_4_SHOWN: usize = 6;

/// Where Wednesday's period 4 belongs once it is taken out: after lunch.
pub const PERIOD_4_HELD: usize = 8;

/// `lessons` with the lesson at `at` replaced by `by` if it is a free period.
pub open spec fn fill_free(lessons: Seq<LessonView>, at: int, by: LessonView) -> Seq<LessonView> {
    if lessons[at] is FreePeriod {
        lessons.update(at, by)
    } else {
        lessons
    }
}

/// A column without its always-empty cell, with recess marked and, where no
/// class is held over lunch, the two halves of lunch.
pub open spec fn mark_breaks(lessons: Seq<LessonView>) -> Seq<LessonView> {
    let with_recess = lessons.update(RECESS as int, LessonView::Recess);
    let with_lunch_1 = fill_free(with_recess, LUNCH_1 as int, LessonView::Lunch1);
    fill_free(with_lunch_1, LUNCH_2 as int, LessonView::Lunch2)
}

/// Wednesday's period 4 moved from where the page shows it to where it is
/// held.
pub open spec fn move_period_4(lessons: Seq<LessonView>) -> Seq<LessonView> {
    let period_4 = lessons[PERIOD_4_SHOWN as int];
    lessons.remove(PERIOD_4_SHOWN as int).insert(PERIOD_4_HELD as int, period_4)
}

/// Whether nothing but free periods stands at `from` and after it.
pub open spec fn free_from(lessons: Seq<LessonView>, from: int) -> bool {
    forall|j: int| from <= j < lessons.len() ==> #[trigger] lessons[j] is FreePeriod
}

/// Whether the free period at `at` is time away from school: it is the first
/// lesson of the day, or no class follows it.
pub open spec fn is_absence(lessons: Seq<LessonView>, at: int) -> bool {
    lessons[at] is FreePeriod && (at == 0 || free_from(lessons, at))
}

/// `lessons` with each free period that is time away from school turned into
/// an absent period.
pub open spec fn mark_absences(lessons: Seq<LessonView>) -> Seq<LessonView> {
    Seq::new(
        lessons.len(),
        |i: int|
            if is_absence(lessons, i) {
                LessonView::AbsentPeriod
            } else {
                lessons[i]
            },
    )
}

/// The day that a raw column stands for, or why the column does not have
/// the layout that this rests on.
pub open spec fn reconstructed(raw: Seq<LessonView>, day_of_week: DayOfWeek) -> Result<
    Seq<LessonView>,
    ScrapeError,
> {
    if raw.len() < SHORTEST_COLUMN {
        Err(ScrapeError::ColumnTooShort)
    } else if !(raw[PLACEHOLDER as int] is FreePeriod) {
        Err(ScrapeError::PlaceholderOccupied)
    } else if !(raw.remove(PLACEHOLDER as int)[RECESS as int] is FreePeriod) {
        Err(ScrapeError::RecessOccupied)
    } else {
        let marked = mark_breaks(raw.remove(PLACEHOLDER as int));
        if day_of_week == DayOfWeek::Wednesday {
            Ok(mark_absences(move_period_4(marked)))
        } else if !(marked[ASSEMBLY as int] is FreePeriod) {
            Err(ScrapeError::AssemblyOccupied)
        } else {
            Ok(mark_absences(marked.remove(ASSEMBLY as int)))
        }
    }
}

/// The cells of a table that belong to the weekday with number `day`: the
/// table is read row by row, so cell `i` belongs to weekday `i % 5`, and the
/// cells of one weekday come in the order of their periods.
pub open spec fn column(cells: Seq<LessonView>, day: nat) -> Seq<LessonView> {
    Seq::new(((cells.len() + 4 - day) / 5) as nat, |k: int| cells[5 * k + day])
}

/// The day of a column: a weekday that got no cell has no lessons, any other
/// column is reconstructed.
pub open spec fn day_of_column(raw: Seq<LessonView>, day_of_week: DayOfWeek) -> Result<
    Seq<LessonView>,
    ScrapeError,
> {
    if raw.len() == 0 {
        Ok(raw)
    } else {
        reconstructed(raw, day_of_week)
    }
}

/// The week that the cells of a table stand for, or the first fault found
/// in its columns, taken from Monday to Friday.
pub open spec fn week_of_cells(cells: Seq<LessonView>) -> Result<WeekView, ScrapeError> {
    match day_of_column(column(cells, 0), DayOfWeek::Monday) {
        Err(e) => Err(e),
        Ok(monday) => match day_of_column(column(cells, 1), DayOfWeek::Tuesday) {
            Err(e) => Err(e),
            Ok(tuesday) => match day_of_column(column(cells, 2), DayOfWeek::Wednesday) {
                Err(e) => Err(e),
                Ok(wednesday) => match day_of_column(column(cells, 3), DayOfWeek::Thursday) {
                    Err(e) => Err(e),
                    Ok(thursday) => match day_of_column(column(cells, 4), DayOfWeek::Friday) {
                        Err(e) => Err(e),
                        Ok(friday) => Ok(
                            WeekView { monday, tuesday, wednesday, thursday, friday },
                        ),
                    },
                },
            },
        },
    }
}

/// Turns the lesson at `at` into `by` if it is a free period.
fn fill_if_free(lessons: &mut Vec<Lesson>, at: usize, by: Lesson)
    requires
        at < old(lessons).len(),
    ensures
        lessons_view(final(lessons)@) == fill_free(lessons_view(old(lessons)@), at as int, by@),
{
    if lessons[at].is_free() {
        lessons.set(at, by);
        proof {
            assert(lessons_view(lessons@) =~= fill_free(
                lessons_view(old(lessons)@),
                at as int,
                by@,
            ));
        }
    }
}

/// Turns each free period that is time away from school into an absent
/// period: the first lesson of the day if it is free, and the free periods
/// after the day's last class.
pub fn mark_absent_periods(lessons: &mut Vec<Lesson>)
    ensures
        lessons_view(final(lessons)@) == mark_absences(lessons_view(old(lessons)@)),
{
    let ghost before = lessons_view(lessons@);
    // The free periods at the end of the day start at `end`.
    let mut end: usize = lessons.len();
    while end > 0 && lessons[end - 1].is_free()
        invariant
            end <= lessons.len(),
            lessons_view(lessons@) == before,
            free_from(before, end as int),
        decreases end,
    {
        end -= 1;
    }
    proof {
        assert(end > 0 ==> !(before[end - 1] is FreePeriod));
        assert forall|i: int| 0 < i < before.len() implies (is_absence(before, i) <==> end <= i) by {
            if i < end {
                assert(!free_from(before, i));
            }
        }
    }
    // Mark first period as absent if it is empty
    if lessons.len() > 0 && lessons[0].is_free() {
        lessons.set(0, Lesson::AbsentPeriod);
    }
    let mut idx: usize = if end == 0 { 1 } else { end };
    while idx < lessons.len()
        invariant
            1 <= idx,
            end <= idx,
            lessons.len() == before.len(),
            forall|i: int| 0 < i < before.len() ==> (is_absence(before, i) <==> end <= i),
            lessons_view(lessons@)[0] == mark_absences(before)[0] || before.len() == 0,
            forall|i: int|
                0 < i < idx ==> #[trigger] lessons_view(lessons@)[i] == mark_absences(before)[i],
            forall|i: int| idx <= i < before.len() ==> #[trigger] lessons_view(lessons@)[i] == before[i],
        decreases lessons.len() - idx,
    {
        let ghost unmarked = lessons_view(lessons@);
        lessons.set(idx, Lesson::AbsentPeriod);
        proof {
            assert(lessons_view(lessons@) =~= unmarked.update(
                idx as int,
                LessonView::AbsentPeriod,
            ));
        }
        idx += 1;
    }
    proof {
        assert(lessons_view(lessons@) =~= mark_absences(before));
    }
}

/// Puts a day's raw column into the order in which its periods really
/// follow each other, and classifies its free periods.
///
/// The steps, in this order:
/// 1. the always-empty cell must be free; it is taken out;
/// 2. the cell that now stands at recess must be free; it becomes recess;
/// 3. the first half of lunch, if free, becomes `Lunch1`;
/// 4. the second half of lunch, if free, becomes `Lunch2`;
/// 5. on every day but Wednesday the assembly cell must be free; it is
///    taken out;
/// 6. on Wednesday period 4, which the page shows before lunch, is moved
///    after lunch;
/// 7. the first lesson, if free, becomes an absent period;
/// 8. the free periods after the last class become absent periods.
pub fn reconstruct_day(lessons: Vec<Lesson>, day_of_week: DayOfWeek) -> (day: Result<
    Day,
    ScrapeError,
>)
    ensures
        match day {
            Ok(d) => reconstructed(lessons_view(lessons@), day_of_week) == Ok::<
                Seq<LessonView>,
                ScrapeError,
            >(d@),
            Err(e) => reconstructed(lessons_view(lessons@), day_of_week) == Err::<
                Seq<LessonView>,
                ScrapeError,
            >(e),
        },
{
    let ghost raw = lessons_view(lessons@);
    let mut lessons = lessons;
    if lessons.len() < SHORTEST_COLUMN {
        return Err(ScrapeError::ColumnTooShort);
    }
    // 0, 1, 2, Assembly, always empty, R, 3, 4, L1, L2, 5, 6, 7, 8

    let placeholder = lessons.remove(PLACEHOLDER);
    if !placeholder.is_free() {
        return Err(ScrapeError::PlaceholderOccupied);
    }
    proof {
        assert(lessons_view(lessons@) =~= raw.remove(PLACEHOLDER as int));
    }
    // 0, 1, 2, Assembly, R, 3, 4, L1, L2, 5, 6, 7, 8

    if !lessons[RECESS].is_free() {
        return Err(ScrapeError::RecessOccupied);
    }
    lessons.set(RECESS, Lesson::Recess);
    proof {
        assert(lessons_view(lessons@) =~= raw.remove(PLACEHOLDER as int).update(
            RECESS as int,
            LessonView::Recess,
        ));
    }

    // Some students have lessons during lunch
    fill_if_free(&mut lessons, LUNCH_1, Lesson::Lunch1);
    fill_if_free(&mut lessons, LUNCH_2, Lesson::Lunch2);
    let ghost marked = lessons_view(lessons@);

    if day_of_week == DayOfWeek::Wednesday {
        // the page shows period 4 on a Wednesday before lunch,
        // when it actually happens after
        let period_4 = lessons.remove(PERIOD_4_SHOWN);
        // 0, 1, 2, Assembly, R, 3, L1, L2, 5, 6, 7, 8
        lessons.insert(PERIOD_4_HELD, period_4);
        proof {
            assert(lessons_view(lessons@) =~= move_period_4(marked));
        }
    } else {
        // There is only assembly on Wednesday
        let assembly = lessons.remove(ASSEMBLY);
        if !assembly.is_free() {
            return Err(ScrapeError::AssemblyOccupied);
        }
        proof {
            assert(lessons_view(lessons@) =~= marked.remove(ASSEMBLY as int));
        }
        // 0, 1, 2, R, 3, 4, L1, L2, 5, 6, 7, 8
    }

    mark_absent_periods(&mut lessons);
    Ok(Day { lessons })
}

/// A day never begins or ends with a free period once its absences are
/// marked: a free period at either end is time away from school.
pub proof fn lemma_no_free_period_at_the_edges(lessons: Seq<LessonView>)
    requires
        lessons.len() > 0,
    ensures
        !(mark_absences(lessons).first() is FreePeriod),
        !(mark_absences(lessons).last() is FreePeriod),
{
    let last = lessons.len() - 1;
    if lessons[last] is FreePeriod {
        assert(free_from(lessons, last));
    }
}

/// A reconstructed day is shorter than its raw column by the always-empty
/// cell and, on every day but Wednesday, by the assembly cell; and it neither
/// begins nor ends with a free period.
pub proof fn lemma_reconstructed_shape(raw: Seq<LessonView>, day_of_week: DayOfWeek)
    requires
        reconstructed(raw, day_of_week) is Ok,
    ensures
        ({
            let day = reconstructed(raw, day_of_week)->Ok_0;
            &&& day.len() == if day_of_week == DayOfWeek::Wednesday {
                raw.len() - 1
            } else {
                raw.len() - 2
            }
            &&& !(day.first() is FreePeriod)
            &&& !(day.last() is FreePeriod)
        }),
{
    let marked = mark_breaks(raw.remove(PLACEHOLDER as int));
    if day_of_week == DayOfWeek::Wednesday {
        lemma_no_free_period_at_the_edges(move_period_4(marked));
    } else {
        lemma_no_free_period_at_the_edges(marked.remove(ASSEMBLY as int));
    }
}

/// `by` where `lesson` is a free period, else `lesson`.
pub open spec fn or_break(lesson: LessonView, by: LessonView) -> LessonView {
    if lesson is FreePeriod {
        by
    } else {
        lesson
    }
}

/// A column of fourteen free periods.
pub open spec fn column_without_classes() -> Seq<LessonView> {
    Seq::new(14, |i: int| LessonView::FreePeriod)
}

/// The order of a regular day. A full column of a day without assembly
/// whose assembly cell, always-empty cell and recess cell are free becomes a
/// day of twelve lessons: periods 0, 1 and 2, recess, periods 3 and 4, the
/// two halves of lunch (or the classes held then), and periods 5 to 8, with
/// the absences marked.
pub proof fn lemma_regular_day_order(raw: Seq<LessonView>, day_of_week: DayOfWeek)
    requires
        raw.len() == 14,
        day_of_week != DayOfWeek::Wednesday,
        raw[3] is FreePeriod,
        raw[4] is FreePeriod,
        raw[5] is FreePeriod,
    ensures
        reconstructed(raw, day_of_week) == Ok::<Seq<LessonView>, ScrapeError>(
            mark_absences(
                seq![
                    raw[0],
                    raw[1],
                    raw[2],
                    LessonView::Recess,
                    raw[6],
                    raw[7],
                    or_break(raw[8], LessonView::Lunch1),
                    or_break(raw[9], LessonView::Lunch2),
                    raw[10],
                    raw[11],
                    raw[12],
                    raw[13],
                ],
            ),
        ),
{
    let marked = mark_breaks(raw.remove(PLACEHOLDER as int));
    let ordered = seq![
        raw[0],
        raw[1],
        raw[2],
        LessonView::Recess,
        raw[6],
        raw[7],
        or_break(raw[8], LessonView::Lunch1),
        or_break(raw[9], LessonView::Lunch2),
        raw[10],
        raw[11],
        raw[12],
        raw[13],
    ];
    assert(marked.remove(ASSEMBLY as int) =~= ordered);
}

/// The order of Wednesday. A full column of Wednesday whose always-empty
/// cell and recess cell are free becomes a day of thirteen lessons: periods
/// 0, 1 and 2, the assembly, recess, period 3, the two halves of lunch (or
/// the classes held then), and periods 4 to 8, with the absences marked. So
/// period 4 stands after both halves of lunch.
pub proof fn lemma_midweek_day_order(raw: Seq<LessonView>)
    requires
        raw.len() == 14,
        raw[4] is FreePeriod,
        raw[5] is FreePeriod,
    ensures
        reconstructed(raw, DayOfWeek::Wednesday) == Ok::<Seq<LessonView>, ScrapeError>(
            mark_absences(
                seq![
                    raw[0],
                    raw[1],
                    raw[2],
                    raw[3],
                    LessonView::Recess,
                    raw[6],
                    or_break(raw[8], LessonView::Lunch1),
                    or_break(raw[9], LessonView::Lunch2),
                    raw[7],
                    raw[10],
                    raw[11],
                    raw[12],
                    raw[13],
                ],
            ),
        ),
{
    let marked = mark_breaks(raw.remove(PLACEHOLDER as int));
    let ordered = seq![
        raw[0],
        raw[1],
        raw[2],
        raw[3],
        LessonView::Recess,
        raw[6],
        or_break(raw[8], LessonView::Lunch1),
        or_break(raw[9], LessonView::Lunch2),
        raw[7],
        raw[10],
        raw[11],
        raw[12],
        raw[13],
    ];
    assert(move_period_4(marked) =~= ordered);
}

/// A day without classes keeps its breaks. On a regular day the first period
/// and the periods after lunch become absent periods; recess and both
/// halves of lunch stay what they are, and the periods between the first
/// period and lunch stay free periods.
pub proof fn lemma_regular_day_without_classes(day_of_week: DayOfWeek)
    requires
        day_of_week != DayOfWeek::Wednesday,
    ensures
        reconstructed(column_without_classes(), day_of_week) == Ok::<Seq<LessonView>, ScrapeError>(
            seq![
                LessonView::AbsentPeriod,
                LessonView::FreePeriod,
                LessonView::FreePeriod,
                LessonView::Recess,
                LessonView::FreePeriod,
                LessonView::FreePeriod,
                LessonView::Lunch1,
                LessonView::Lunch2,
                LessonView::AbsentPeriod,
                LessonView::AbsentPeriod,
                LessonView::AbsentPeriod,
                LessonView::AbsentPeriod,
            ],
        ),
{
    let raw = column_without_classes();
    lemma_regular_day_order(raw, day_of_week);
    let free = LessonView::FreePeriod;
    let ordered = seq![
        free,
        free,
        free,
        LessonView::Recess,
        free,
        free,
        LessonView::Lunch1,
        LessonView::Lunch2,
        free,
        free,
        free,
        free,
    ];
    let marked = seq![
        LessonView::AbsentPeriod,
        free,
        free,
        LessonView::Recess,
        free,
        free,
        LessonView::Lunch1,
        LessonView::Lunch2,
        LessonView::AbsentPeriod,
        LessonView::AbsentPeriod,
        LessonView::AbsentPeriod,
        LessonView::AbsentPeriod,
    ];
    assert forall|i: int| 0 <= i < 12 implies #[trigger] mark_absences(ordered)[i] == marked[i] by {
        if 0 < i < 8 {
            assert(!(ordered[7] is FreePeriod));
            assert(!free_from(ordered, i));
        }
    }
    assert(mark_absences(ordered) =~= marked);
}

/// A Wednesday without classes keeps its breaks: as on a regular day, with
/// the free cell of the assembly before recess and one period more after
/// lunch.
pub proof fn lemma_midweek_day_without_classes()
    ensures
        reconstructed(column_without_classes(), DayOfWeek::Wednesday) == Ok::<
            Seq<LessonView>,
            ScrapeError,
        >(
            seq![
                LessonView::AbsentPeriod,
                LessonView::FreePeriod,
                LessonView::FreePeriod,
                LessonView::FreePeriod,
                LessonView::Recess,
                LessonView::FreePeriod,
                LessonView::Lunch1,
                LessonView::Lunch2,
                LessonView::AbsentPeriod,
                LessonView::AbsentPeriod,
                LessonView::AbsentPeriod,
                LessonView::AbsentPeriod,
                LessonView::AbsentPeriod,
            ],
        ),
{
    let raw = column_without_classes();
    lemma_midweek_day_order(raw);
    let free = LessonView::FreePeriod;
    let ordered = seq![
        free,
        free,
        free,
        free,
        LessonView::Recess,
        free,
        LessonView::Lunch1,
        LessonView::Lunch2,
        free,
        free,
        free,
        free,
        free,
    ];
    let marked = seq![
        LessonView::AbsentPeriod,
        free,
        free,
        free,
        LessonView::Recess,
        free,
        LessonView::Lunch1,
        LessonView::Lunch2,
        LessonView::AbsentPeriod,
        LessonView::AbsentPeriod,
        LessonView::AbsentPeriod,
        LessonView::AbsentPeriod,
        LessonView::AbsentPeriod,
    ];
    assert forall|i: int| 0 <= i < 13 implies #[trigger] mark_absences(ordered)[i] == marked[i] by {
        if 0 < i < 8 {
            assert(!(ordered[7] is FreePeriod));
            assert(!free_from(ordered, i));
        }
    }
    assert(mark_absences(ordered) =~= marked);
}

/// The column of a weekday when one more cell is read.
pub proof fn lemma_column_push(cells: Seq<LessonView>, cell: LessonView, day: nat)
    requires
        day < 5,
    ensures
        column(cells.push(cell), day) == if cells.len() % 5 == day {
            column(cells, day).push(cell)
        } else {
            column(cells, day)
        },
{
    let more = cells.push(cell);
    if cells.len() % 5 == day {
        assert(column(more, day) =~= column(cells, day).push(cell));
    } else {
        assert(column(more, day) =~= column(cells, day));
    }
}

/// The day of a column: a weekday that got no cell has no lessons, any other
/// column is reconstructed.
pub fn day_from_column(lessons: Vec<Lesson>, day_of_week: DayOfWeek) -> (day: Result<
    Day,
    ScrapeError,
>)
    ensures
        match day {
            Ok(d) => day_of_column(lessons_view(lessons@), day_of_week) == Ok::<
                Seq<LessonView>,
                ScrapeError,
            >(d@),
            Err(e) => day_of_column(lessons_view(lessons@), day_of_week) == Err::<
                Seq<LessonView>,
                ScrapeError,
            >(e),
        },
{
    if lessons.len() == 0 {
        Ok(Day { lessons })
    } else {
        reconstruct_day(lessons, day_of_week)
    }
}

/// The week that the cells of a table stand for: the cells are dealt out to
/// the weekdays row by row, and each day is reconstructed from its column.
pub fn build_week(cells: Vec<Lesson>) -> (week: Result<Week, ScrapeError>)
    ensures
        match week {
            Ok(w) => week_of_cells(lessons_view(cells@)) == Ok::<WeekView, ScrapeError>(w@),
            Err(e) => week_of_cells(lessons_view(cells@)) == Err::<WeekView, ScrapeError>(e),
        },
{
    let ghost all = lessons_view(cells@);
    let ghost raw = cells@;
    let mut monday: Vec<Lesson> = Vec::new();
    let mut tuesday: Vec<Lesson> = Vec::new();
    let mut wednesday: Vec<Lesson> = Vec::new();
    let mut thursday: Vec<Lesson> = Vec::new();
    let mut friday: Vec<Lesson> = Vec::new();
    let mut day: usize = 0;
    proof {
        assert(column(all.take(0), 0) =~= Seq::empty());
        assert(column(all.take(0), 1) =~= Seq::empty());
        assert(column(all.take(0), 2) =~= Seq::empty());
        assert(column(all.take(0), 3) =~= Seq::empty());
        assert(column(all.take(0), 4) =~= Seq::empty());
        assert(lessons_view(monday@) =~= Seq::empty());
        assert(lessons_view(tuesday@) =~= Seq::empty());
        assert(lessons_view(wednesday@) =~= Seq::empty());
        assert(lessons_view(thursday@) =~= Seq::empty());
        assert(lessons_view(friday@) =~= Seq::empty());
    }
    // Lessons are stored in the table in rows with each column representing a day of the week.
    // Go across each row and add the lessons to the correct day of the week.
    for lesson in it: cells
        invariant
            it.seq() == raw,
            all == lessons_view(raw),
            day == it.index() % 5,
            lessons_view(monday@) == column(all.take(it.index()), 0),
            lessons_view(tuesday@) == column(all.take(it.index()), 1),
            lessons_view(wednesday@) == column(all.take(it.index()), 2),
            lessons_view(thursday@) == column(all.take(it.index()), 3),
            lessons_view(friday@) == column(all.take(it.index()), 4),
    {
        proof {
            let seen = all.take(it.index());
            assert(all.take(it.index() + 1) =~= seen.push(lesson@));
            lemma_column_push(seen, lesson@, 0);
            lemma_column_push(seen, lesson@, 1);
            lemma_column_push(seen, lesson@, 2);
            lemma_column_push(seen, lesson@, 3);
            lemma_column_push(seen, lesson@, 4);
        }
        let ghost monday_before = lessons_view(monday@);
        let ghost tuesday_before = lessons_view(tuesday@);
        let ghost wednesday_before = lessons_view(wednesday@);
        let ghost thursday_before = lessons_view(thursday@);
        let ghost friday_before = lessons_view(friday@);
        if day == 0 {
            monday.push(lesson);
            proof {
                assert(lessons_view(monday@) =~= monday_before.push(lesson@));
            }
        } else if day == 1 {
            tuesday.push(lesson);
            proof {
                assert(lessons_view(tuesday@) =~= tuesday_before.push(lesson@));
            }
        } else if day == 2 {
            wednesday.push(lesson);
            proof {
                assert(lessons_view(wednesday@) =~= wednesday_before.push(lesson@));
            }
        } else if day == 3 {
            thursday.push(lesson);
            proof {
                assert(lessons_view(thursday@) =~= thursday_before.push(lesson@));
            }
        } else {
            friday.push(lesson);
            proof {
                assert(lessons_view(friday@) =~= friday_before.push(lesson@));
            }
        }
        day = if day + 1 == DAYS { 0 } else { day + 1 };
    }
    proof {
        assert(all.take(all.len() as int) =~= all);
    }
    let monday = match day_from_column(monday, DayOfWeek::Monday) {
        Ok(day) => day,
        Err(e) => {
            return Err(e);
        },
    };
    let tuesday = match day_from_column(tuesday, DayOfWeek::Tuesday) {
        Ok(day) => day,
        Err(e) => {
            return Err(e);
        },
    };
    let wednesday = match day_from_column(wednesday, DayOfWeek::Wednesday) {
        Ok(day) => day,
        Err(e) => {
            return Err(e);
        },
    };
    let thursday = match day_from_column(thursday, DayOfWeek::Thursday) {
        Ok(day) => day,
        Err(e) => {
            return Err(e);
        },
    };
    let friday = match day_from_column(friday, DayOfWeek::Friday) {
        Ok(day) => day,
        Err(e) => {
            return Err(e);
        },
    };
    Ok(Week { monday, tuesday, wednesday, thursday, friday })
}

} // verus!
