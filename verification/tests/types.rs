use school_timetable::types::{Day, DayOfWeek, Lesson, Subject, Timetable, Week};

const WEEKDAYS: [DayOfWeek; 5] = [
    DayOfWeek::Monday,
    DayOfWeek::Tuesday,
    DayOfWeek::Wednesday,
    DayOfWeek::Thursday,
    DayOfWeek::Friday,
];

#[test]
fn weekday_cursor_starts_on_monday_and_goes_round() {
    let mut cursor = DayOfWeek::iter();
    for round in 0..3 {
        for day in WEEKDAYS {
            assert_eq!(cursor.next(), Some(day), "round {}", round);
        }
    }
}

#[test]
fn weekdays_are_numbered_from_monday() {
    for (number, day) in WEEKDAYS.iter().enumerate() {
        assert_eq!(day.index() as usize, number);
    }
}

#[test]
fn weekdays_are_ordered_as_in_the_calendar() {
    for pair in WEEKDAYS.windows(2) {
        assert!(pair[0] < pair[1]);
    }
}

#[test]
fn subjects_are_ordered_by_name_then_faculty() {
    let subject = |name: &str, faculty: &str| Subject {
        name: name.to_string(),
        faculty: faculty.to_string(),
    };
    assert!(subject("Art", "Z") < subject("Biology", "A"));
    assert!(subject("Art", "A") < subject("Art", "B"));
    assert_eq!(subject("Art", "A"), subject("Art", "A"));
    assert_ne!(subject("Art", "A"), subject("A", "Art"));
}

#[test]
fn free_period_is_the_only_free_lesson() {
    assert!(Lesson::FreePeriod.is_free());
    assert!(!Lesson::AbsentPeriod.is_free());
    assert!(!Lesson::Recess.is_free());
    assert!(!Lesson::Lunch1.is_free());
    assert!(!Lesson::Lunch2.is_free());
}

#[test]
fn days_of_a_week_are_found_by_weekday() {
    let day = |n: usize| Day { lessons: (0..n).map(|_| Lesson::Recess).collect() };
    let week =
        Week { monday: day(1), tuesday: day(2), wednesday: day(3), thursday: day(4), friday: day(5) };
    for (number, day_of_week) in WEEKDAYS.iter().enumerate() {
        assert_eq!(week.day(*day_of_week).lessons.len(), number + 1);
    }
    let timetable = Timetable { week_a: week, week_b: Week::default() };
    assert_eq!(timetable.week_b.day(DayOfWeek::Friday), &Day::default());
}
