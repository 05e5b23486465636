use school_timetable::scraper::cell::{
    lesson_from_cell, parse_codes, parse_room, parse_subject, parse_teacher, RawCell,
};
use school_timetable::scraper::ScrapeError;
use school_timetable::types::{Lesson, Subject, Teacher};

fn subject(name: &str, faculty: &str) -> Subject {
    Subject { name: name.to_string(), faculty: faculty.to_string() }
}

fn cell(subject: &str, details: &[&str], code: &str) -> RawCell {
    RawCell {
        empty: false,
        subject: Some(subject.to_string()),
        details: details.iter().map(|d| d.to_string()).collect(),
        code: Some(code.to_string()),
    }
}

#[test]
fn teacher_placeholder_is_no_teacher() {
    assert_eq!(parse_teacher("~"), None);
}

#[test]
fn teacher_with_one_word_has_a_last_name_only() {
    assert_eq!(
        parse_teacher("Smith"),
        Some(Teacher { last_name: "Smith".to_string(), first_name: None })
    );
}

#[test]
fn teacher_first_word_is_taken_for_the_last_name() {
    assert_eq!(
        parse_teacher("Jane Smith"),
        Some(Teacher { last_name: "Jane".to_string(), first_name: Some("Smith".to_string()) })
    );
}

#[test]
fn teacher_words_are_split_at_any_white_space() {
    assert_eq!(
        parse_teacher("  Mr\t \nBrown  PhD "),
        Some(Teacher { last_name: "Mr".to_string(), first_name: Some("Brown".to_string()) })
    );
    assert_eq!(
        parse_teacher(" Lee "),
        Some(Teacher { last_name: "Lee".to_string(), first_name: None })
    );
}

#[test]
fn teacher_without_a_word_is_no_teacher() {
    assert_eq!(parse_teacher(""), None);
    assert_eq!(parse_teacher("  \t"), None);
}

#[test]
fn teacher_placeholder_among_other_text_is_a_name() {
    assert_eq!(
        parse_teacher("~ ~"),
        Some(Teacher { last_name: "~".to_string(), first_name: Some("~".to_string()) })
    );
}

#[test]
fn teacher_name_puts_the_first_name_first() {
    let both = Teacher { last_name: "Smith".to_string(), first_name: Some("Jane".to_string()) };
    assert_eq!(both.name(), "Jane Smith");
    let last_only = Teacher { last_name: "Smith".to_string(), first_name: None };
    assert_eq!(last_only.name(), "Smith");
}

#[test]
fn room_placeholder_is_no_room() {
    assert_eq!(parse_room("~".to_string()), None);
    assert_eq!(parse_room("B12".to_string()), Some("B12".to_string()));
    assert_eq!(parse_room("".to_string()), Some("".to_string()));
    assert_eq!(parse_room(" ~".to_string()), Some(" ~".to_string()));
}

#[test]
fn subject_with_faculty_and_year_group() {
    assert_eq!(parse_subject("HSIE | Commerce Yr9"), Ok(subject("Commerce", "HSIE")));
}

#[test]
fn subject_of_pastoral_care_is_the_assembly() {
    assert_eq!(parse_subject("Pastoral Care Past_Car"), Ok(subject("Assembly", "Pastoral Care")));
}

#[test]
fn subject_of_sport() {
    assert_eq!(parse_subject("Sport Sport"), Ok(subject("Sport", "Phys.Ed")));
}

#[test]
fn subject_without_faculty_is_its_own_faculty() {
    assert_eq!(parse_subject("Mathematics Yr10"), Ok(subject("Mathematics", "Mathematics")));
    assert_eq!(
        parse_subject("English Extension Yr11"),
        Ok(subject("English Extension", "English Extension"))
    );
}

#[test]
fn subject_name_ends_at_the_second_bar() {
    assert_eq!(
        parse_subject("Science | Physics Yr12| extra words"),
        Ok(subject("Physics", "Science"))
    );
    // The space before the second bar is the last space of the name.
    assert_eq!(
        parse_subject("Science | Physics Yr12 | extra words"),
        Ok(subject("Physics Yr12", "Science"))
    );
}

#[test]
fn subject_parts_are_trimmed() {
    assert_eq!(parse_subject("  TAS  |  Food Tech   Yr8"), Ok(subject("Food Tech", "TAS")));
    assert_eq!(parse_subject("|Art Yr7"), Ok(subject("Art", "")));
    assert_eq!(parse_subject("Art "), Ok(subject("Art", "Art")));
}

#[test]
fn subject_without_year_group_is_malformed() {
    assert_eq!(parse_subject("Mathematics"), Err(ScrapeError::MalformedSubject));
    assert_eq!(parse_subject(""), Err(ScrapeError::MalformedSubject));
    assert_eq!(parse_subject("HSIE |Commerce"), Err(ScrapeError::MalformedSubject));
    assert_eq!(parse_subject("HSIE Yr9|"), Err(ScrapeError::MalformedSubject));
}

#[test]
fn codes_are_split_at_the_first_space() {
    assert_eq!(parse_codes("MAT 3"), Some(("MAT".to_string(), "3".to_string())));
    assert_eq!(parse_codes("MAT 3 b"), Some(("MAT".to_string(), "3 b".to_string())));
    assert_eq!(parse_codes(" 3"), Some(("".to_string(), "3".to_string())));
    assert_eq!(parse_codes("MAT "), Some(("MAT".to_string(), "".to_string())));
    assert_eq!(parse_codes("MAT3"), None);
    assert_eq!(parse_codes(""), None);
}

#[test]
fn sport_prefix_is_taken_off_the_subject_code() {
    assert_eq!(parse_codes("SPTTennis 1"), Some(("Tennis".to_string(), "1".to_string())));
    assert_eq!(parse_codes("SPT 1"), Some(("".to_string(), "1".to_string())));
    assert_eq!(parse_codes("SP TT"), Some(("SP".to_string(), "TT".to_string())));
    assert_eq!(parse_codes("SPORT 2"), Some(("SPORT".to_string(), "2".to_string())));
    assert_eq!(parse_codes("XSPTA 2"), Some(("XSPTA".to_string(), "2".to_string())));
    assert_eq!(parse_codes("SP T"), Some(("SP".to_string(), "T".to_string())));
}

#[test]
fn empty_cell_is_a_free_period() {
    let empty = RawCell { empty: true, subject: None, details: vec![], code: None };
    assert_eq!(lesson_from_cell(&empty), Ok(Lesson::FreePeriod));
    let mut odd = cell("HSIE | Commerce Yr9", &["1", "Smith", "B12"], "COM 3");
    odd.empty = true;
    assert_eq!(lesson_from_cell(&odd), Ok(Lesson::FreePeriod));
}

#[test]
fn occupied_cell_is_a_present_lesson() {
    let lesson = lesson_from_cell(&cell("HSIE | Commerce Yr9", &["3", "Jane Smith", "B12"], "COM 3"));
    assert_eq!(
        lesson,
        Ok(Lesson::Present {
            subject: subject("Commerce", "HSIE"),
            teacher: Some(Teacher {
                last_name: "Jane".to_string(),
                first_name: Some("Smith".to_string()),
            }),
            room: Some("B12".to_string()),
            subject_code: "COM".to_string(),
            class_code: "3".to_string(),
        })
    );
}

#[test]
fn occupied_cell_without_teacher_and_room() {
    let lesson = lesson_from_cell(&cell("Sport Sport", &["5", "~", "~", "more"], "SPTTennis 1"));
    assert_eq!(
        lesson,
        Ok(Lesson::Present {
            subject: subject("Sport", "Phys.Ed"),
            teacher: None,
            room: None,
            subject_code: "Tennis".to_string(),
            class_code: "1".to_string(),
        })
    );
}

#[test]
fn occupied_cell_without_subject() {
    let mut raw = cell("x", &["1", "Smith", "B12"], "COM 3");
    raw.subject = None;
    assert_eq!(lesson_from_cell(&raw), Err(ScrapeError::MissingSubject));
}

#[test]
fn occupied_cell_without_teacher() {
    assert_eq!(
        lesson_from_cell(&cell("HSIE | Commerce Yr9", &["1"], "COM 3")),
        Err(ScrapeError::MissingTeacher)
    );
}

#[test]
fn occupied_cell_without_period_label() {
    assert_eq!(
        lesson_from_cell(&cell("HSIE | Commerce Yr9", &[], "COM 3")),
        Err(ScrapeError::MissingLabel)
    );
}

#[test]
fn occupied_cell_without_room() {
    assert_eq!(
        lesson_from_cell(&cell("HSIE | Commerce Yr9", &["1", "Smith"], "COM 3")),
        Err(ScrapeError::MissingRoom)
    );
}

#[test]
fn occupied_cell_without_code() {
    let mut raw = cell("HSIE | Commerce Yr9", &["1", "Smith", "B12"], "COM 3");
    raw.code = None;
    assert_eq!(lesson_from_cell(&raw), Err(ScrapeError::MissingCode));
}

#[test]
fn occupied_cell_with_malformed_code() {
    assert_eq!(
        lesson_from_cell(&cell("HSIE | Commerce Yr9", &["1", "Smith", "B12"], "COM3")),
        Err(ScrapeError::MalformedCode)
    );
}

#[test]
fn occupied_cell_with_malformed_subject() {
    assert_eq!(
        lesson_from_cell(&cell("Commerce", &["1", "Smith", "B12"], "COM 3")),
        Err(ScrapeError::MalformedSubject)
    );
}

#[test]
fn the_first_fault_of_a_cell_is_reported() {
    let mut raw = cell("Commerce", &["1"], "COM3");
    assert_eq!(lesson_from_cell(&raw), Err(ScrapeError::MissingTeacher));
    raw.details = vec!["1".to_string(), "Smith".to_string(), "B12".to_string()];
    assert_eq!(lesson_from_cell(&raw), Err(ScrapeError::MalformedCode));
    raw.code = Some("COM 3".to_string());
    assert_eq!(lesson_from_cell(&raw), Err(ScrapeError::MalformedSubject));
}
