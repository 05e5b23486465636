use school_timetable::scraper::cell::RawCell;
use school_timetable::scraper::{
    lessons_from_cells, raw_cell, scrape_lesson, scrape_room, scrape_student_identities,
    scrape_student_identity, scrape_subject, scrape_teacher, scrape_timetable_page, scrape_week,
    student_from_entry, week_from_cells, ScrapeError, StudentEntry,
};
use school_timetable::types::{Day, Lesson, StudentIdentity, Subject, Teacher, Week};
use select::document::Document;
use select::predicate::{Class, Name};

use Lesson::{AbsentPeriod, FreePeriod, Lunch1, Lunch2, Recess};

fn occupied(subject: &str, period: &str, teacher: &str, room: &str, code: &str) -> String {
    format!(
        "<td><strong>{}</strong><span>{}</span><span>{}</span><span>{}</span><small>{}</small></td>",
        subject, period, teacher, room, code
    )
}

/// A table of 14 rows and 5 columns; `cell` gives the cell of a row and a
/// weekday.
fn table(cell: &dyn Fn(usize, usize) -> String) -> String {
    let mut html = String::from("<table class=\"table\"><tbody>");
    for row in 0..14 {
        html += "<tr>";
        for day in 0..5 {
            html += &cell(row, day);
        }
        html += "</tr>";
    }
    html += "</tbody></table>";
    html
}

fn empty_cell() -> String {
    "<td></td>".to_string()
}

fn maths() -> Lesson {
    Lesson::Present {
        subject: Subject { name: "Mathematics".to_string(), faculty: "Maths".to_string() },
        teacher: Some(Teacher { last_name: "Ada".to_string(), first_name: Some("Byron".to_string()) }),
        room: Some("B12".to_string()),
        subject_code: "MAT".to_string(),
        class_code: "4".to_string(),
    }
}

fn assembly() -> Lesson {
    Lesson::Present {
        subject: Subject { name: "Assembly".to_string(), faculty: "Pastoral Care".to_string() },
        teacher: None,
        room: None,
        subject_code: "PC".to_string(),
        class_code: "9".to_string(),
    }
}

fn tennis() -> Lesson {
    Lesson::Present {
        subject: Subject { name: "Sport".to_string(), faculty: "Phys.Ed".to_string() },
        teacher: Some(Teacher { last_name: "Coach".to_string(), first_name: None }),
        room: None,
        subject_code: "Tennis".to_string(),
        class_code: "1".to_string(),
    }
}

/// Week A: maths in period 0 on Monday, the assembly on Wednesday, tennis in
/// period 4 on Wednesday.
fn week_a_table() -> String {
    table(&|row, day| match (row, day) {
        (0, 0) => occupied("Maths | Mathematics Yr9", "0", "Ada Byron", "B12", "MAT 4"),
        (3, 2) => occupied("Pastoral Care Past_Car", "A", "~", "~", "PC 9"),
        (7, 2) => occupied("Sport Sport", "4", "Coach", "~", "SPTTennis 1"),
        _ => empty_cell(),
    })
}

/// Week B: maths in period 8 on Friday.
fn week_b_table() -> String {
    table(&|row, day| match (row, day) {
        (13, 4) => occupied("Maths | Mathematics Yr9", "8", "Ada Byron", "B12", "MAT 4"),
        _ => empty_cell(),
    })
}

fn page(tables: &[String]) -> String {
    format!("<html><head><title>Timetable</title></head><body><h1>9A</h1>{}</body></html>", tables.concat())
}

fn day_without_classes() -> Day {
    Day {
        lessons: vec![
            AbsentPeriod,
            FreePeriod,
            FreePeriod,
            Recess,
            FreePeriod,
            FreePeriod,
            Lunch1,
            Lunch2,
            AbsentPeriod,
            AbsentPeriod,
            AbsentPeriod,
            AbsentPeriod,
        ],
    }
}

fn midweek_without_classes() -> Day {
    Day {
        lessons: vec![
            AbsentPeriod,
            FreePeriod,
            FreePeriod,
            FreePeriod,
            Recess,
            FreePeriod,
            Lunch1,
            Lunch2,
            AbsentPeriod,
            AbsentPeriod,
            AbsentPeriod,
            AbsentPeriod,
            AbsentPeriod,
        ],
    }
}

fn expected_week_a() -> Week {
    let mut monday = day_without_classes();
    monday.lessons[0] = maths();
    let mut wednesday = midweek_without_classes();
    wednesday.lessons[3] = assembly();
    wednesday.lessons[8] = tennis();
    Week {
        monday,
        tuesday: day_without_classes(),
        wednesday,
        thursday: day_without_classes(),
        friday: day_without_classes(),
    }
}

fn expected_week_b() -> Week {
    let mut friday = day_without_classes();
    for at in 8..11 {
        friday.lessons[at] = FreePeriod;
    }
    friday.lessons[11] = maths();
    Week {
        monday: day_without_classes(),
        tuesday: day_without_classes(),
        wednesday: midweek_without_classes(),
        thursday: day_without_classes(),
        friday,
    }
}

#[test]
fn timetable_page_gives_both_weeks() {
    let timetable = scrape_timetable_page(&page(&[week_a_table(), week_b_table()])).unwrap();
    assert_eq!(timetable.week_a, expected_week_a());
    assert_eq!(timetable.week_b, expected_week_b());
}

#[test]
fn timetable_page_reads_its_first_two_tables() {
    let tables = [week_b_table(), week_a_table(), week_a_table()];
    let timetable = scrape_timetable_page(&page(&tables)).unwrap();
    assert_eq!(timetable.week_a, expected_week_b());
    assert_eq!(timetable.week_b, expected_week_a());
}

#[test]
fn timetable_page_without_two_tables_is_refused() {
    assert_eq!(scrape_timetable_page(""), Err(ScrapeError::MissingTable));
    assert_eq!(scrape_timetable_page(&page(&[])), Err(ScrapeError::MissingTable));
    assert_eq!(scrape_timetable_page(&page(&[week_a_table()])), Err(ScrapeError::MissingTable));
    let unmarked = week_a_table().replace("class=\"table\"", "class=\"grid\"");
    assert_eq!(
        scrape_timetable_page(&page(&[week_a_table(), unmarked])),
        Err(ScrapeError::MissingTable)
    );
}

#[test]
fn timetable_page_with_a_faulty_week_is_refused() {
    let recess = table(&|row, day| match (row, day) {
        (5, 1) => occupied("Maths | Mathematics Yr9", "R", "Ada Byron", "B12", "MAT 4"),
        _ => empty_cell(),
    });
    let no_code = table(&|row, day| match (row, day) {
        (0, 0) => "<td><strong>Maths | Mathematics Yr9</strong><span>0</span><span>Ada</span><span>B12</span></td>".to_string(),
        _ => empty_cell(),
    });
    assert_eq!(
        scrape_timetable_page(&page(&[week_a_table(), recess.clone()])),
        Err(ScrapeError::RecessOccupied)
    );
    assert_eq!(
        scrape_timetable_page(&page(&[no_code.clone(), recess.clone()])),
        Err(ScrapeError::MissingCode)
    );
    assert_eq!(
        scrape_timetable_page(&page(&[recess, no_code])),
        Err(ScrapeError::RecessOccupied)
    );
}

#[test]
fn week_is_read_from_its_table() {
    let html = page(&[week_a_table()]);
    let document = Document::from(html.as_str());
    let node = document.find(Class("table")).next().unwrap();
    assert_eq!(scrape_week(&node), Ok(expected_week_a()));
}

#[test]
fn table_without_cells_gives_an_empty_week() {
    let document = Document::from("<table class=\"table\"></table>");
    let node = document.find(Class("table")).next().unwrap();
    assert_eq!(scrape_week(&node), Ok(Week::default()));
}

#[test]
fn cell_fragments_are_read_from_the_cell() {
    let html = format!(
        "<table><tr>{}{}<td><span>only</span></td></tr></table>",
        occupied("HSIE | Commerce Yr9", "3", "Jane Smith", "~", "COM 3"),
        empty_cell()
    );
    let document = Document::from(html.as_str());
    let cells: Vec<RawCell> = document.find(Name("td")).map(|node| raw_cell(&node)).collect();
    assert_eq!(
        cells,
        vec![
            RawCell {
                empty: false,
                subject: Some("HSIE | Commerce Yr9".to_string()),
                details: vec!["3".to_string(), "Jane Smith".to_string(), "~".to_string()],
                code: Some("COM 3".to_string()),
            },
            RawCell { empty: true, subject: None, details: vec![], code: None },
            RawCell { empty: false, subject: None, details: vec!["only".to_string()], code: None },
        ]
    );
}

#[test]
fn lesson_is_read_from_its_cell() {
    let html = format!(
        "<table><tr>{}{}<td> </td><td><span>1</span><span>2</span><span>3</span><small>A 1</small></td></tr></table>",
        occupied("HSIE | Commerce Yr9", "3", "Jane Smith", "~", "COM 3"),
        empty_cell()
    );
    let document = Document::from(html.as_str());
    let lessons: Vec<Result<Lesson, ScrapeError>> =
        document.find(Name("td")).map(|node| scrape_lesson(&node)).collect();
    assert_eq!(
        lessons,
        vec![
            Ok(Lesson::Present {
                subject: Subject { name: "Commerce".to_string(), faculty: "HSIE".to_string() },
                teacher: Some(Teacher {
                    last_name: "Jane".to_string(),
                    first_name: Some("Smith".to_string()),
                }),
                room: None,
                subject_code: "COM".to_string(),
                class_code: "3".to_string(),
            }),
            Ok(FreePeriod),
            Err(ScrapeError::MissingSubject),
            Err(ScrapeError::MissingSubject),
        ]
    );
}

#[test]
fn subject_teacher_and_room_are_read_from_their_nodes() {
    let document = Document::from(
        "<p><strong>HSIE | <em>Commerce</em> Yr9</strong><i>Jane Smith</i><b>~</b><u>B12</u></p>",
    );
    let strong = document.find(Name("strong")).next().unwrap();
    let i = document.find(Name("i")).next().unwrap();
    let b = document.find(Name("b")).next().unwrap();
    let u = document.find(Name("u")).next().unwrap();
    assert_eq!(
        scrape_subject(&strong),
        Ok(Subject { name: "Commerce".to_string(), faculty: "HSIE".to_string() })
    );
    assert_eq!(scrape_subject(&b), Err(ScrapeError::MalformedSubject));
    assert_eq!(
        scrape_teacher(&i),
        Some(Teacher { last_name: "Jane".to_string(), first_name: Some("Smith".to_string()) })
    );
    assert_eq!(scrape_teacher(&b), None);
    assert_eq!(scrape_room(&u), Some("B12".to_string()));
    assert_eq!(scrape_room(&b), None);
}

#[test]
fn lessons_of_cells_stop_at_the_first_fault() {
    let free = || RawCell { empty: true, subject: None, details: vec![], code: None };
    let no_subject = || RawCell { empty: false, subject: None, details: vec![], code: None };
    let no_teacher = || RawCell {
        empty: false,
        subject: Some("Art Yr7".to_string()),
        details: vec!["1".to_string()],
        code: None,
    };
    assert_eq!(lessons_from_cells(&vec![]), Ok(vec![]));
    assert_eq!(lessons_from_cells(&vec![free(), free()]), Ok(vec![FreePeriod, FreePeriod]));
    assert_eq!(
        lessons_from_cells(&vec![free(), no_teacher(), no_subject()]),
        Err(ScrapeError::MissingTeacher)
    );
    assert_eq!(
        lessons_from_cells(&vec![no_subject(), no_teacher(), free()]),
        Err(ScrapeError::MissingSubject)
    );
}

#[test]
fn week_of_cells_reports_a_faulty_cell_before_a_faulty_column() {
    let free = || RawCell { empty: true, subject: None, details: vec![], code: None };
    let art = || RawCell {
        empty: false,
        subject: Some("Art Yr7".to_string()),
        details: vec!["1".to_string(), "~".to_string(), "~".to_string()],
        code: Some("ART 2".to_string()),
    };
    let mut cells: Vec<RawCell> = (0..70).map(|_| free()).collect();
    cells[20] = art();
    assert_eq!(week_from_cells(&cells), Err(ScrapeError::PlaceholderOccupied));
    cells[69] = RawCell { empty: false, subject: None, details: vec![], code: None };
    assert_eq!(week_from_cells(&cells), Err(ScrapeError::MissingSubject));
    let all_free: Vec<RawCell> = (0..70).map(|_| free()).collect();
    assert_eq!(
        week_from_cells(&all_free),
        Ok(Week {
            monday: day_without_classes(),
            tuesday: day_without_classes(),
            wednesday: midweek_without_classes(),
            thursday: day_without_classes(),
            friday: day_without_classes(),
        })
    );
}

fn index_page(entries: &str) -> String {
    format!(
        "<html><body><ul id=\"other\"><a href=\"/tt-1/0\"><span>Not Listed</span></a></ul><div id=\"student-entries\">{}</div></body></html>",
        entries
    )
}

fn student(first: &str, last: &str, id: &str) -> StudentIdentity {
    StudentIdentity { first: first.to_string(), last: last.to_string(), id: id.to_string() }
}

#[test]
fn students_are_read_from_the_index_page() {
    let html = index_page(
        "<a href=\"/tt-1/123\"><span>Jane Smith</span></a>\
         <p><a href=\"/tt-1/abc-456\" class=\"x\"><b><span>John Ronald Tolkien</span></b><span>9A</span></a></p>",
    );
    assert_eq!(
        scrape_student_identities(&html, "tt-1"),
        Ok(vec![student("Jane", "Smith", "123"), student("John", "Ronald Tolkien", "abc-456")])
    );
}

#[test]
fn index_page_without_students() {
    assert_eq!(scrape_student_identities(&index_page(""), "tt-1"), Ok(vec![]));
    assert_eq!(
        scrape_student_identities("<html><body><div id=\"students\"></div></body></html>", "tt-1"),
        Err(ScrapeError::MissingStudentList)
    );
    assert_eq!(scrape_student_identities("", "tt-1"), Err(ScrapeError::MissingStudentList));
}

#[test]
fn index_page_with_a_faulty_entry_is_refused() {
    let good = "<a href=\"/tt-1/123\"><span>Jane Smith</span></a>";
    let faulty = [
        ("<a href=\"/tt-1/1\">Jane Smith</a>", ScrapeError::MissingStudentName),
        ("<a href=\"/tt-1/1\"><span>Jane</span></a>", ScrapeError::MalformedStudentName),
        ("<a><span>Jane Smith</span></a>", ScrapeError::MissingStudentLink),
        ("<a href=\"/tt-2/1\"><span>Jane Smith</span></a>", ScrapeError::ForeignStudentLink),
        ("<a href=\"tt-1/1\"><span>Jane Smith</span></a>", ScrapeError::ForeignStudentLink),
        ("<a href=\"/tt-1\"><span>Jane Smith</span></a>", ScrapeError::ForeignStudentLink),
        ("<a><span>Jane</span></a>", ScrapeError::MalformedStudentName),
        ("<a></a>", ScrapeError::MissingStudentName),
    ];
    for (entry, fault) in faulty {
        let html = index_page(&format!("{}{}{}", good, entry, good));
        assert_eq!(scrape_student_identities(&html, "tt-1"), Err(fault), "{}", entry);
    }
}

#[test]
fn student_is_read_from_its_entry() {
    let document = Document::from("<a href=\"/tt-1/123\"><span>Jane Smith</span></a>");
    let node = document.find(Name("a")).next().unwrap();
    assert_eq!(scrape_student_identity(&node, "tt-1"), Ok(student("Jane", "Smith", "123")));
    assert_eq!(scrape_student_identity(&node, "tt-"), Err(ScrapeError::ForeignStudentLink));
    assert_eq!(scrape_student_identity(&node, ""), Err(ScrapeError::ForeignStudentLink));
}

#[test]
fn student_of_an_entry() {
    let entry = |name: Option<&str>, link: Option<&str>| StudentEntry {
        name: name.map(|n| n.to_string()),
        link: link.map(|l| l.to_string()),
    };
    assert_eq!(
        student_from_entry(&entry(Some("Jane Smith"), Some("/tt-1/123")), "tt-1"),
        Ok(student("Jane", "Smith", "123"))
    );
    assert_eq!(
        student_from_entry(&entry(Some(" Smith"), Some("/tt-1/")), "tt-1"),
        Ok(student("", "Smith", ""))
    );
    assert_eq!(
        student_from_entry(&entry(Some("Jane "), Some("//x/y")), ""),
        Ok(student("Jane", "", "x/y"))
    );
    assert_eq!(
        student_from_entry(&entry(None, None), "tt-1"),
        Err(ScrapeError::MissingStudentName)
    );
    assert_eq!(
        student_from_entry(&entry(Some("Jane"), None), "tt-1"),
        Err(ScrapeError::MalformedStudentName)
    );
    assert_eq!(
        student_from_entry(&entry(Some("Jane Smith"), None), "tt-1"),
        Err(ScrapeError::MissingStudentLink)
    );
    assert_eq!(
        student_from_entry(&entry(Some("Jane Smith"), Some("/tt-10/123")), "tt-1"),
        Err(ScrapeError::ForeignStudentLink)
    );
}
