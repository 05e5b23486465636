//! From the text fragments of one table cell to a lesson.

use crate::scraper::ScrapeError;
use crate::text::{
    after_first_word, chars_of, find_char, first_word, has_prefix, last_offset_of, offset_of,
    rfind_char, same_text, skip_run, starts_with_at, substring, trim, trim_bounds, trim_start,
};
use crate::types::{
    text_option_view, texts, Lesson, LessonView, Subject, SubjectView, Teacher, TeacherView,
    ASSEMBLY,
};
use vstd::prelude::*;
use vstd::string::StringExecFns;

verus! {

/// What the page writes where a cell has no teacher or no room.
pub const NO_VALUE: &'static str = "~";

/// What the page puts before the name of a sport in a subject code.
pub const SPORT_PREFIX: &'static str = "SPT";

/// The subject text of the weekly assembly.
pub const PASTORAL_CARE_TEXT: &'static str = "Pastoral Care Past_Car";

pub const PASTORAL_CARE_FACULTY: &'static str = "Pastoral Care";

/// The subject text of sport.
pub const SPORT_TEXT: &'static str = "Sport Sport";

pub const SPORT_NAME: &'static str = "Sport";

pub const SPORT_FACULTY: &'static str = "Phys.Ed";

/// The text fragments of one cell of the table.
#[derive(Debug, PartialEq)]
pub struct RawCell {
    /// Whether the cell holds nothing at all.
    pub empty: bool,
    /// The subject text, if the cell has one.
    pub subject: Option<String>,
    /// The further fragments, in order: the period's label, the teacher, the
    /// room.
    pub details: Vec<String>,
    /// The subject code and the class code in one fragment, if the cell has
    /// one.
    pub code: Option<String>,
}

pub struct RawCellView {
    pub empty: bool,
    pub subject: Option<Seq<char>>,
    pub details: Seq<Seq<char>>,
    pub code: Option<Seq<char>>,
}

impl View for RawCell {
    type V = RawCellView;

    open spec fn view(&self) -> RawCellView {
        RawCellView {
            empty: self.empty,
            subject: text_option_view(self.subject),
            details: texts(self.details@),
            code: text_option_view(self.code),
        }
    }
}

/// The subject that a subject text stands for.
///
/// Two texts are fixed: that of the assembly and that of sport. Any other
/// text is a name and a year group, or a faculty, a bar, and a name and a
/// year group; the year group is what follows the last space. Where there
/// is no bar, the faculty is the name.
pub open spec fn subject_of(text: Seq<char>) -> Result<SubjectView, ScrapeError> {
    if text == PASTORAL_CARE_TEXT@ {
        Ok(SubjectView { name: ASSEMBLY@, faculty: PASTORAL_CARE_FACULTY@ })
    } else if text == SPORT_TEXT@ {
        Ok(SubjectView { name: SPORT_NAME@, faculty: SPORT_FACULTY@ })
    } else {
        let bar = offset_of(text, '|');
        if bar < text.len() {
            let rest = text.skip(bar as int + 1);
            let named = rest.take(offset_of(rest, '|') as int);
            let space = last_offset_of(named, ' ');
            if space < 0 {
                Err(ScrapeError::MalformedSubject)
            } else {
                Ok(
                    SubjectView {
                        name: trim(named.take(space)),
                        faculty: trim(text.take(bar as int)),
                    },
                )
            }
        } else {
            let space = last_offset_of(text, ' ');
            if space < 0 {
                Err(ScrapeError::MalformedSubject)
            } else {
                Ok(SubjectView { name: trim(text.take(space)), faculty: trim(text.take(space)) })
            }
        }
    }
}

/// The teacher that a teacher text stands for: none for the text "~" and for
/// a text without a word; else the first word is taken for the last name and
/// the second word, if there is one, for the first name.
pub open spec fn teacher_of(text: Seq<char>) -> Option<TeacherView> {
    if text == NO_VALUE@ || first_word(text).len() == 0 {
        None
    } else {
        let second = first_word(after_first_word(text));
        Some(
            TeacherView {
                first_name: if second.len() == 0 {
                    None
                } else {
                    Some(second)
                },
                last_name: first_word(text),
            },
        )
    }
}

/// The room that a room text stands for: none for the text "~".
pub open spec fn room_of(text: Seq<char>) -> Option<Seq<char>> {
    if text == NO_VALUE@ {
        None
    } else {
        Some(text)
    }
}

/// A subject code without the prefix that marks a sport.
pub open spec fn without_sport_prefix(code: Seq<char>) -> Seq<char> {
    if has_prefix(code, SPORT_PREFIX@) {
        code.skip(SPORT_PREFIX@.len() as int)
    } else {
        code
    }
}

/// The lesson that a cell stands for, or the first thing that an occupied
/// cell lacks.
pub open spec fn lesson_of_cell(cell: RawCellView) -> Result<LessonView, ScrapeError> {
    if cell.empty {
        Ok(LessonView::FreePeriod)
    } else if cell.subject is None {
        Err(ScrapeError::MissingSubject)
    } else if cell.details.len() < 1 {
        Err(ScrapeError::MissingLabel)
    } else if cell.details.len() < 2 {
        Err(ScrapeError::MissingTeacher)
    } else if cell.details.len() < 3 {
        Err(ScrapeError::MissingRoom)
    } else if cell.code is None {
        Err(ScrapeError::MissingCode)
    } else {
        let code = cell.code->0;
        let space = offset_of(code, ' ');
        if space >= code.len() {
            Err(ScrapeError::MalformedCode)
        } else {
            match subject_of(cell.subject->0) {
                Err(e) => Err(e),
                Ok(subject) => Ok(
                    LessonView::Present {
                        subject,
                        teacher: teacher_of(cell.details[1]),
                        room: room_of(cell.details[2]),
                        subject_code: without_sport_prefix(code.take(space as int)),
                        class_code: code.skip(space as int + 1),
                    },
                ),
            }
        }
    }
}

/// The view of a teacher that may be missing.
pub open spec fn teacher_option_view(teacher: Option<Teacher>) -> Option<TeacherView> {
    match teacher {
        Some(t) => Some(t@),
        None => None,
    }
}

pub fn parse_subject(text: &str) -> (subject: Result<Subject, ScrapeError>)
    ensures
        match subject {
            Ok(s) => subject_of(text@) == Ok::<SubjectView, ScrapeError>(s@),
            Err(e) => subject_of(text@) == Err::<SubjectView, ScrapeError>(e),
        },
{
    if same_text(text, PASTORAL_CARE_TEXT) {
        return Ok(
            Subject {
                name: String::from_str(ASSEMBLY),
                faculty: String::from_str(PASTORAL_CARE_FACULTY),
            },
        );
    } else if same_text(text, SPORT_TEXT) {
        return Ok(
            Subject { name: String::from_str(SPORT_NAME), faculty: String::from_str(SPORT_FACULTY) },
        );
    }
    let chars = chars_of(text);
    let len = chars.len();
    proof {
        assert(chars@.subrange(0, len as int) =~= text@);
    }
    let bar = find_char(&chars, '|', 0, len);
    if bar < len {
        let next = find_char(&chars, '|', bar + 1, len);
        proof {
            let rest = text@.skip(bar + 1);
            assert(chars@.subrange(bar + 1, len as int) =~= rest);
            assert(chars@.subrange(bar + 1, next as int) =~= rest.take(next - bar - 1));
        }
        // Strip year group off
        match rfind_char(&chars, ' ', bar + 1, next) {
            None => Err(ScrapeError::MalformedSubject),
            Some(last_space) => {
                proof {
                    let rest = text@.skip(bar + 1);
                    let named = rest.take(next - bar - 1);
                    assert(chars@.subrange(bar + 1, last_space as int) =~= named.take(
                        last_space - bar - 1,
                    ));
                    assert(chars@.subrange(0, bar as int) =~= text@.take(bar as int));
                }
                let name = trim_bounds(&chars, bar + 1, last_space);
                let faculty = trim_bounds(&chars, 0, bar);
                Ok(
                    Subject {
                        name: substring(text, name.0, name.1),
                        faculty: substring(text, faculty.0, faculty.1),
                    },
                )
            },
        }
    } else {
        match rfind_char(&chars, ' ', 0, len) {
            None => Err(ScrapeError::MalformedSubject),
            Some(last_space) => {
                proof {
                    assert(chars@.subrange(0, last_space as int) =~= text@.take(last_space as int));
                }
                let bounds = trim_bounds(&chars, 0, last_space);
                Ok(
                    Subject {
                        name: substring(text, bounds.0, bounds.1),
                        faculty: substring(text, bounds.0, bounds.1),
                    },
                )
            },
        }
    }
}

pub fn parse_teacher(text: &str) -> (teacher: Option<Teacher>)
    ensures
        teacher_option_view(teacher) == teacher_of(text@),
{
    if same_text(text, NO_VALUE) {
        return None;
    }
    let chars = chars_of(text);
    let len = chars.len();
    let start = skip_run(&chars, true, 0, len);
    let end = skip_run(&chars, false, start, len);
    proof {
        assert(chars@.subrange(0, len as int) =~= text@);
        assert(chars@.subrange(start as int, len as int) =~= trim_start(text@));
        assert(first_word(text@) =~= text@.subrange(start as int, end as int));
    }
    if start == end {
        return None;
    }
    let last_name = substring(text, start, end);
    let next_start = skip_run(&chars, true, end, len);
    let next_end = skip_run(&chars, false, next_start, len);
    proof {
        let rest = after_first_word(text@);
        assert(chars@.subrange(end as int, len as int) =~= rest);
        assert(chars@.subrange(next_start as int, len as int) =~= trim_start(rest));
        assert(first_word(rest) =~= text@.subrange(next_start as int, next_end as int));
    }
    let first_name = if next_start == next_end {
        None
    } else {
        Some(substring(text, next_start, next_end))
    };
    Some(Teacher { first_name, last_name })
}

pub fn parse_room(text: String) -> (room: Option<String>)
    ensures
        text_option_view(room) == room_of(text@),
{
    if same_text(text.as_str(), NO_VALUE) {
        return None;
    }
    Some(text)
}

/// The two codes of a code fragment: the subject code, without the prefix
/// that marks a sport, and the class code.
pub fn parse_codes(code: &str) -> (codes: Option<(String, String)>)
    ensures
        match codes {
            Some((subject_code, class_code)) => {
                let space = offset_of(code@, ' ');
                &&& space < code@.len()
                &&& subject_code@ == without_sport_prefix(code@.take(space as int))
                &&& class_code@ == code@.skip(space as int + 1)
            },
            None => offset_of(code@, ' ') >= code@.len(),
        },
{
    let chars = chars_of(code);
    let len = chars.len();
    proof {
        assert(chars@.subrange(0, len as int) =~= code@);
    }
    let space = find_char(&chars, ' ', 0, len);
    if space >= len {
        return None;
    }
    // Handle sports i.e. "SPTTennis 1"
    let prefix = chars_of(SPORT_PREFIX);
    let from = if prefix.len() <= space && starts_with_at(&chars, 0, &prefix) {
        prefix.len()
    } else {
        0
    };
    proof {
        let whole = code@.take(space as int);
        assert(chars@.skip(0) =~= code@);
        if prefix.len() <= space {
            assert(whole.take(prefix@.len() as int) =~= code@.take(prefix@.len() as int));
        }
        assert(has_prefix(whole, prefix@) == (prefix.len() <= space && has_prefix(code@, prefix@)));
        assert(code@.subrange(from as int, space as int) =~= without_sport_prefix(whole));
        assert(code@.subrange(space + 1, len as int) =~= code@.skip(space + 1));
    }
    Some((substring(code, from, space), substring(code, space + 1, len)))
}

/// The lesson that a cell stands for.
pub fn lesson_from_cell(cell: &RawCell) -> (lesson: Result<Lesson, ScrapeError>)
    ensures
        match lesson {
            Ok(l) => lesson_of_cell(cell@) == Ok::<LessonView, ScrapeError>(l@),
            Err(e) => lesson_of_cell(cell@) == Err::<LessonView, ScrapeError>(e),
        },
{
    if cell.empty {
        return Ok(Lesson::FreePeriod);
    }
    let subject = match &cell.subject {
        Some(subject) => subject,
        None => {
            return Err(ScrapeError::MissingSubject);
        },
    };
    // The first detail is the period number, which is not kept
    if cell.details.len() < 1 {
        return Err(ScrapeError::MissingLabel);
    }
    if cell.details.len() < 2 {
        return Err(ScrapeError::MissingTeacher);
    }
    if cell.details.len() < 3 {
        return Err(ScrapeError::MissingRoom);
    }
    let teacher = &cell.details[1];
    let room = &cell.details[2];
    let lesson_code = match &cell.code {
        Some(code) => code,
        None => {
            return Err(ScrapeError::MissingCode);
        },
    };
    let (subject_code, class_code) = match parse_codes(lesson_code.as_str()) {
        Some(codes) => codes,
        None => {
            return Err(ScrapeError::MalformedCode);
        },
    };
    let subject = match parse_subject(subject.as_str()) {
        Ok(subject) => subject,
        Err(e) => {
            return Err(e);
        },
    };
    Ok(
        Lesson::Present {
            subject,
            teacher: parse_teacher(teacher.as_str()),
            room: parse_room(room.clone()),
            subject_code,
            class_code,
        },
    )
}

} // verus!
