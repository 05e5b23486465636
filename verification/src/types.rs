//! The timetable data model and the mathematical view of each type.
//!
//! Every type that holds text has a view in which the text is a `Seq<char>`;
//! contracts throughout the crate are stated over these views.

use vstd::prelude::*;
use vstd::string::StringExecFns;

verus! {

/// The subject name that marks the weekly assembly.
pub const ASSEMBLY: &'static str = "Assembly";

/// A student as listed on the index page.
#[derive(Debug, Clone, PartialEq, Eq, PartialOrd, Ord)]
pub struct StudentIdentity {
    pub first: String,
    pub last: String,
    pub id: String,
}

pub struct StudentIdentityView {
    pub first: Seq<char>,
    pub last: Seq<char>,
    pub id: Seq<char>,
}

impl View for StudentIdentity {
    type V = StudentIdentityView;

    open spec fn view(&self) -> StudentIdentityView {
        StudentIdentityView { first: self.first@, last: self.last@, id: self.id@ }
    }
}

/// A subject, identified by its name and the faculty that teaches it.
#[derive(Debug, PartialEq, Eq, PartialOrd, Ord)]
pub struct Subject {
    pub name: String,
    pub faculty: String,
}

pub struct SubjectView {
    pub name: Seq<char>,
    pub faculty: Seq<char>,
}

impl View for Subject {
    type V = SubjectView;

    open spec fn view(&self) -> SubjectView {
        SubjectView { name: self.name@, faculty: self.faculty@ }
    }
}

/// A teacher; the last name is always known, the first name only sometimes.
#[derive(Debug, PartialEq)]
pub struct Teacher {
    pub first_name: Option<String>,
    pub last_name: String,
}

pub struct TeacherView {
    pub first_name: Option<Seq<char>>,
    pub last_name: Seq<char>,
}

impl TeacherView {
    /// The display name: the first name, where known, then a space, then the
    /// last name.
    pub open spec fn name(self) -> Seq<char> {
        match self.first_name {
            Some(first) => first + seq![' '] + self.last_name,
            None => self.last_name,
        }
    }
}

impl View for Teacher {
    type V = TeacherView;

    open spec fn view(&self) -> TeacherView {
        TeacherView { first_name: text_option_view(self.first_name), last_name: self.last_name@ }
    }
}

/// The view of an optional piece of text.
pub open spec fn text_option_view(text: Option<String>) -> Option<Seq<char>> {
    match text {
        Some(t) => Some(t@),
        None => None,
    }
}

/// The views of a run of texts, in the same order.
pub open spec fn texts(items: Seq<String>) -> Seq<Seq<char>> {
    Seq::new(items.len(), |i: int| items[i]@)
}

impl Teacher {
    pub fn name(&self) -> (name: String)
        ensures
            name@ == self@.name(),
    {
        let mut name = String::new();
        if let Some(first_name) = &self.first_name {
            name.append(first_name.as_str());
            name.append(" ");
            proof {
                reveal_strlit(" ");
                assert(" "@ =~= seq![' ']);
            }
        }
        name.append(self.last_name.as_str());
        proof {
            assert(name@ =~= self@.name());
        }
        name
    }
}

/// One slot of a day.
#[derive(Debug, PartialEq)]
pub enum Lesson {
    /// An occupied period.
    Present {
        subject: Subject,
        teacher: Option<Teacher>,
        room: Option<String>,
        subject_code: String,
        class_code: String,
    },
    /// An unfilled slot between classes, or one that is not classified yet.
    FreePeriod,
    /// A free slot before the first class or after the last class.
    AbsentPeriod,
    Recess,
    /// The first half of lunch; rendered as the whole lunch break.
    Lunch1,
    /// The second half of lunch; never rendered on its own.
    Lunch2,
}

pub enum LessonView {
    Present {
        subject: SubjectView,
        teacher: Option<TeacherView>,
        room: Option<Seq<char>>,
        subject_code: Seq<char>,
        class_code: Seq<char>,
    },
    FreePeriod,
    AbsentPeriod,
    Recess,
    Lunch1,
    Lunch2,
}

impl View for Lesson {
    type V = LessonView;

    open spec fn view(&self) -> LessonView {
        match *self {
            Lesson::Present { subject, teacher, room, subject_code, class_code } => {
                LessonView::Present {
                    subject: subject@,
                    teacher: match teacher {
                        Some(t) => Some(t@),
                        None => None,
                    },
                    room: text_option_view(room),
                    subject_code: subject_code@,
                    class_code: class_code@,
                }
            },
            Lesson::FreePeriod => LessonView::FreePeriod,
            Lesson::AbsentPeriod => LessonView::AbsentPeriod,
            Lesson::Recess => LessonView::Recess,
            Lesson::Lunch1 => LessonView::Lunch1,
            Lesson::Lunch2 => LessonView::Lunch2,
        }
    }
}

impl Lesson {
    pub fn is_free(&self) -> (free: bool)
        ensures
            free == (self@ is FreePeriod),
    {
        matches!(self, Lesson::FreePeriod)
    }
}

/// The views of a run of lessons, in the same order.
pub open spec fn lessons_view(lessons: Seq<Lesson>) -> Seq<LessonView> {
    Seq::new(lessons.len(), |i: int| lessons[i]@)
}

/// The lessons of one day; the index is the period position.
#[derive(Debug, PartialEq, Default)]
pub struct Day {
    pub lessons: Vec<Lesson>,
}

impl View for Day {
    type V = Seq<LessonView>;

    open spec fn view(&self) -> Seq<LessonView> {
        lessons_view(self.lessons@)
    }
}

/// One week: a day for each weekday from Monday to Friday.
#[derive(Debug, PartialEq, Default)]
pub struct Week {
    pub monday: Day,
    pub tuesday: Day,
    pub wednesday: Day,
    pub thursday: Day,
    pub friday: Day,
}

pub struct WeekView {
    pub monday: Seq<LessonView>,
    pub tuesday: Seq<LessonView>,
    pub wednesday: Seq<LessonView>,
    pub thursday: Seq<LessonView>,
    pub friday: Seq<LessonView>,
}

impl WeekView {
    pub open spec fn day(self, day_of_week: DayOfWeek) -> Seq<LessonView> {
        match day_of_week {
            DayOfWeek::Monday => self.monday,
            DayOfWeek::Tuesday => self.tuesday,
            DayOfWeek::Wednesday => self.wednesday,
            DayOfWeek::Thursday => self.thursday,
            DayOfWeek::Friday => self.friday,
        }
    }

    /// Every lesson of the week, Monday first.
    pub open spec fn lessons(self) -> Seq<LessonView> {
        self.monday + self.tuesday + self.wednesday + self.thursday + self.friday
    }
}

impl View for Week {
    type V = WeekView;

    open spec fn view(&self) -> WeekView {
        WeekView {
            monday: self.monday@,
            tuesday: self.tuesday@,
            wednesday: self.wednesday@,
            thursday: self.thursday@,
            friday: self.friday@,
        }
    }
}

impl Week {
    pub fn day(&self, day_of_week: DayOfWeek) -> (day: &Day)
        ensures
            day@ == self@.day(day_of_week),
    {
        match day_of_week {
            DayOfWeek::Monday => &self.monday,
            DayOfWeek::Tuesday => &self.tuesday,
            DayOfWeek::Wednesday => &self.wednesday,
            DayOfWeek::Thursday => &self.thursday,
            DayOfWeek::Friday => &self.friday,
        }
    }
}

/// The fortnightly timetable of one student.
#[derive(Debug, PartialEq)]
pub struct Timetable {
    pub week_a: Week,
    pub week_b: Week,
}

pub struct TimetableView {
    pub week_a: WeekView,
    pub week_b: WeekView,
}

impl TimetableView {
    /// Every lesson of the fortnight: week A from Monday to Friday, then
    /// week B.
    pub open spec fn lessons(self) -> Seq<LessonView> {
        self.week_a.lessons() + self.week_b.lessons()
    }
}

impl View for Timetable {
    type V = TimetableView;

    open spec fn view(&self) -> TimetableView {
        TimetableView { week_a: self.week_a@, week_b: self.week_b@ }
    }
}

#[derive(Debug, Clone, Copy, PartialEq, Eq, Structural, PartialOrd, Ord)]
pub enum DayOfWeek {
    Monday,
    Tuesday,
    Wednesday,
    Thursday,
    Friday,
}

impl DayOfWeek {
    /// The day's number in the week, Monday being 0.
    pub open spec fn number(self) -> nat {
        match self {
            DayOfWeek::Monday => 0,
            DayOfWeek::Tuesday => 1,
            DayOfWeek::Wednesday => 2,
            DayOfWeek::Thursday => 3,
            DayOfWeek::Friday => 4,
        }
    }

    /// The weekday that follows, Monday following Friday.
    pub open spec fn successor(self) -> DayOfWeek {
        match self {
            DayOfWeek::Monday => DayOfWeek::Tuesday,
            DayOfWeek::Tuesday => DayOfWeek::Wednesday,
            DayOfWeek::Wednesday => DayOfWeek::Thursday,
            DayOfWeek::Thursday => DayOfWeek::Friday,
            DayOfWeek::Friday => DayOfWeek::Monday,
        }
    }

    /// A cursor that has not handed out any day yet.
    pub fn iter() -> (cursor: DayOfWeekIter)
        ensures
            cursor@ is None,
    {
        DayOfWeekIter(None)
    }

    pub fn index(self) -> (n: u32)
        ensures
            n == self.number(),
    {
        match self {
            DayOfWeek::Monday => 0,
            DayOfWeek::Tuesday => 1,
            DayOfWeek::Wednesday => 2,
            DayOfWeek::Thursday => 3,
            DayOfWeek::Friday => 4,
        }
    }
}

/// A cursor over the weekdays that starts before Monday and, after Friday,
/// goes round to Monday again; its view is the day it handed out last.
#[derive(Debug)]
pub struct DayOfWeekIter(Option<DayOfWeek>);

impl View for DayOfWeekIter {
    type V = Option<DayOfWeek>;

    closed spec fn view(&self) -> Option<DayOfWeek> {
        self.0
    }
}

impl DayOfWeekIter {
    /// The day that `next` hands out after `last`.
    pub open spec fn following(last: Option<DayOfWeek>) -> DayOfWeek {
        match last {
            None => DayOfWeek::Monday,
            Some(day) => day.successor(),
        }
    }

    /// Hands out the next weekday; it never runs dry.
    pub fn next(&mut self) -> (day: Option<DayOfWeek>)
        ensures
            day == Some(Self::following(old(self)@)),
            final(self)@ == day,
    {
        let new_day = match self.0 {
            None => DayOfWeek::Monday,
            Some(DayOfWeek::Monday) => DayOfWeek::Tuesday,
            Some(DayOfWeek::Tuesday) => DayOfWeek::Wednesday,
            Some(DayOfWeek::Wednesday) => DayOfWeek::Thursday,
            Some(DayOfWeek::Thursday) => DayOfWeek::Friday,
            Some(DayOfWeek::Friday) => DayOfWeek::Monday,
        };
        self.0 = Some(new_day);
        Some(new_day)
    }
}

} // verus!
