//! Reading the school's pages: a student's timetable page, and the index page
//! that lists the students.
//!
//! The pages are parsed by the `select` crate (see `html`). What is found in
//! a page is described by plain values, the fragments of a cell or of an
//! index entry; the rules that make lessons, weeks and students of them are
//! stated on those values, and each has a function that works on them alone.

use crate::html::{
    attr_nodes, attr_of, class_nodes, count_children, find_by_attr, find_by_class, find_by_name,
    html_document, name_nodes, node_attr, node_child_count, node_text, parse_document, text_of,
};
use crate::scraper::cell::{
    lesson_from_cell, lesson_of_cell, parse_codes, parse_room, parse_subject, parse_teacher,
    room_of, subject_of, teacher_of, teacher_option_view, RawCell, RawCellView,
};
use crate::scraper::reconstruct::{build_week, week_of_cells};
use crate::text::{chars_of, find_char, has_prefix, offset_of, starts_with_at, substring};
use crate::types::{
    lessons_view, text_option_view, texts, Lesson, LessonView, StudentIdentity,
    StudentIdentityView, Subject, SubjectView, Teacher, Timetable, TimetableView, Week, WeekView,
};
use select::node::Node;
use vstd::prelude::*;
use vstd::string::StringExecFns;

pub mod cell;
pub mod reconstruct;

verus! {

/// Why a page cannot be read: it does not have the layout that the scraper
/// rests on.
#[derive(Debug, Clone, Copy, PartialEq, Eq, Structural)]
pub enum ScrapeError {
    /// The page holds fewer than the two tables of a fortnight.
    MissingTable,
    /// An occupied cell names no subject.
    MissingSubject,
    /// An occupied cell has no fragment for the period's label.
    MissingLabel,
    /// An occupied cell has no teacher fragment.
    MissingTeacher,
    /// An occupied cell has no room fragment.
    MissingRoom,
    /// An occupied cell has no code fragment.
    MissingCode,
    /// The code fragment is not a subject code, a space and a class code.
    MalformedCode,
    /// The subject text does not end in a space and a year group.
    MalformedSubject,
    /// A day's column is too short to hold the breaks.
    ColumnTooShort,
    /// The column that is always empty holds a lesson.
    PlaceholderOccupied,
    /// A lesson stands where recess is.
    RecessOccupied,
    /// A lesson stands where the assembly is, on a day without assembly.
    AssemblyOccupied,
    /// The index page has no list of students.
    MissingStudentList,
    /// An entry of the index page shows no name.
    MissingStudentName,
    /// A student's name is not a first name, a space and a last name.
    MalformedStudentName,
    /// An entry of the index page links nowhere.
    MissingStudentLink,
    /// An entry of the index page links outside this timetable.
    ForeignStudentLink,
}

/// The class of the two tables that hold week A and week B.
pub const TABLE_CLASS: &'static str = "table";

/// The element of one cell of a table.
pub const CELL_TAG: &'static str = "td";

/// The element that holds a cell's subject text.
pub const SUBJECT_TAG: &'static str = "strong";

/// The element of a cell's further fragments, and of a student's name.
pub const DETAIL_TAG: &'static str = "span";

/// The element that holds a cell's codes.
pub const CODE_TAG: &'static str = "small";

/// The attribute by which the list of students is found, and its value.
pub const LIST_ATTR: &'static str = "id";

pub const LIST_ID: &'static str = "student-entries";

/// The element of one entry of the list of students.
pub const ENTRY_TAG: &'static str = "a";

/// The attribute that holds an entry's link.
pub const LINK_ATTR: &'static str = "href";

/// What stands before and after the timetable's identifier in a link.
pub const LINK_SEPARATOR: &'static str = "/";

/// The texts of a run of nodes, in the same order.
pub open spec fn node_texts(nodes: Seq<Node>) -> Seq<Seq<char>> {
    Seq::new(nodes.len(), |i: int| node_text(nodes[i]))
}

/// The text of the first of a run of nodes, if there is one.
pub open spec fn first_text(nodes: Seq<Node>) -> Option<Seq<char>> {
    if nodes.len() > 0 {
        Some(node_text(nodes[0]))
    } else {
        None
    }
}

/// The fragments of a cell of the table.
pub open spec fn cell_of(node: Node) -> RawCellView {
    RawCellView {
        empty: node_child_count(node) == 0,
        subject: first_text(name_nodes(node, SUBJECT_TAG@)),
        details: node_texts(name_nodes(node, DETAIL_TAG@)),
        code: first_text(name_nodes(node, CODE_TAG@)),
    }
}

/// The fragments of a run of cells, in the same order.
pub open spec fn cells_of(nodes: Seq<Node>) -> Seq<RawCellView> {
    Seq::new(nodes.len(), |i: int| cell_of(nodes[i]))
}

/// The views of a run of cells, in the same order.
pub open spec fn cells_view(cells: Seq<RawCell>) -> Seq<RawCellView> {
    Seq::new(cells.len(), |i: int| cells[i]@)
}

/// The lessons of a run of cells, or the fault of the first cell that has
/// one.
pub open spec fn lessons_of_cells(cells: Seq<RawCellView>) -> Result<Seq<LessonView>, ScrapeError>
    decreases cells.len(),
{
    if cells.len() == 0 {
        Ok(Seq::empty())
    } else {
        match lessons_of_cells(cells.drop_last()) {
            Err(e) => Err(e),
            Ok(lessons) => match lesson_of_cell(cells.last()) {
                Err(e) => Err(e),
                Ok(lesson) => Ok(lessons.push(lesson)),
            },
        }
    }
}

/// The week that the cells of a table stand for: every cell must give a
/// lesson, and every day's column must have the layout that the
/// reconstruction rests on.
pub open spec fn week_of_raw_cells(cells: Seq<RawCellView>) -> Result<WeekView, ScrapeError> {
    match lessons_of_cells(cells) {
        Err(e) => Err(e),
        Ok(lessons) => week_of_cells(lessons),
    }
}

/// The week that a table of the page stands for.
pub open spec fn week_of_table(table: Node) -> Result<WeekView, ScrapeError> {
    week_of_raw_cells(cells_of(name_nodes(table, CELL_TAG@)))
}

/// The timetable that a page stands for: its first table is week A, its
/// second table week B.
pub open spec fn timetable_of_page(text: Seq<char>) -> Result<TimetableView, ScrapeError> {
    let tables = class_nodes(&html_document(text), TABLE_CLASS@);
    if tables.len() < 2 {
        Err(ScrapeError::MissingTable)
    } else {
        match week_of_table(tables[0]) {
            Err(e) => Err(e),
            Ok(week_a) => match week_of_table(tables[1]) {
                Err(e) => Err(e),
                Ok(week_b) => Ok(TimetableView { week_a, week_b }),
            },
        }
    }
}

/// The texts of a run of nodes.
fn texts_of(nodes: &Vec<Node>) -> (found: Vec<String>)
    ensures
        texts(found@) == node_texts(nodes@),
{
    let mut found: Vec<String> = Vec::new();
    let mut i: usize = 0;
    while i < nodes.len()
        invariant
            i <= nodes.len(),
            found@.len() == i,
            forall|k: int| 0 <= k < i ==> (#[trigger] found@[k])@ == node_text(nodes@[k]),
        decreases nodes.len() - i,
    {
        found.push(text_of(&nodes[i]));
        i += 1;
    }
    proof {
        assert(texts(found@) =~= node_texts(nodes@));
    }
    found
}

/// The text of the first of a run of nodes.
fn first_text_of(nodes: &Vec<Node>) -> (found: Option<String>)
    ensures
        text_option_view(found) == first_text(nodes@),
{
    if nodes.len() > 0 {
        Some(text_of(&nodes[0]))
    } else {
        None
    }
}

/// The fragments of a cell of the table.
pub fn raw_cell(node: &Node) -> (cell: RawCell)
    ensures
        cell@ == cell_of(*node),
{
    let subjects = find_by_name(node, SUBJECT_TAG);
    let details = find_by_name(node, DETAIL_TAG);
    let codes = find_by_name(node, CODE_TAG);
    RawCell {
        empty: count_children(node) == 0,
        subject: first_text_of(&subjects),
        details: texts_of(&details),
        code: first_text_of(&codes),
    }
}

/// The lesson of a cell of the table.
pub fn scrape_lesson(node: &Node) -> (lesson: Result<Lesson, ScrapeError>)
    ensures
        match lesson {
            Ok(l) => lesson_of_cell(cell_of(*node)) == Ok::<LessonView, ScrapeError>(l@),
            Err(e) => lesson_of_cell(cell_of(*node)) == Err::<LessonView, ScrapeError>(e),
        },
{
    if count_children(node) == 0 {
        return Ok(Lesson::FreePeriod);
    }
    let subjects = find_by_name(node, SUBJECT_TAG);
    if subjects.len() == 0 {
        return Err(ScrapeError::MissingSubject);
    }
    let spans = find_by_name(node, DETAIL_TAG);
    // The first span is the period number, which is not kept
    if spans.len() < 1 {
        return Err(ScrapeError::MissingLabel);
    }
    if spans.len() < 2 {
        return Err(ScrapeError::MissingTeacher);
    }
    if spans.len() < 3 {
        return Err(ScrapeError::MissingRoom);
    }
    let codes = find_by_name(node, CODE_TAG);
    if codes.len() == 0 {
        return Err(ScrapeError::MissingCode);
    }
    let lesson_code = text_of(&codes[0]);
    let (subject_code, class_code) = match parse_codes(lesson_code.as_str()) {
        Some(codes) => codes,
        None => {
            return Err(ScrapeError::MalformedCode);
        },
    };
    let subject = match scrape_subject(&subjects[0]) {
        Ok(subject) => subject,
        Err(e) => {
            return Err(e);
        },
    };
    Ok(
        Lesson::Present {
            subject,
            teacher: scrape_teacher(&spans[1]),
            room: scrape_room(&spans[2]),
            subject_code,
            class_code,
        },
    )
}

/// The subject that the text of a node stands for.
pub fn scrape_subject(node: &Node) -> (subject: Result<Subject, ScrapeError>)
    ensures
        match subject {
            Ok(s) => subject_of(node_text(*node)) == Ok::<SubjectView, ScrapeError>(s@),
            Err(e) => subject_of(node_text(*node)) == Err::<SubjectView, ScrapeError>(e),
        },
{
    // i.e. "HSIE | Commerce Yr9"
    let text = text_of(node);
    parse_subject(text.as_str())
}

/// The teacher that the text of a node stands for.
pub fn scrape_teacher(node: &Node) -> (teacher: Option<Teacher>)
    ensures
        teacher_option_view(teacher) == teacher_of(node_text(*node)),
{
    let text = text_of(node);
    parse_teacher(text.as_str())
}

/// The room that the text of a node stands for.
pub fn scrape_room(node: &Node) -> (room: Option<String>)
    ensures
        text_option_view(room) == room_of(node_text(*node)),
{
    parse_room(text_of(node))
}

/// The lessons of a run of cells.
pub fn lessons_from_cells(cells: &Vec<RawCell>) -> (lessons: Result<Vec<Lesson>, ScrapeError>)
    ensures
        match lessons {
            Ok(ls) => lessons_of_cells(cells_view(cells@)) == Ok::<Seq<LessonView>, ScrapeError>(
                lessons_view(ls@),
            ),
            Err(e) => lessons_of_cells(cells_view(cells@)) == Err::<Seq<LessonView>, ScrapeError>(e),
        },
{
    let ghost all = cells_view(cells@);
    let mut lessons: Vec<Lesson> = Vec::new();
    let mut i: usize = 0;
    proof {
        assert(lessons_view(lessons@) =~= Seq::empty());
    }
    while i < cells.len()
        invariant
            i <= cells.len(),
            all == cells_view(cells@),
            lessons_of_cells(all.take(i as int)) == Ok::<Seq<LessonView>, ScrapeError>(
                lessons_view(lessons@),
            ),
        decreases cells.len() - i,
    {
        proof {
            assert(all.take(i + 1).drop_last() =~= all.take(i as int));
            assert(all.take(i + 1).last() == cells@[i as int]@);
        }
        let ghost before = lessons_view(lessons@);
        match lesson_from_cell(&cells[i]) {
            Ok(lesson) => {
                lessons.push(lesson);
                proof {
                    assert(lessons_view(lessons@) =~= before.push(lesson@));
                }
            },
            Err(e) => {
                proof {
                    lemma_fault_stays(all, i + 1);
                }
                return Err(e);
            },
        }
        i += 1;
    }
    proof {
        assert(all.take(all.len() as int) =~= all);
    }
    Ok(lessons)
}

/// A fault among the first `n` cells of a run is the fault of the whole run.
pub proof fn lemma_fault_stays(cells: Seq<RawCellView>, n: int)
    requires
        0 <= n <= cells.len(),
        lessons_of_cells(cells.take(n)) is Err,
    ensures
        lessons_of_cells(cells) == lessons_of_cells(cells.take(n)),
    decreases cells.len() - n,
{
    if n < cells.len() {
        assert(cells.take(n + 1).drop_last() =~= cells.take(n));
        lemma_fault_stays(cells, n + 1);
    } else {
        assert(cells.take(n) =~= cells);
    }
}

/// The week that the cells of a table stand for.
pub fn week_from_cells(cells: &Vec<RawCell>) -> (week: Result<Week, ScrapeError>)
    ensures
        match week {
            Ok(w) => week_of_raw_cells(cells_view(cells@)) == Ok::<WeekView, ScrapeError>(w@),
            Err(e) => week_of_raw_cells(cells_view(cells@)) == Err::<WeekView, ScrapeError>(e),
        },
{
    match lessons_from_cells(cells) {
        Ok(lessons) => build_week(lessons),
        Err(e) => Err(e),
    }
}

/// The week of a table of the page.
pub fn scrape_week(node: &Node) -> (week: Result<Week, ScrapeError>)
    ensures
        match week {
            Ok(w) => week_of_table(*node) == Ok::<WeekView, ScrapeError>(w@),
            Err(e) => week_of_table(*node) == Err::<WeekView, ScrapeError>(e),
        },
{
    let nodes = find_by_name(node, CELL_TAG);
    let ghost all = cells_of(nodes@);
    let mut lessons: Vec<Lesson> = Vec::new();
    let mut i: usize = 0;
    proof {
        assert(lessons_view(lessons@) =~= Seq::empty());
    }
    while i < nodes.len()
        invariant
            i <= nodes.len(),
            nodes@ == name_nodes(*node, CELL_TAG@),
            all == cells_of(nodes@),
            lessons_of_cells(all.take(i as int)) == Ok::<Seq<LessonView>, ScrapeError>(
                lessons_view(lessons@),
            ),
        decreases nodes.len() - i,
    {
        proof {
            assert(all.take(i + 1).drop_last() =~= all.take(i as int));
            assert(all.take(i + 1).last() == cell_of(nodes@[i as int]));
        }
        let ghost before = lessons_view(lessons@);
        match scrape_lesson(&nodes[i]) {
            Ok(lesson) => {
                lessons.push(lesson);
                proof {
                    assert(lessons_view(lessons@) =~= before.push(lesson@));
                }
            },
            Err(e) => {
                proof {
                    lemma_fault_stays(all, i + 1);
                }
                return Err(e);
            },
        }
        i += 1;
    }
    proof {
        assert(all.take(all.len() as int) =~= all);
    }
    build_week(lessons)
}

/// The timetable of a student's page.
pub fn scrape_timetable_page(text: &str) -> (timetable: Result<Timetable, ScrapeError>)
    ensures
        match timetable {
            Ok(t) => timetable_of_page(text@) == Ok::<TimetableView, ScrapeError>(t@),
            Err(e) => timetable_of_page(text@) == Err::<TimetableView, ScrapeError>(e),
        },
{
    let document = parse_document(text);
    let tables = find_by_class(&document, TABLE_CLASS);
    if tables.len() < 2 {
        return Err(ScrapeError::MissingTable);
    }
    let week_a = match scrape_week(&tables[0]) {
        Ok(week) => week,
        Err(e) => {
            return Err(e);
        },
    };
    let week_b = match scrape_week(&tables[1]) {
        Ok(week) => week,
        Err(e) => {
            return Err(e);
        },
    };
    Ok(Timetable { week_a, week_b })
}

/// What an entry of the list of students shows: a name and a link.
#[derive(Debug, PartialEq)]
pub struct StudentEntry {
    pub name: Option<String>,
    pub link: Option<String>,
}

pub struct StudentEntryView {
    pub name: Option<Seq<char>>,
    pub link: Option<Seq<char>>,
}

impl View for StudentEntry {
    type V = StudentEntryView;

    open spec fn view(&self) -> StudentEntryView {
        StudentEntryView { name: text_option_view(self.name), link: text_option_view(self.link) }
    }
}

/// What every link of a timetable's students starts with: the timetable's
/// identifier between two slashes.
pub open spec fn link_prefix(timetable_uuid: Seq<char>) -> Seq<char> {
    LINK_SEPARATOR@ + timetable_uuid + LINK_SEPARATOR@
}

/// The student that an entry stands for: the name is a first name, a space
/// and a last name, and the link is the timetable's prefix and the student's
/// identifier.
pub open spec fn student_of_entry(entry: StudentEntryView, timetable_uuid: Seq<char>) -> Result<
    StudentIdentityView,
    ScrapeError,
> {
    if entry.name is None {
        Err(ScrapeError::MissingStudentName)
    } else {
        let name = entry.name->0;
        let space = offset_of(name, ' ');
        if space >= name.len() {
            Err(ScrapeError::MalformedStudentName)
        } else if entry.link is None {
            Err(ScrapeError::MissingStudentLink)
        } else {
            let link = entry.link->0;
            let prefix = link_prefix(timetable_uuid);
            if !has_prefix(link, prefix) {
                Err(ScrapeError::ForeignStudentLink)
            } else {
                Ok(
                    StudentIdentityView {
                        first: name.take(space as int),
                        last: name.skip(space as int + 1),
                        id: link.skip(prefix.len() as int),
                    },
                )
            }
        }
    }
}

/// What an entry of the list of students shows.
pub open spec fn entry_of(node: Node) -> StudentEntryView {
    StudentEntryView {
        name: first_text(name_nodes(node, DETAIL_TAG@)),
        link: node_attr(node, LINK_ATTR@),
    }
}

/// The students of a run of entries, or the fault of the first entry that
/// has one.
pub open spec fn students_of_entries(entries: Seq<Node>, timetable_uuid: Seq<char>) -> Result<
    Seq<StudentIdentityView>,
    ScrapeError,
>
    decreases entries.len(),
{
    if entries.len() == 0 {
        Ok(Seq::empty())
    } else {
        match students_of_entries(entries.drop_last(), timetable_uuid) {
            Err(e) => Err(e),
            Ok(students) => match student_of_entry(entry_of(entries.last()), timetable_uuid) {
                Err(e) => Err(e),
                Ok(student) => Ok(students.push(student)),
            },
        }
    }
}

/// The students that an index page lists: the entries of the page's first
/// list of students, in order.
pub open spec fn students_of_page(text: Seq<char>, timetable_uuid: Seq<char>) -> Result<
    Seq<StudentIdentityView>,
    ScrapeError,
> {
    let lists = attr_nodes(&html_document(text), LIST_ATTR@, LIST_ID@);
    if lists.len() == 0 {
        Err(ScrapeError::MissingStudentList)
    } else {
        students_of_entries(name_nodes(lists[0], ENTRY_TAG@), timetable_uuid)
    }
}

/// The views of a run of students, in the same order.
pub open spec fn students_view(students: Seq<StudentIdentity>) -> Seq<StudentIdentityView> {
    Seq::new(students.len(), |i: int| students[i]@)
}

/// The student that an entry stands for.
pub fn student_from_entry(entry: &StudentEntry, timetable_uuid: &str) -> (student: Result<
    StudentIdentity,
    ScrapeError,
>)
    ensures
        match student {
            Ok(s) => student_of_entry(entry@, timetable_uuid@) == Ok::<
                StudentIdentityView,
                ScrapeError,
            >(s@),
            Err(e) => student_of_entry(entry@, timetable_uuid@) == Err::<
                StudentIdentityView,
                ScrapeError,
            >(e),
        },
{
    let name = match &entry.name {
        Some(name) => name,
        None => {
            return Err(ScrapeError::MissingStudentName);
        },
    };
    let name_chars = chars_of(name.as_str());
    let name_len = name_chars.len();
    proof {
        assert(name_chars@.subrange(0, name_len as int) =~= name@);
    }
    let space = find_char(&name_chars, ' ', 0, name_len);
    if space >= name_len {
        return Err(ScrapeError::MalformedStudentName);
    }
    let link = match &entry.link {
        Some(link) => link,
        None => {
            return Err(ScrapeError::MissingStudentLink);
        },
    };
    let mut prefix = String::from_str(LINK_SEPARATOR);
    prefix.append(timetable_uuid);
    prefix.append(LINK_SEPARATOR);
    let prefix_chars = chars_of(prefix.as_str());
    let link_chars = chars_of(link.as_str());
    proof {
        assert(link_chars@.skip(0) =~= link@);
    }
    if !starts_with_at(&link_chars, 0, &prefix_chars) {
        return Err(ScrapeError::ForeignStudentLink);
    }
    proof {
        assert(name@.subrange(0, space as int) =~= name@.take(space as int));
        assert(name@.subrange(space + 1, name_len as int) =~= name@.skip(space + 1));
        assert(link@.subrange(prefix_chars@.len() as int, link@.len() as int) =~= link@.skip(
            prefix_chars@.len() as int,
        ));
    }
    Ok(
        StudentIdentity {
            first: substring(name.as_str(), 0, space),
            last: substring(name.as_str(), space + 1, name_len),
            id: substring(link.as_str(), prefix_chars.len(), link_chars.len()),
        },
    )
}

pub fn scrape_student_identity(node: &Node, timetable_uuid: &str) -> (student: Result<
    StudentIdentity,
    ScrapeError,
>)
    ensures
        match student {
            Ok(s) => student_of_entry(entry_of(*node), timetable_uuid@) == Ok::<
                StudentIdentityView,
                ScrapeError,
            >(s@),
            Err(e) => student_of_entry(entry_of(*node), timetable_uuid@) == Err::<
                StudentIdentityView,
                ScrapeError,
            >(e),
        },
{
    let names = find_by_name(node, DETAIL_TAG);
    let entry = StudentEntry { name: first_text_of(&names), link: attr_of(node, LINK_ATTR) };
    student_from_entry(&entry, timetable_uuid)
}

/// A fault among the first `n` entries of a run is the fault of the whole
/// run.
pub proof fn lemma_entry_fault_stays(entries: Seq<Node>, timetable_uuid: Seq<char>, n: int)
    requires
        0 <= n <= entries.len(),
        students_of_entries(entries.take(n), timetable_uuid) is Err,
    ensures
        students_of_entries(entries, timetable_uuid) == students_of_entries(
            entries.take(n),
            timetable_uuid,
        ),
    decreases entries.len() - n,
{
    if n < entries.len() {
        assert(entries.take(n + 1).drop_last() =~= entries.take(n));
        lemma_entry_fault_stays(entries, timetable_uuid, n + 1);
    } else {
        assert(entries.take(n) =~= entries);
    }
}

/// The students that the index page of a timetable lists.
pub fn scrape_student_identities(text: &str, timetable_uuid: &str) -> (students: Result<
    Vec<StudentIdentity>,
    ScrapeError,
>)
    ensures
        match students {
            Ok(found) => students_of_page(text@, timetable_uuid@) == Ok::<
                Seq<StudentIdentityView>,
                ScrapeError,
            >(students_view(found@)),
            Err(e) => students_of_page(text@, timetable_uuid@) == Err::<
                Seq<StudentIdentityView>,
                ScrapeError,
            >(e),
        },
{
    let document = parse_document(text);
    let lists = find_by_attr(&document, LIST_ATTR, LIST_ID);
    if lists.len() == 0 {
        return Err(ScrapeError::MissingStudentList);
    }
    let entries = find_by_name(&lists[0], ENTRY_TAG);
    let mut students: Vec<StudentIdentity> = Vec::new();
    let mut i: usize = 0;
    proof {
        assert(students_view(students@) =~= Seq::empty());
    }
    while i < entries.len()
        invariant
            i <= entries.len(),
            students_of_page(text@, timetable_uuid@) == students_of_entries(
                entries@,
                timetable_uuid@,
            ),
            students_of_entries(entries@.take(i as int), timetable_uuid@) == Ok::<
                Seq<StudentIdentityView>,
                ScrapeError,
            >(students_view(students@)),
        decreases entries.len() - i,
    {
        proof {
            assert(entries@.take(i + 1).drop_last() =~= entries@.take(i as int));
            assert(entries@.take(i + 1).last() == entries@[i as int]);
        }
        let ghost before = students_view(students@);
        match scrape_student_identity(&entries[i], timetable_uuid) {
            Ok(student) => {
                students.push(student);
                proof {
                    assert(students_view(students@) =~= before.push(student@));
                }
            },
            Err(e) => {
                proof {
                    lemma_entry_fault_stays(entries@, timetable_uuid@, i + 1);
                }
                return Err(e);
            },
        }
        i += 1;
    }
    proof {
        assert(entries@.take(entries@.len() as int) =~= entries@);
    }
    Ok(students)
}

} // verus!
