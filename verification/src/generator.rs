//! Rendering a timetable as calendar events and as the calendar
//! application's import document.

use crate::generator::bell_times::{school_bell_times, BellTimeView, BellTimes, BellTimesView};
use crate::generator::palette::{key_set, last_assembly, sorted_keys, subject_keys};
use crate::text::{decimal, push_decimal, same_text};
use crate::types::{
    text_option_view, texts, Day, DayOfWeek, Lesson, LessonView, Timetable, TimetableView, Week,
    WeekView, ASSEMBLY,
};
use vstd::prelude::*;
use vstd::string::StringExecFns;

pub mod bell_times;
pub mod palette;

verus! {

// The titles of the events, and the pieces of the document between which an
// event's values stand.

pub const ASSEMBLY_TITLE_HEAD: &'static str = "Assembly ";

pub const KEY_SEPARATOR: &'static str = ".";

pub const FREE_PERIOD_TITLE: &'static str = "Free Period";

pub const RECESS_TITLE: &'static str = "Recess";

pub const LUNCH_TITLE: &'static str = "Lunch";

pub const EVENT_DAY: &'static str = "<dict>\n        <key>dayNum</key>\n        <integer>";

pub const EVENT_TIME: &'static str = "</integer>\n        <key>time</key>\n        <real>";

pub const EVENT_END_TIME: &'static str = "</real>\n        <key>endTime</key>\n        <real>";

pub const EVENT_TITLE: &'static str = "</real>\n        <key>title</key>\n        <string>";

pub const EVENT_TITLE_END: &'static str = "</string>";

pub const EVENT_INFO: &'static str = "<key>info</key><string>";

pub const EVENT_INFO_END: &'static str = "</string>";

pub const EVENT_WEEK: &'static str = "\n        <key>weekNum</key>\n        <integer>";

pub const EVENT_END: &'static str = "</integer>\n    </dict>";

/// Why a timetable cannot be rendered.
#[derive(Debug, Clone, Copy, PartialEq, Eq, Structural)]
pub enum RenderError {
    /// The colours handed in are not one for each subject key.
    ColourCount,
    /// A lesson that is rendered stands at a position for which the day has
    /// no bell time.
    NoBellTime,
}

/// One calendar event. `start` and `end` are minutes since midnight; the
/// document gives them in seconds.
#[derive(Debug, PartialEq)]
pub struct Event {
    pub day_num: u32,
    pub start: u32,
    pub end: u32,
    pub title: String,
    pub info: Option<String>,
    pub week_num: u32,
}

pub struct EventView {
    pub day_num: nat,
    pub start: nat,
    pub end: nat,
    pub title: Seq<char>,
    pub info: Option<Seq<char>>,
    pub week_num: nat,
}

impl View for Event {
    type V = EventView;

    open spec fn view(&self) -> EventView {
        EventView {
            day_num: self.day_num as nat,
            start: self.start as nat,
            end: self.end as nat,
            title: self.title@,
            info: text_option_view(self.info),
            week_num: self.week_num as nat,
        }
    }
}

/// The views of a run of events, in the same order.
pub open spec fn events_view(events: Seq<Event>) -> Seq<EventView> {
    Seq::new(events.len(), |i: int| events[i]@)
}

/// The key of a class: its subject code, a dot, its class code.
pub open spec fn class_key(subject_code: Seq<char>, class_code: Seq<char>) -> Seq<char> {
    subject_code + KEY_SEPARATOR@ + class_code
}

/// Whether the lesson is the weekly assembly: an occupied period whose
/// subject is named "Assembly".
pub open spec fn is_assembly(lesson: LessonView) -> bool {
    lesson matches LessonView::Present { subject, .. } && subject.name == ASSEMBLY@
}

/// The key of an occupied period; empty for any other lesson.
pub open spec fn lesson_key(lesson: LessonView) -> Seq<char> {
    match lesson {
        LessonView::Present { subject_code, class_code, .. } => class_key(subject_code, class_code),
        _ => Seq::empty(),
    }
}

/// Whether the lesson gets an event: all do but absent periods and the
/// second half of lunch.
pub open spec fn is_rendered(lesson: LessonView) -> bool {
    !(lesson is AbsentPeriod) && !(lesson is Lunch2)
}

/// Whether the day has the bell times that the lesson at position `idx`
/// needs: its own slot and, for lunch, the slot after it.
pub open spec fn has_bell_time(lesson: LessonView, idx: int, bells: Seq<BellTimeView>) -> bool {
    idx < bells.len() && (lesson is Lunch1 ==> idx + 1 < bells.len())
}

/// Whether every rendered lesson of the day has its bell times.
pub open spec fn day_fits(lessons: Seq<LessonView>, bells: Seq<BellTimeView>) -> bool {
    forall|idx: int|
        0 <= idx < lessons.len() && is_rendered(#[trigger] lessons[idx]) ==> has_bell_time(
            lessons[idx],
            idx,
            bells,
        )
}

/// The title of a lesson's event.
pub open spec fn title_of(lesson: LessonView) -> Seq<char> {
    match lesson {
        LessonView::Present { subject, subject_code, class_code, .. } => {
            if subject.name == ASSEMBLY@ {
                ASSEMBLY_TITLE_HEAD@ + class_key(subject_code, class_code)
            } else {
                class_key(subject_code, class_code)
            }
        },
        LessonView::FreePeriod => FREE_PERIOD_TITLE@,
        LessonView::Recess => RECESS_TITLE@,
        LessonView::Lunch1 => LUNCH_TITLE@,
        LessonView::AbsentPeriod => Seq::empty(),
        LessonView::Lunch2 => Seq::empty(),
    }
}

/// The location note of a lesson's event: the room of an occupied period,
/// where it is known.
pub open spec fn info_of(lesson: LessonView) -> Option<Seq<char>> {
    match lesson {
        LessonView::Present { room, .. } => room,
        _ => None,
    }
}

/// The minute of the day that holds the second `seconds`.
pub open spec fn minute_of(seconds: nat) -> nat {
    seconds / 60
}

/// The minute at which the event of the lesson at position `idx` ends: the
/// end of its slot, but for lunch the end of the slot after it, so that the
/// one lunch event covers both halves.
pub open spec fn end_minute(lesson: LessonView, idx: int, bells: Seq<BellTimeView>) -> nat {
    if lesson is Lunch1 {
        minute_of(bells[idx + 1].end())
    } else {
        minute_of(bells[idx].end())
    }
}

/// The event of the lesson at position `idx` of a day.
pub open spec fn event_of(
    lesson: LessonView,
    idx: int,
    day_of_week: DayOfWeek,
    week_a: bool,
    bells: Seq<BellTimeView>,
) -> EventView {
    EventView {
        day_num: day_of_week.number(),
        start: minute_of(bells[idx].start),
        end: end_minute(lesson, idx, bells),
        title: title_of(lesson),
        info: info_of(lesson),
        week_num: if week_a { 0 } else { 1 },
    }
}

/// The events of the first `n` lessons of a day, in period order.
pub open spec fn events_upto(
    lessons: Seq<LessonView>,
    n: nat,
    day_of_week: DayOfWeek,
    week_a: bool,
    bells: Seq<BellTimeView>,
) -> Seq<EventView>
    decreases n,
{
    if n == 0 {
        Seq::empty()
    } else {
        let before = events_upto(lessons, (n - 1) as nat, day_of_week, week_a, bells);
        if is_rendered(lessons[n - 1]) {
            before.push(event_of(lessons[n - 1], n - 1, day_of_week, week_a, bells))
        } else {
            before
        }
    }
}

/// The events of a day, in period order.
pub open spec fn events_of_day(
    lessons: Seq<LessonView>,
    day_of_week: DayOfWeek,
    week_a: bool,
    bells: Seq<BellTimeView>,
) -> Seq<EventView> {
    events_upto(lessons, lessons.len(), day_of_week, week_a, bells)
}

/// The location note as it stands in the document; nothing where there is
/// none.
pub open spec fn info_xml(info: Option<Seq<char>>) -> Seq<char> {
    match info {
        Some(room) => EVENT_INFO@ + room + EVENT_INFO_END@,
        None => Seq::empty(),
    }
}

/// One event as it stands in the document, its times in seconds since
/// midnight.
pub open spec fn event_xml(event: EventView) -> Seq<char> {
    EVENT_DAY@ + decimal(event.day_num) + EVENT_TIME@ + decimal(event.start * 60) + EVENT_END_TIME@
        + decimal(event.end * 60) + EVENT_TITLE@ + event.title + EVENT_TITLE_END@ + info_xml(
        event.info,
    ) + EVENT_WEEK@ + decimal(event.week_num) + EVENT_END@
}

/// A run of events as they stand in the document, one after the other.
pub open spec fn events_xml(events: Seq<EventView>) -> Seq<char>
    decreases events.len(),
{
    if events.len() == 0 {
        Seq::empty()
    } else {
        events_xml(events.drop_last()) + event_xml(events.last())
    }
}

/// The events of a day as they stand in the document.
pub open spec fn day_xml(
    lessons: Seq<LessonView>,
    day_of_week: DayOfWeek,
    week_a: bool,
    bells: Seq<BellTimeView>,
) -> Seq<char> {
    events_xml(events_of_day(lessons, day_of_week, week_a, bells))
}

/// The key of a class, written out.
pub fn class_key_text(subject_code: &str, class_code: &str) -> (key: String)
    ensures
        key@ == class_key(subject_code@, class_code@),
{
    let mut key = String::new();
    key.append(subject_code);
    key.append(KEY_SEPARATOR);
    key.append(class_code);
    proof {
        assert(key@ =~= class_key(subject_code@, class_code@));
    }
    key
}

/// The title of a lesson's event, written out.
pub fn lesson_title(lesson: &Lesson) -> (title: String)
    ensures
        title@ == title_of(lesson@),
{
    match lesson {
        Lesson::Present { subject, subject_code, class_code, .. } => {
            let key = class_key_text(subject_code.as_str(), class_code.as_str());
            if same_text(subject.name.as_str(), ASSEMBLY) {
                let mut title = String::from_str(ASSEMBLY_TITLE_HEAD);
                title.append(key.as_str());
                title
            } else {
                key
            }
        },
        Lesson::FreePeriod => String::from_str(FREE_PERIOD_TITLE),
        Lesson::Recess => String::from_str(RECESS_TITLE),
        Lesson::Lunch1 => String::from_str(LUNCH_TITLE),
        Lesson::AbsentPeriod => String::new(),
        Lesson::Lunch2 => String::new(),
    }
}

/// The location note of a lesson's event, written out.
pub fn lesson_info(lesson: &Lesson) -> (info: Option<String>)
    ensures
        text_option_view(info) == info_of(lesson@),
{
    match lesson {
        Lesson::Present { room: Some(room), .. } => Some(room.clone()),
        _ => None,
    }
}

/// The event of the lesson at position `idx` of a day, if the lesson is
/// rendered at all.
///
/// The event of a `Lunch1` lesson ends where the bell-time slot after its
/// own ends.
pub fn lesson_event(
    lesson: &Lesson,
    idx: usize,
    day_of_week: DayOfWeek,
    week_a: bool,
    bell_times: &bell_times::Day,
) -> (event: Result<Option<Event>, RenderError>)
    ensures
        match event {
            Ok(Some(e)) => is_rendered(lesson@) && has_bell_time(lesson@, idx as int, bell_times@)
                && e@ == event_of(lesson@, idx as int, day_of_week, week_a, bell_times@),
            Ok(None) => !is_rendered(lesson@),
            Err(e) => e == RenderError::NoBellTime && is_rendered(lesson@) && !has_bell_time(
                lesson@,
                idx as int,
                bell_times@,
            ),
        },
        event matches Ok(Some(e)) ==> (lesson@ is Lunch1 ==> e@.end == minute_of(
            bell_times@[idx + 1].end(),
        )),
{
    if matches!(lesson, Lesson::AbsentPeriod | Lesson::Lunch2) {
        return Ok(None);
    }
    let bells = &bell_times.bell_times;
    let lunch = matches!(lesson, Lesson::Lunch1);
    if idx >= bells.len() || (lunch && idx + 1 >= bells.len()) {
        return Err(RenderError::NoBellTime);
    }
    let start = bells[idx].start().minute_of_day();
    let end = if lunch {
        bells[idx + 1].end().minute_of_day()
    } else {
        bells[idx].end().minute_of_day()
    };
    Ok(
        Some(
            Event {
                day_num: day_of_week.index(),
                start,
                end,
                title: lesson_title(lesson),
                info: lesson_info(lesson),
                week_num: if week_a { 0 } else { 1 },
            },
        ),
    )
}

/// The events of a day, in period order.
pub fn day_events(
    day_of_week: DayOfWeek,
    day: &Day,
    week_a: bool,
    bell_times: &bell_times::Day,
) -> (events: Result<Vec<Event>, RenderError>)
    ensures
        match events {
            Ok(es) => day_fits(day@, bell_times@) && events_view(es@) == events_of_day(
                day@,
                day_of_week,
                week_a,
                bell_times@,
            ),
            Err(e) => e == RenderError::NoBellTime && !day_fits(day@, bell_times@),
        },
{
    let mut events: Vec<Event> = Vec::new();
    let mut idx: usize = 0;
    while idx < day.lessons.len()
        invariant
            idx <= day.lessons.len(),
            forall|k: int|
                0 <= k < idx && is_rendered(#[trigger] day@[k]) ==> has_bell_time(
                    day@[k],
                    k,
                    bell_times@,
                ),
            events_view(events@) == events_upto(
                day@,
                idx as nat,
                day_of_week,
                week_a,
                bell_times@,
            ),
        decreases day.lessons.len() - idx,
    {
        let ghost before = events_view(events@);
        match lesson_event(&day.lessons[idx], idx, day_of_week, week_a, bell_times) {
            Ok(Some(event)) => {
                events.push(event);
                proof {
                    assert(events_view(events@) =~= before.push(event@));
                }
            },
            Ok(None) => {},
            Err(e) => {
                proof {
                    assert(is_rendered(day@[idx as int]));
                }
                return Err(e);
            },
        }
        idx += 1;
    }
    Ok(events)
}

/// One event as it stands in the document.
pub fn event_text(event: &Event) -> (text: String)
    ensures
        text@ == event_xml(event@),
{
    let mut text = String::from_str(EVENT_DAY);
    push_decimal(&mut text, event.day_num as u64);
    text.append(EVENT_TIME);
    push_decimal(&mut text, event.start as u64 * 60);
    text.append(EVENT_END_TIME);
    push_decimal(&mut text, event.end as u64 * 60);
    text.append(EVENT_TITLE);
    text.append(event.title.as_str());
    text.append(EVENT_TITLE_END);
    if let Some(room) = &event.info {
        let ghost before = text@;
        text.append(EVENT_INFO);
        text.append(room.as_str());
        text.append(EVENT_INFO_END);
        proof {
            assert(text@ =~= before + info_xml(event@.info));
        }
    } else {
        proof {
            assert(text@ =~= text@ + info_xml(event@.info));
        }
    }
    text.append(EVENT_WEEK);
    push_decimal(&mut text, event.week_num as u64);
    text.append(EVENT_END);
    text
}

/// Appends the events of a day to the document. Where a rendered lesson has
/// no bell time the document is left as it was.
pub fn process_day(
    xml: &mut String,
    day_of_week: &DayOfWeek,
    day: &Day,
    week_a: bool,
    bell_times: &BellTimes,
) -> (done: Result<(), RenderError>)
    ensures
        match done {
            Ok(()) => day_fits(day@, bell_times@.day(*day_of_week)) && final(xml)@ == old(xml)@
                + day_xml(day@, *day_of_week, week_a, bell_times@.day(*day_of_week)),
            Err(e) => e == RenderError::NoBellTime && !day_fits(
                day@,
                bell_times@.day(*day_of_week),
            ) && final(xml)@ == old(xml)@,
        },
{
    let events = match day_events(*day_of_week, day, week_a, bell_times.day(*day_of_week)) {
        Ok(events) => events,
        Err(e) => {
            return Err(e);
        },
    };
    let mut i: usize = 0;
    while i < events.len()
        invariant
            i <= events.len(),
            xml@ == old(xml)@ + events_xml(events_view(events@).take(i as int)),
        decreases events.len() - i,
    {
        let text = event_text(&events[i]);
        xml.append(text.as_str());
        proof {
            let done = events_view(events@).take(i + 1);
            assert(done.drop_last() =~= events_view(events@).take(i as int));
            assert(done.last() == events[i as int]@);
            assert(xml@ =~= old(xml)@ + events_xml(done));
        }
        i += 1;
    }
    proof {
        assert(events_view(events@).take(events.len() as int) =~= events_view(events@));
    }
    Ok(())
}

/// A colour in the Oklch colour space, in whole numbers: lightness and
/// chroma in thousandths, the hue in degrees.
#[derive(Debug, Clone, Copy, PartialEq, Eq, Structural)]
pub struct Oklch {
    pub lightness: u32,
    pub chroma: u32,
    pub hue: u32,
}

/// The lightness, in thousandths, of the colour that breaks, free periods
/// and the assembly share; that colour has no chroma.
pub const NEUTRAL_LIGHTNESS: u32 = 500;

/// Whether colours of this hue come out dim and are made up for with more
/// lightness and chroma.
pub open spec fn is_dim_hue(hue: nat) -> bool {
    95 <= hue <= 110
}

/// The colour of the class whose hue is `hue`: none where `hue` is no angle
/// of the colour wheel.
pub open spec fn colour_of_hue(hue: nat) -> Option<Oklch> {
    if hue > 360 {
        None
    } else if is_dim_hue(hue) {
        Some(Oklch { lightness: 850, chroma: 140, hue: hue as u32 })
    } else {
        Some(Oklch { lightness: 750, chroma: 125, hue: hue as u32 })
    }
}

/// The colour of the class whose hue is `hue`, before it is brought into the
/// colour space of the display.
pub fn gen_color(hue: usize) -> (colour: Option<Oklch>)
    ensures
        colour == colour_of_hue(hue as nat),
{
    if hue > 360 {
        return None;
    }
    let dim = 95 <= hue && hue <= 110;
    Some(
        Oklch {
            lightness: if dim { 850 } else { 750 },
            chroma: if dim { 140 } else { 125 },
            hue: hue as u32,
        },
    )
}

/// A display colour whose three channels, each a number from 0 to 1, are
/// already written out as they are to stand in the document.
#[derive(Debug, PartialEq)]
pub struct Rgb {
    pub r: String,
    pub g: String,
    pub b: String,
}

pub struct RgbView {
    pub r: Seq<char>,
    pub g: Seq<char>,
    pub b: Seq<char>,
}

impl View for Rgb {
    type V = RgbView;

    open spec fn view(&self) -> RgbView {
        RgbView { r: self.r@, g: self.g@, b: self.b@ }
    }
}

/// The views of a run of colours, in the same order.
pub open spec fn colours_view(colours: Seq<Rgb>) -> Seq<RgbView> {
    Seq::new(colours.len(), |i: int| colours[i]@)
}

// The pieces of the document around the colour settings and the events.

pub const DOCUMENT_HEAD: &'static str =
    "<?xml version=\"1.0\" encoding=\"UTF-8\"?><!DOCTYPE plist PUBLIC \"-//Apple//DTD PLIST 1.0//EN\" \"http://www.apple.com/DTDs/PropertyList-1.0.dtd\"><plist version=\"1.0\"><dict>";

pub const SETTINGS_HEAD: &'static str = "<key>Settings</key><dict><key>ColorSettings</key><dict>";

pub const COLOUR_KEY: &'static str = "<key>";

pub const COLOUR_RED: &'static str = "</key>\n        <array>\n            <real>";

pub const COLOUR_NEXT: &'static str = "</real>\n            <real>";

pub const COLOUR_END: &'static str = "</real>\n        </array>";

pub const NEUTRAL_RED: &'static str = "<array><real>";

pub const NEUTRAL_NEXT: &'static str = "</real><real>";

pub const NEUTRAL_END: &'static str = "</real></array>";

pub const LUNCH_KEY: &'static str = "<key>Lunch</key>";

pub const RECESS_KEY: &'static str = "<key>Recess</key>";

pub const FREE_PERIOD_KEY: &'static str = "<key>Free Period</key>";

pub const ASSEMBLY_KEY: &'static str = "<key>Assembly ";

pub const ASSEMBLY_KEY_END: &'static str = "</key>";

pub const SETTINGS_TAIL: &'static str =
    "</dict>\n    <key>NumberOfWeeks</key>\n    <integer>2</integer>\n    <key>SelectedWeek</key>\n    <integer>1</integer>\n    <key>SelectedWeekUpdateDate</key>\n    <date>2021-11-10T22:27:02Z</date>\n    <key>WeekendDaysAreActive</key>\n    <false/>\n    </dict>";

pub const EVENTS_HEAD: &'static str = "<key>WeekEvents</key><array>";

pub const DOCUMENT_TAIL: &'static str = "</array></dict></plist>";

/// The colour of one class as it stands in the colour settings.
pub open spec fn colour_entry_xml(key: Seq<char>, colour: RgbView) -> Seq<char> {
    COLOUR_KEY@ + key + COLOUR_RED@ + colour.r + COLOUR_NEXT@ + colour.g + COLOUR_NEXT@ + colour.b
        + COLOUR_END@
}

/// The colours of the first `n` classes as they stand in the colour
/// settings: key `i` with colour `i`.
pub open spec fn colour_entries_xml(keys: Seq<Seq<char>>, colours: Seq<RgbView>, n: nat) -> Seq<
    char,
>
    decreases n,
{
    if n == 0 {
        Seq::empty()
    } else {
        colour_entries_xml(keys, colours, (n - 1) as nat) + colour_entry_xml(
            keys[n - 1],
            colours[n - 1],
        )
    }
}

/// The shared colour as it stands in the colour settings.
pub open spec fn neutral_xml(neutral: RgbView) -> Seq<char> {
    NEUTRAL_RED@ + neutral.r + NEUTRAL_NEXT@ + neutral.g + NEUTRAL_NEXT@ + neutral.b
        + NEUTRAL_END@
}

/// The colour settings of lunch, recess and free periods.
pub open spec fn break_colours_xml(neutral: RgbView) -> Seq<char> {
    LUNCH_KEY@ + neutral_xml(neutral) + RECESS_KEY@ + neutral_xml(neutral) + FREE_PERIOD_KEY@
        + neutral_xml(neutral)
}

/// The colour setting of the assembly; nothing where the timetable has none.
pub open spec fn assembly_colour_xml(assembly: Option<Seq<char>>, neutral: RgbView) -> Seq<char> {
    match assembly {
        Some(key) => ASSEMBLY_KEY@ + key + ASSEMBLY_KEY_END@ + neutral_xml(neutral),
        None => Seq::empty(),
    }
}

/// Whether every rendered lesson of the week has its bell times.
pub open spec fn week_fits(week: WeekView, bells: BellTimesView) -> bool {
    &&& day_fits(week.monday, bells.monday)
    &&& day_fits(week.tuesday, bells.tuesday)
    &&& day_fits(week.wednesday, bells.wednesday)
    &&& day_fits(week.thursday, bells.thursday)
    &&& day_fits(week.friday, bells.friday)
}

/// The events of a week as they stand in the document, Monday first.
pub open spec fn week_xml(week: WeekView, week_a: bool, bells: BellTimesView) -> Seq<char> {
    day_xml(week.monday, DayOfWeek::Monday, week_a, bells.monday) + day_xml(
        week.tuesday,
        DayOfWeek::Tuesday,
        week_a,
        bells.tuesday,
    ) + day_xml(week.wednesday, DayOfWeek::Wednesday, week_a, bells.wednesday) + day_xml(
        week.thursday,
        DayOfWeek::Thursday,
        week_a,
        bells.thursday,
    ) + day_xml(week.friday, DayOfWeek::Friday, week_a, bells.friday)
}

/// Whether the timetable can be rendered with the school's bell times.
pub open spec fn renderable(t: TimetableView) -> bool {
    week_fits(t.week_a, school_bell_times()) && week_fits(t.week_b, school_bell_times())
}

/// The import document of a timetable: the colour settings, with colour `i`
/// for the class whose key is the `i`-th in the order of texts and the
/// shared colour for breaks, free periods and the assembly; the fixed
/// settings; and the events of week A, then those of week B.
pub open spec fn timetable_xml(t: TimetableView, colours: Seq<RgbView>, neutral: RgbView) -> Seq<
    char,
> {
    let keys = sorted_keys(key_set(t.lessons()));
    DOCUMENT_HEAD@ + SETTINGS_HEAD@ + colour_entries_xml(keys, colours, keys.len())
        + break_colours_xml(neutral) + assembly_colour_xml(last_assembly(t.lessons()), neutral)
        + SETTINGS_TAIL@ + EVENTS_HEAD@ + week_xml(t.week_a, true, school_bell_times()) + week_xml(
        t.week_b,
        false,
        school_bell_times(),
    ) + DOCUMENT_TAIL@
}

/// The colours of the classes as they stand in the colour settings.
pub fn colour_entries_text(keys: &Vec<String>, colours: &Vec<Rgb>) -> (text: String)
    requires
        keys.len() == colours.len(),
    ensures
        text@ == colour_entries_xml(texts(keys@), colours_view(colours@), keys@.len()),
{
    let mut text = String::new();
    let mut i: usize = 0;
    while i < keys.len()
        invariant
            i <= keys.len(),
            keys.len() == colours.len(),
            text@ == colour_entries_xml(texts(keys@), colours_view(colours@), i as nat),
        decreases keys.len() - i,
    {
        let ghost before = text@;
        let colour = &colours[i];
        text.append(COLOUR_KEY);
        text.append(keys[i].as_str());
        text.append(COLOUR_RED);
        text.append(colour.r.as_str());
        text.append(COLOUR_NEXT);
        text.append(colour.g.as_str());
        text.append(COLOUR_NEXT);
        text.append(colour.b.as_str());
        text.append(COLOUR_END);
        proof {
            assert(text@ =~= before + colour_entry_xml(
                texts(keys@)[i as int],
                colours_view(colours@)[i as int],
            ));
        }
        i += 1;
    }
    text
}

/// The shared colour as it stands in the colour settings.
pub fn neutral_text(neutral: &Rgb) -> (text: String)
    ensures
        text@ == neutral_xml(neutral@),
{
    let mut text = String::from_str(NEUTRAL_RED);
    text.append(neutral.r.as_str());
    text.append(NEUTRAL_NEXT);
    text.append(neutral.g.as_str());
    text.append(NEUTRAL_NEXT);
    text.append(neutral.b.as_str());
    text.append(NEUTRAL_END);
    text
}

/// Appends the events of a week to the document, Monday first. Where a
/// rendered lesson has no bell time the document is left as it was.
pub fn process_week(xml: &mut String, week: &Week, week_a: bool, bell_times: &BellTimes) -> (done:
    Result<(), RenderError>)
    ensures
        match done {
            Ok(()) => week_fits(week@, bell_times@) && final(xml)@ == old(xml)@ + week_xml(
                week@,
                week_a,
                bell_times@,
            ),
            Err(e) => e == RenderError::NoBellTime && !week_fits(week@, bell_times@)
                && final(xml)@ == old(xml)@,
        },
{
    let mut text = String::new();
    if let Err(e) = process_day(&mut text, &DayOfWeek::Monday, &week.monday, week_a, bell_times) {
        return Err(e);
    }
    if let Err(e) = process_day(&mut text, &DayOfWeek::Tuesday, &week.tuesday, week_a, bell_times) {
        return Err(e);
    }
    if let Err(e) = process_day(
        &mut text,
        &DayOfWeek::Wednesday,
        &week.wednesday,
        week_a,
        bell_times,
    ) {
        return Err(e);
    }
    if let Err(e) = process_day(&mut text, &DayOfWeek::Thursday, &week.thursday, week_a, bell_times) {
        return Err(e);
    }
    if let Err(e) = process_day(&mut text, &DayOfWeek::Friday, &week.friday, week_a, bell_times) {
        return Err(e);
    }
    proof {
        assert(text@ =~= week_xml(week@, week_a, bell_times@));
    }
    xml.append(text.as_str());
    Ok(())
}

/// The import document of a timetable. `colours` holds the colour of each
/// class that gets one of its own, in the order of `subject_keys`;
/// `neutral` is the colour that breaks, free periods and the assembly share.
pub fn gen_timetable_xml(t: &Timetable, colours: &Vec<Rgb>, neutral: &Rgb) -> (document: Result<
    String,
    RenderError,
>)
    ensures
        match document {
            Ok(xml) => colours@.len() == sorted_keys(key_set(t@.lessons())).len() && renderable(t@)
                && xml@ == timetable_xml(t@, colours_view(colours@), neutral@),
            Err(RenderError::ColourCount) => colours@.len() != sorted_keys(
                key_set(t@.lessons()),
            ).len(),
            Err(RenderError::NoBellTime) => colours@.len() == sorted_keys(
                key_set(t@.lessons()),
            ).len() && !renderable(t@),
        },
{
    let found = subject_keys(t);
    if colours.len() != found.keys.len() {
        return Err(RenderError::ColourCount);
    }
    let mut xml = String::from_str(DOCUMENT_HEAD);

    xml.append(SETTINGS_HEAD);
    let entries = colour_entries_text(&found.keys, colours);
    xml.append(entries.as_str());

    let color = neutral_text(neutral);
    let ghost before = xml@;
    xml.append(LUNCH_KEY);
    xml.append(color.as_str());
    xml.append(RECESS_KEY);
    xml.append(color.as_str());
    xml.append(FREE_PERIOD_KEY);
    xml.append(color.as_str());
    proof {
        assert(xml@ =~= before + break_colours_xml(neutral@));
    }

    let ghost before = xml@;
    if let Some(assembly) = &found.assembly {
        xml.append(ASSEMBLY_KEY);
        xml.append(assembly.as_str());
        xml.append(ASSEMBLY_KEY_END);
        xml.append(color.as_str());
    }
    proof {
        assert(xml@ =~= before + assembly_colour_xml(last_assembly(t@.lessons()), neutral@));
    }

    xml.append(SETTINGS_TAIL);

    xml.append(EVENTS_HEAD);
    let bell_times = BellTimes::default();
    if let Err(e) = process_week(&mut xml, &t.week_a, true, &bell_times) {
        return Err(e);
    }
    if let Err(e) = process_week(&mut xml, &t.week_b, false, &bell_times) {
        return Err(e);
    }
    xml.append(DOCUMENT_TAIL);

    Ok(xml)
}

} // verus!
