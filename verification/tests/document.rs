use school_timetable::generator::bell_times::BellTimes;
use school_timetable::generator::palette::{subject_hues, subject_keys};
use school_timetable::generator::{
    colour_entries_text, day_events, event_text, gen_color, gen_timetable_xml, lesson_event,
    lesson_info, lesson_title, neutral_text, process_day, process_week, Event, Oklch, RenderError,
    Rgb,
};
use school_timetable::types::{Day, DayOfWeek, Lesson, Subject, Timetable, Week};

use Lesson::{AbsentPeriod, FreePeriod, Lunch1, Lunch2, Recess};

fn class(name: &str, subject_code: &str, class_code: &str, room: Option<&str>) -> Lesson {
    Lesson::Present {
        subject: Subject { name: name.to_string(), faculty: "Faculty".to_string() },
        teacher: None,
        room: room.map(|r| r.to_string()),
        subject_code: subject_code.to_string(),
        class_code: class_code.to_string(),
    }
}

fn day(lessons: Vec<Lesson>) -> Day {
    Day { lessons }
}

fn rgb(r: &str, g: &str, b: &str) -> Rgb {
    Rgb { r: r.to_string(), g: g.to_string(), b: b.to_string() }
}

fn event(
    day_num: u32,
    start: (u32, u32),
    end: (u32, u32),
    title: &str,
    info: Option<&str>,
    week_num: u32,
) -> Event {
    Event {
        day_num,
        start: start.0 * 60 + start.1,
        end: end.0 * 60 + end.1,
        title: title.to_string(),
        info: info.map(|i| i.to_string()),
        week_num,
    }
}

/// One event as the document holds it.
fn event_xml(day_num: u32, time: u32, end_time: u32, title: &str, info: &str, week_num: u32) -> String {
    format!(
        r#"<dict>
        <key>dayNum</key>
        <integer>{}</integer>
        <key>time</key>
        <real>{}</real>
        <key>endTime</key>
        <real>{}</real>
        <key>title</key>
        <string>{}</string>{}
        <key>weekNum</key>
        <integer>{}</integer>
    </dict>"#,
        day_num, time, end_time, title, info, week_num
    )
}

/// The colour of one class as the document holds it.
fn colour_xml(key: &str, r: &str, g: &str, b: &str) -> String {
    format!(
        r#"<key>{}</key>
        <array>
            <real>{}</real>
            <real>{}</real>
            <real>{}</real>
        </array>"#,
        key, r, g, b
    )
}

/// The whole document around the colours of the classes, the colour setting
/// of the assembly and the events.
fn document_xml(colours: &str, neutral: (&str, &str, &str), assembly: &str, events: &str) -> String {
    let mut xml = String::new();
    xml += r#"<?xml version="1.0" encoding="UTF-8"?><!DOCTYPE plist PUBLIC "-//Apple//DTD PLIST 1.0//EN" "http://www.apple.com/DTDs/PropertyList-1.0.dtd"><plist version="1.0"><dict>"#;
    xml += "<key>Settings</key><dict><key>ColorSettings</key><dict>";
    xml += colours;
    let color = format!(
        "<array><real>{}</real><real>{}</real><real>{}</real></array>",
        neutral.0, neutral.1, neutral.2
    );
    xml += &format!("<key>Lunch</key>{color}<key>Recess</key>{color}<key>Free Period</key>{color}");
    if !assembly.is_empty() {
        xml += &format!("<key>Assembly {}</key>{color}", assembly);
    }
    xml += r#"</dict>
    <key>NumberOfWeeks</key>
    <integer>2</integer>
    <key>SelectedWeek</key>
    <integer>1</integer>
    <key>SelectedWeekUpdateDate</key>
    <date>2021-11-10T22:27:02Z</date>
    <key>WeekendDaysAreActive</key>
    <false/>
    </dict>"#;
    xml += "<key>WeekEvents</key><array>";
    xml += events;
    xml += "</array></dict></plist>";
    xml
}

fn sample_timetable() -> Timetable {
    let week_a = Week {
        monday: day(vec![
            class("Maths", "MAT", "1", Some("B12")),
            FreePeriod,
            class("English", "ENG", "3", None),
            Recess,
            AbsentPeriod,
            Lunch2,
            Lunch1,
            Lunch2,
        ]),
        wednesday: day(vec![
            AbsentPeriod,
            AbsentPeriod,
            AbsentPeriod,
            class("Assembly", "PC", "9", Some("Hall")),
        ]),
        ..Week::default()
    };
    let week_b = Week {
        wednesday: day(vec![
            AbsentPeriod,
            AbsentPeriod,
            AbsentPeriod,
            AbsentPeriod,
            AbsentPeriod,
            AbsentPeriod,
            Lunch1,
        ]),
        friday: day(vec![class("Maths", "MAT", "1", None)]),
        ..Week::default()
    };
    Timetable { week_a, week_b }
}

fn sample_events() -> String {
    [
        event_xml(0, 28500, 32100, "MAT.1", "<key>info</key><string>B12</string>", 0),
        event_xml(0, 32100, 35400, "Free Period", "", 0),
        event_xml(0, 35400, 38700, "ENG.3", "", 0),
        event_xml(0, 38700, 39900, "Recess", "", 0),
        event_xml(0, 46500, 48900, "Lunch", "", 0),
        event_xml(2, 38700, 39900, "Assembly PC.9", "<key>info</key><string>Hall</string>", 0),
        event_xml(2, 44400, 46800, "Lunch", "", 1),
        event_xml(4, 28500, 32100, "MAT.1", "", 1),
    ]
    .concat()
}

#[test]
fn document_of_a_sample_timetable() {
    let colours = vec![rgb("0.1", "0.2", "0.3"), rgb("0.4", "0.5", "0.6")];
    let neutral = rgb("0.7", "0.8", "0.9");
    let xml = gen_timetable_xml(&sample_timetable(), &colours, &neutral).unwrap();
    let expected = document_xml(
        &[colour_xml("ENG.3", "0.1", "0.2", "0.3"), colour_xml("MAT.1", "0.4", "0.5", "0.6")].concat(),
        ("0.7", "0.8", "0.9"),
        "PC.9",
        &sample_events(),
    );
    assert_eq!(xml, expected);
}

#[test]
fn document_with_the_colours_of_the_colour_wheel() {
    let timetable = sample_timetable();
    let found = subject_keys(&timetable);
    let text = |c: tincture::Srgb| Rgb {
        r: format!("{}", c.r),
        g: format!("{}", c.g),
        b: format!("{}", c.b),
    };
    let srgb = |colour: Oklch| {
        let oklch = tincture::Oklch {
            l: colour.lightness as f32 / 1000.0,
            c: colour.chroma as f32 / 1000.0,
            h: tincture::Hue::from_degrees(colour.hue as f32).unwrap(),
        };
        let lrgb: tincture::LinearRgb = tincture::convert(tincture::Oklab::from(oklch));
        tincture::Srgb::from(lrgb)
    };
    let hues = subject_hues(found.keys.len());
    assert_eq!(hues, vec![0, 120]);
    let colours: Vec<Rgb> = hues.iter().map(|hue| text(srgb(gen_color(*hue).unwrap()))).collect();
    let grey: tincture::LinearRgb = tincture::convert(tincture::Oklab { l: 0.5, a: 0.0, b: 0.0 });
    let neutral = text(tincture::Srgb::from(grey));

    let xml = gen_timetable_xml(&timetable, &colours, &neutral).unwrap();

    let expected = document_xml(
        &[
            colour_xml("ENG.3", &colours[0].r, &colours[0].g, &colours[0].b),
            colour_xml("MAT.1", &colours[1].r, &colours[1].g, &colours[1].b),
        ]
        .concat(),
        (&neutral.r, &neutral.g, &neutral.b),
        "PC.9",
        &sample_events(),
    );
    assert_eq!(xml, expected);
    for channel in [&colours[0].r, &colours[1].g, &neutral.b] {
        let value: f32 = channel.parse().unwrap();
        assert!((0.0..=1.0).contains(&value));
    }
}

#[test]
fn document_of_an_empty_timetable() {
    let timetable = Timetable { week_a: Week::default(), week_b: Week::default() };
    let xml = gen_timetable_xml(&timetable, &vec![], &rgb("1", "1", "1")).unwrap();
    assert_eq!(xml, document_xml("", ("1", "1", "1"), "", ""));
}

#[test]
fn document_needs_one_colour_for_each_key() {
    let neutral = rgb("0", "0", "0");
    let one = vec![rgb("1", "1", "1")];
    let three = vec![rgb("1", "1", "1"), rgb("2", "2", "2"), rgb("3", "3", "3")];
    assert_eq!(gen_timetable_xml(&sample_timetable(), &vec![], &neutral), Err(RenderError::ColourCount));
    assert_eq!(gen_timetable_xml(&sample_timetable(), &one, &neutral), Err(RenderError::ColourCount));
    assert_eq!(gen_timetable_xml(&sample_timetable(), &three, &neutral), Err(RenderError::ColourCount));
    let empty = Timetable { week_a: Week::default(), week_b: Week::default() };
    assert_eq!(gen_timetable_xml(&empty, &one, &neutral), Err(RenderError::ColourCount));
}

#[test]
fn document_needs_a_bell_time_for_each_rendered_lesson() {
    let neutral = rgb("0", "0", "0");
    let mut lessons: Vec<Lesson> = (0..12).map(|_| AbsentPeriod).collect();
    lessons.push(FreePeriod);
    let late = Timetable {
        week_a: Week::default(),
        week_b: Week { thursday: day(lessons), ..Week::default() },
    };
    assert_eq!(gen_timetable_xml(&late, &vec![], &neutral), Err(RenderError::NoBellTime));

    let mut lessons: Vec<Lesson> = (0..11).map(|_| AbsentPeriod).collect();
    lessons.push(Lunch1);
    let lunch = Timetable {
        week_a: Week { wednesday: day(lessons), ..Week::default() },
        week_b: Week::default(),
    };
    assert_eq!(gen_timetable_xml(&lunch, &vec![], &neutral), Err(RenderError::NoBellTime));

    let lessons: Vec<Lesson> = (0..40).map(|_| AbsentPeriod).collect();
    let absent = Timetable {
        week_a: Week { monday: day(lessons), ..Week::default() },
        week_b: Week::default(),
    };
    assert!(gen_timetable_xml(&absent, &vec![], &neutral).is_ok());
}

#[test]
fn wrong_colour_count_is_reported_before_a_missing_bell_time() {
    let mut lessons: Vec<Lesson> = (0..12).map(|_| AbsentPeriod).collect();
    lessons.push(class("Maths", "MAT", "1", None));
    let late = Timetable {
        week_a: Week { monday: day(lessons), ..Week::default() },
        week_b: Week::default(),
    };
    let neutral = rgb("0", "0", "0");
    assert_eq!(gen_timetable_xml(&late, &vec![], &neutral), Err(RenderError::ColourCount));
    let one = vec![rgb("1", "1", "1")];
    assert_eq!(gen_timetable_xml(&late, &one, &neutral), Err(RenderError::NoBellTime));
}

#[test]
fn lunch_event_ends_with_the_slot_after_its_own() {
    let bell_times = BellTimes::default();
    for (day_of_week, bells) in [
        (DayOfWeek::Monday, &bell_times.monday),
        (DayOfWeek::Wednesday, &bell_times.wednesday),
    ] {
        for idx in 0..11 {
            let lunch = lesson_event(&Lunch1, idx, day_of_week, true, bells).unwrap().unwrap();
            assert_eq!(lunch.start, bells.bell_times[idx].start().minute_of_day());
            assert_eq!(lunch.end, bells.bell_times[idx + 1].end().minute_of_day());
            let recess = lesson_event(&Recess, idx, day_of_week, true, bells).unwrap().unwrap();
            assert_eq!(recess.end, bells.bell_times[idx].end().minute_of_day());
        }
        assert_eq!(lesson_event(&Lunch1, 11, day_of_week, true, bells), Err(RenderError::NoBellTime));
        assert!(lesson_event(&Recess, 11, day_of_week, true, bells).is_ok());
        assert_eq!(lesson_event(&Recess, 12, day_of_week, true, bells), Err(RenderError::NoBellTime));
    }
    let monday = lesson_event(&Lunch1, 6, DayOfWeek::Monday, true, &bell_times.monday);
    assert_eq!(monday, Ok(Some(event(0, (12, 55), (13, 35), "Lunch", None, 0))));
    let wednesday = lesson_event(&Lunch1, 6, DayOfWeek::Wednesday, false, &bell_times.wednesday);
    assert_eq!(wednesday, Ok(Some(event(2, (12, 20), (13, 0), "Lunch", None, 1))));
}

#[test]
fn absent_periods_and_the_second_half_of_lunch_have_no_event() {
    let bell_times = BellTimes::default();
    for idx in [0, 5, 11, 12, 1000] {
        assert_eq!(lesson_event(&AbsentPeriod, idx, DayOfWeek::Monday, true, &bell_times.monday), Ok(None));
        assert_eq!(lesson_event(&Lunch2, idx, DayOfWeek::Monday, true, &bell_times.monday), Ok(None));
    }
}

#[test]
fn events_of_a_day_come_in_period_order() {
    let bell_times = BellTimes::default();
    let timetable = sample_timetable();
    let events = day_events(DayOfWeek::Monday, &timetable.week_a.monday, true, &bell_times.monday);
    assert_eq!(
        events,
        Ok(vec![
            event(0, (7, 55), (8, 55), "MAT.1", Some("B12"), 0),
            event(0, (8, 55), (9, 50), "Free Period", None, 0),
            event(0, (9, 50), (10, 45), "ENG.3", None, 0),
            event(0, (10, 45), (11, 5), "Recess", None, 0),
            event(0, (12, 55), (13, 35), "Lunch", None, 0),
        ])
    );
    let events = day_events(DayOfWeek::Wednesday, &timetable.week_a.wednesday, false, &bell_times.wednesday);
    assert_eq!(events, Ok(vec![event(2, (10, 45), (11, 5), "Assembly PC.9", Some("Hall"), 1)]));
    assert_eq!(day_events(DayOfWeek::Friday, &Day::default(), true, &bell_times.friday), Ok(vec![]));
}

#[test]
fn event_is_written_with_its_times_in_seconds() {
    let with_info = event(3, (7, 55), (8, 55), "MAT.1", Some("B12"), 1);
    assert_eq!(
        event_text(&with_info),
        event_xml(3, 28500, 32100, "MAT.1", "<key>info</key><string>B12</string>", 1)
    );
    let without = event(0, (0, 0), (23, 59), "Free Period", None, 0);
    assert_eq!(event_text(&without), event_xml(0, 0, 86340, "Free Period", "", 0));
    let large = Event {
        day_num: u32::MAX,
        start: u32::MAX,
        end: u32::MAX,
        title: String::new(),
        info: Some(String::new()),
        week_num: u32::MAX,
    };
    assert_eq!(
        event_text(&large),
        event_xml(
            u32::MAX,
            0,
            0,
            "",
            "<key>info</key><string></string>",
            u32::MAX
        )
        .replace("<real>0</real>", "<real>257698037700</real>")
    );
}

#[test]
fn titles_and_location_notes() {
    assert_eq!(lesson_title(&class("Maths", "MAT", "1", None)), "MAT.1");
    assert_eq!(lesson_title(&class("Assembly", "PC", "9", None)), "Assembly PC.9");
    assert_eq!(lesson_title(&class("assembly", "PC", "9", None)), "PC.9");
    assert_eq!(lesson_title(&class("Sport", "Tennis", "1", None)), "Tennis.1");
    assert_eq!(lesson_title(&FreePeriod), "Free Period");
    assert_eq!(lesson_title(&Recess), "Recess");
    assert_eq!(lesson_title(&Lunch1), "Lunch");
    assert_eq!(lesson_info(&class("Maths", "MAT", "1", Some("B12"))), Some("B12".to_string()));
    assert_eq!(lesson_info(&class("Maths", "MAT", "1", None)), None);
    assert_eq!(lesson_info(&Recess), None);
}

#[test]
fn day_is_appended_to_the_document() {
    let bell_times = BellTimes::default();
    let timetable = sample_timetable();
    let mut xml = String::from("before");
    let done = process_day(&mut xml, &DayOfWeek::Wednesday, &timetable.week_a.wednesday, true, &bell_times);
    assert_eq!(done, Ok(()));
    assert_eq!(
        xml,
        format!(
            "before{}",
            event_xml(2, 38700, 39900, "Assembly PC.9", "<key>info</key><string>Hall</string>", 0)
        )
    );
}

#[test]
fn day_without_bell_time_leaves_the_document_alone() {
    let bell_times = BellTimes::default();
    let mut lessons: Vec<Lesson> = (0..12).map(|_| FreePeriod).collect();
    lessons.push(Recess);
    let mut xml = String::from("before");
    let done = process_day(&mut xml, &DayOfWeek::Monday, &day(lessons), true, &bell_times);
    assert_eq!(done, Err(RenderError::NoBellTime));
    assert_eq!(xml, "before");
}

#[test]
fn week_is_appended_to_the_document() {
    let bell_times = BellTimes::default();
    let timetable = sample_timetable();
    let mut xml = String::from("before");
    assert_eq!(process_week(&mut xml, &timetable.week_b, false, &bell_times), Ok(()));
    assert_eq!(
        xml,
        format!(
            "before{}{}",
            event_xml(2, 44400, 46800, "Lunch", "", 1),
            event_xml(4, 28500, 32100, "MAT.1", "", 1)
        )
    );

    let mut lessons: Vec<Lesson> = (0..12).map(|_| AbsentPeriod).collect();
    lessons.push(Recess);
    let late = Week { monday: day(vec![Recess]), friday: day(lessons), ..Week::default() };
    let mut xml = String::from("before");
    assert_eq!(process_week(&mut xml, &late, true, &bell_times), Err(RenderError::NoBellTime));
    assert_eq!(xml, "before");
}

#[test]
fn colour_settings_pair_keys_and_colours_in_order() {
    let keys = vec!["ENG.3".to_string(), "MAT.1".to_string()];
    let colours = vec![rgb("0.1", "0.2", "0.3"), rgb("0.4", "0.5", "0.6")];
    assert_eq!(
        colour_entries_text(&keys, &colours),
        [colour_xml("ENG.3", "0.1", "0.2", "0.3"), colour_xml("MAT.1", "0.4", "0.5", "0.6")].concat()
    );
    assert_eq!(colour_entries_text(&vec![], &vec![]), "");
    assert_eq!(
        neutral_text(&rgb("0.7", "0.8", "0.9")),
        "<array><real>0.7</real><real>0.8</real><real>0.9</real></array>"
    );
}
