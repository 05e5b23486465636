//! The school's bell times: when each slot of a day starts and how long it
//! lasts.

use crate::types::DayOfWeek;
use itertools::Itertools;
use vstd::prelude::*;

verus! {

pub const SECONDS_PER_DAY: u32 = 86_400;

/// A time of day, to the second. Its view is the number of seconds since
/// midnight, which is always less than a day.
#[derive(Debug, Clone, Copy, PartialEq, Eq)]
pub struct ClockTime {
    secs: u32,
}

impl View for ClockTime {
    type V = nat;

    closed spec fn view(&self) -> nat {
        self.secs as nat
    }
}

/// The seconds since midnight at `hour:min:sec`.
pub open spec fn seconds_at(hour: nat, min: nat, sec: nat) -> nat {
    hour * 3600 + min * 60 + sec
}

impl ClockTime {
    #[verifier::type_invariant]
    spec fn within_day(&self) -> bool {
        self.secs < SECONDS_PER_DAY
    }

    /// The time `hour:min:sec`, or `None` where that is no time of day.
    pub fn from_hms_opt(hour: u32, min: u32, sec: u32) -> (time: Option<ClockTime>)
        ensures
            time is Some <==> hour < 24 && min < 60 && sec < 60,
            time matches Some(t) ==> t@ == seconds_at(hour as nat, min as nat, sec as nat),
    {
        if hour >= 24 || min >= 60 || sec >= 60 {
            None
        } else {
            Some(ClockTime { secs: hour * 3600 + min * 60 + sec })
        }
    }

    pub fn seconds_from_midnight(&self) -> (secs: u32)
        ensures
            secs == self@,
            secs < SECONDS_PER_DAY,
    {
        proof {
            use_type_invariant(self);
        }
        self.secs
    }

    pub fn hour(&self) -> (hour: u32)
        ensures
            hour == self@ / 3600,
            hour < 24,
    {
        proof {
            use_type_invariant(self);
        }
        self.secs / 3600
    }

    pub fn minute(&self) -> (minute: u32)
        ensures
            minute == (self@ / 60) % 60,
    {
        (self.secs / 60) % 60
    }

    /// The whole minutes since midnight.
    pub fn minute_of_day(&self) -> (minutes: u32)
        ensures
            minutes == self@ / 60,
            minutes < 1440,
    {
        proof {
            use_type_invariant(self);
        }
        self.secs / 60
    }

    /// The seconds from `self` to `later`; negative where `later` is the
    /// earlier of the two.
    pub fn seconds_until(&self, later: &ClockTime) -> (length: i32)
        ensures
            length == later@ - self@,
            -SECONDS_PER_DAY < length < SECONDS_PER_DAY,
    {
        proof {
            use_type_invariant(self);
            use_type_invariant(later);
        }
        let from: i32 = self.secs as i32;
        let to: i32 = later.secs as i32;
        to - from
    }

    /// The time `seconds` after `self`, going round at midnight.
    pub fn after(&self, seconds: i32) -> (time: ClockTime)
        ensures
            time@ == wrapped(self@ + seconds),
    {
        proof {
            use_type_invariant(self);
        }
        let sum: i32 = self.secs as i32 + seconds % 86_400;
        let secs: i32 = if sum < 0 {
            sum + 86_400
        } else if sum >= 86_400 {
            sum - 86_400
        } else {
            sum
        };
        ClockTime { secs: secs as u32 }
    }
}

/// `seconds` brought into one day: the time of day that many seconds after
/// midnight.
pub open spec fn wrapped(seconds: int) -> nat {
    (seconds % (SECONDS_PER_DAY as int)) as nat
}

/// One slot of a day: when it starts and how many seconds it lasts.
#[derive(Debug, Clone, Copy)]
pub struct BellTime {
    start: ClockTime,
    length: i32,
}

pub struct BellTimeView {
    pub start: nat,
    pub length: int,
}

impl BellTimeView {
    /// The time of day at which the slot ends: the start plus the length.
    pub open spec fn end(self) -> nat {
        wrapped(self.start + self.length)
    }
}

impl View for BellTime {
    type V = BellTimeView;

    closed spec fn view(&self) -> BellTimeView {
        BellTimeView { start: self.start@, length: self.length as int }
    }
}

impl BellTime {
    /// The slot that starts at `start` and lasts until `end`.
    pub fn between(start: ClockTime, end: ClockTime) -> (slot: BellTime)
        ensures
            slot@ == (BellTimeView { start: start@, length: end@ - start@ }),
            slot@.end() == end@,
    {
        let length = start.seconds_until(&end);
        proof {
            use_type_invariant(end);
        }
        BellTime { start, length }
    }

    pub fn start(&self) -> (start: ClockTime)
        ensures
            start@ == self@.start,
    {
        self.start
    }

    pub fn end(&self) -> (end: ClockTime)
        ensures
            end@ == self@.end(),
    {
        self.start.after(self.length)
    }
}

/// The views of a run of times, in the same order.
pub open spec fn times_view(times: Seq<ClockTime>) -> Seq<nat> {
    Seq::new(times.len(), |i: int| times[i]@)
}

/// The slots between consecutive boundaries: slot `i` starts at boundary `i`
/// and lasts until boundary `i + 1`, so the last boundary only ends the day.
pub open spec fn slots_between(boundaries: Seq<nat>) -> Seq<BellTimeView> {
    Seq::new(
        if boundaries.len() == 0 { 0 } else { (boundaries.len() - 1) as nat },
        |i: int| BellTimeView { start: boundaries[i], length: boundaries[i + 1] - boundaries[i] },
    )
}

/// Wraps `Itertools::tuple_windows` at pairs, applied to the cloned items of
/// `times`: the pairs of neighbours `(times[i], times[i + 1])` in order, one
/// fewer than there are items, and none where there are fewer than two.
#[verifier::external_body]
fn neighbours(times: &Vec<ClockTime>) -> (pairs: Vec<(ClockTime, ClockTime)>)
    ensures
        pairs@.len() == if times@.len() == 0 { 0 } else { times@.len() - 1 },
        forall|i: int| 0 <= i < pairs@.len() ==> #[trigger] pairs@[i] == (times@[i], times@[i + 1]),
{
    times.iter().cloned().tuple_windows().collect()
}

/// The bell times of one day, in slot order.
#[derive(Debug)]
pub struct Day {
    pub bell_times: Vec<BellTime>,
}

impl View for Day {
    type V = Seq<BellTimeView>;

    open spec fn view(&self) -> Seq<BellTimeView> {
        Seq::new(self.bell_times@.len(), |i: int| self.bell_times@[i]@)
    }
}

impl Day {
    /// The day whose slots lie between the given boundaries.
    pub fn new(times: &Vec<ClockTime>) -> (day: Day)
        ensures
            day@ == slots_between(times_view(times@)),
    {
        let pairs = neighbours(times);
        let mut bell_times: Vec<BellTime> = Vec::with_capacity(times.len());
        let mut i: usize = 0;
        while i < pairs.len()
            invariant
                i <= pairs.len(),
                pairs@.len() == if times@.len() == 0 { 0 } else { times@.len() - 1 },
                forall|k: int| 0 <= k < pairs@.len() ==> #[trigger] pairs@[k] == (times@[k], times@[k + 1]),
                bell_times@.len() == i,
                forall|k: int| 0 <= k < i ==> #[trigger] bell_times@[k]@ == (BellTimeView {
                    start: times@[k]@,
                    length: times@[k + 1]@ - times@[k]@,
                }),
            decreases pairs.len() - i,
        {
            let (start, end) = pairs[i];
            bell_times.push(BellTime::between(start, end));
            i += 1;
        }
        let day = Day { bell_times };
        proof {
            assert(day@ =~= slots_between(times_view(times@)));
        }
        day
    }
}

/// The boundaries of Monday, Tuesday, Thursday and Friday, in seconds since
/// midnight: the starts of periods 0, 1 and 2, recess, periods 3 and 4, the
/// two halves of lunch and periods 5 to 8, and the end of period 8.
pub open spec fn regular_boundaries() -> Seq<nat> {
    seq![
        seconds_at(7, 55, 0),
        seconds_at(8, 55, 0),
        seconds_at(9, 50, 0),
        seconds_at(10, 45, 0),
        seconds_at(11, 5, 0),
        seconds_at(12, 0, 0),
        seconds_at(12, 55, 0),
        seconds_at(13, 15, 0),
        seconds_at(13, 35, 0),
        seconds_at(14, 30, 0),
        seconds_at(15, 25, 0),
        seconds_at(16, 20, 0),
        seconds_at(17, 15, 0),
    ]
}

/// The boundaries of Wednesday: the starts of periods 0, 1 and 2, assembly,
/// recess, period 3, the two halves of lunch and periods 4 to 7, and the end
/// of period 7.
pub open spec fn midweek_boundaries() -> Seq<nat> {
    seq![
        seconds_at(7, 55, 0),
        seconds_at(8, 55, 0),
        seconds_at(9, 50, 0),
        seconds_at(10, 45, 0),
        seconds_at(11, 5, 0),
        seconds_at(11, 25, 0),
        seconds_at(12, 20, 0),
        seconds_at(12, 40, 0),
        seconds_at(13, 0, 0),
        seconds_at(13, 55, 0),
        seconds_at(14, 50, 0),
        seconds_at(15, 45, 0),
        seconds_at(16, 40, 0),
    ]
}

/// The bell times of the whole week.
#[derive(Debug)]
pub struct BellTimes {
    pub monday: Day,
    pub tuesday: Day,
    pub wednesday: Day,
    pub thursday: Day,
    pub friday: Day,
}

pub struct BellTimesView {
    pub monday: Seq<BellTimeView>,
    pub tuesday: Seq<BellTimeView>,
    pub wednesday: Seq<BellTimeView>,
    pub thursday: Seq<BellTimeView>,
    pub friday: Seq<BellTimeView>,
}

impl BellTimesView {
    pub open spec fn day(self, day_of_week: DayOfWeek) -> Seq<BellTimeView> {
        match day_of_week {
            DayOfWeek::Monday => self.monday,
            DayOfWeek::Tuesday => self.tuesday,
            DayOfWeek::Wednesday => self.wednesday,
            DayOfWeek::Thursday => self.thursday,
            DayOfWeek::Friday => self.friday,
        }
    }
}

impl View for BellTimes {
    type V = BellTimesView;

    open spec fn view(&self) -> BellTimesView {
        BellTimesView {
            monday: self.monday@,
            tuesday: self.tuesday@,
            wednesday: self.wednesday@,
            thursday: self.thursday@,
            friday: self.friday@,
        }
    }
}

/// The school's bell times: Wednesday has its own, the other four days share
/// one schedule.
pub open spec fn school_bell_times() -> BellTimesView {
    BellTimesView {
        monday: slots_between(regular_boundaries()),
        tuesday: slots_between(regular_boundaries()),
        wednesday: slots_between(midweek_boundaries()),
        thursday: slots_between(regular_boundaries()),
        friday: slots_between(regular_boundaries()),
    }
}

/// The time `hour:min`, or midnight where that is no time of day.
fn at(hour: u32, min: u32) -> (time: ClockTime)
    ensures
        hour < 24 && min < 60 ==> time@ == seconds_at(hour as nat, min as nat, 0),
{
    match ClockTime::from_hms_opt(hour, min, 0) {
        Some(time) => time,
        None => ClockTime { secs: 0 },
    }
}

impl BellTimes {
    pub fn day(&self, day_of_week: DayOfWeek) -> (day: &Day)
        ensures
            day@ == self@.day(day_of_week),
    {
        match day_of_week {
            DayOfWeek::Monday => &self.monday,
            DayOfWeek::Tuesday => &self.tuesday,
            DayOfWeek::Wednesday => &self.wednesday,
            DayOfWeek::Thursday => &self.thursday,
            DayOfWeek::Friday => &self.friday,
        }
    }
}

impl Default for BellTimes {
    fn default() -> (bell_times: BellTimes)
        ensures
            bell_times@ == school_bell_times(),
    {
        let not_wednesday: Vec<ClockTime> = vec![
            at(7, 55),   // 0
            at(8, 55),   // 1
            at(9, 50),   // 2
            at(10, 45),  // R
            at(11, 5),   // 3
            at(12, 0),   // 4
            at(12, 55),  // L1
            at(13, 15),  // L2
            at(13, 35),  // 5
            at(14, 30),  // 6
            at(15, 25),  // 7
            at(16, 20),  // 8
            at(17, 15),  // End of 8
        ];
        let wednesday: Vec<ClockTime> = vec![
            at(7, 55),   // 0
            at(8, 55),   // 1
            at(9, 50),   // 2
            at(10, 45),  // A
            at(11, 5),   // R
            at(11, 25),  // 3
            at(12, 20),  // L1
            at(12, 40),  // L2
            at(13, 0),   // 4
            at(13, 55),  // 5
            at(14, 50),  // 6
            at(15, 45),  // 7
            at(16, 40),  // End of 7
        ];
        proof {
            assert(times_view(not_wednesday@) =~= regular_boundaries());
            assert(times_view(wednesday@) =~= midweek_boundaries());
        }
        BellTimes {
            monday: Day::new(&not_wednesday),
            tuesday: Day::new(&not_wednesday),
            wednesday: Day::new(&wednesday),
            thursday: Day::new(&not_wednesday),
            friday: Day::new(&not_wednesday),
        }
    }
}

} // verus!
