//! What the plugin keeps of its readings: the loudness timeline and the two
//! captures.
use crate::editor::slots::TIMELINE_POINTS;
use crate::scope::history::{newest, History};
use vstd::prelude::*;

verus! {

/// The loudness readings that a timeline and a capture are taken from.
#[derive(Clone, Copy, Debug, PartialEq, Eq)]
pub struct LoudnessReadings<T> {
    pub momentary: Option<T>,
    pub short_term: Option<T>,
    pub integrated: Option<T>,
    pub true_peak: Option<T>,
}

/// A reading, or the sentinel where there is none.
pub open spec fn reading_or<T>(reading: Option<T>, fallback: T) -> T {
    match reading {
        Some(value) => value,
        None => fallback,
    }
}

/// A reading, or the sentinel where there is none.
pub fn option_value<T: Copy>(reading: Option<T>, fallback: T) -> (value: T)
    ensures
        value == reading_or(reading, fallback),
{
    match reading {
        Some(value) => value,
        None => fallback,
    }
}

/// One of the lines of the timeline.
#[derive(Clone, Copy, Debug, PartialEq, Eq, Structural)]
pub enum TimelineSeries {
    Momentary,
    ShortTerm,
    Integrated,
}

/// One column of the timeline.
#[derive(Clone, Copy, Debug, PartialEq, Eq)]
pub struct TimelinePoint<T> {
    pub momentary: T,
    pub short_term: T,
    pub integrated: T,
}

impl<T: Copy> TimelinePoint<T> {
    /// The column that readings make.
    pub open spec fn of(readings: LoudnessReadings<T>, unmeasured: T) -> Self {
        TimelinePoint {
            momentary: reading_or(readings.momentary, unmeasured),
            short_term: reading_or(readings.short_term, unmeasured),
            integrated: reading_or(readings.integrated, unmeasured),
        }
    }

    /// The value of one line.
    pub open spec fn on(self, series: TimelineSeries) -> T {
        match series {
            TimelineSeries::Momentary => self.momentary,
            TimelineSeries::ShortTerm => self.short_term,
            TimelineSeries::Integrated => self.integrated,
        }
    }
}

/// The newest loudness readings, oldest first.
#[derive(Debug)]
pub struct LoudnessTimeline<T> {
    points: History<TimelinePoint<T>>,
    unmeasured: T,
}

impl<T: Copy> LoudnessTimeline<T> {
    /// Whether there is room for as many columns as the page draws.
    pub closed spec fn is_valid(self) -> bool {
        &&& self.points.is_valid()
        &&& self.points.limit() == TIMELINE_POINTS
    }

    /// The columns, oldest first.
    pub closed spec fn view(&self) -> Seq<TimelinePoint<T>> {
        self.points@
    }

    /// What stands for no reading.
    pub closed spec fn sentinel(self) -> T {
        self.unmeasured
    }

    /// What the page draws at a column.
    pub open spec fn shown(self, series: TimelineSeries, index: int) -> T {
        if index < self@.len() {
            self@[index].on(series)
        } else {
            self.sentinel()
        }
    }

    /// A timeline without readings.
    pub fn new(unmeasured: T) -> (timeline: Self)
        ensures
            timeline.is_valid(),
            timeline@ == Seq::<TimelinePoint<T>>::empty(),
            timeline.sentinel() == unmeasured,
    {
        let blank = TimelinePoint {
            momentary: unmeasured,
            short_term: unmeasured,
            integrated: unmeasured,
        };
        LoudnessTimeline { points: History::new(TIMELINE_POINTS, blank), unmeasured }
    }

    /// Forgets every reading.
    pub fn reset(&mut self)
        requires
            old(self).is_valid(),
        ensures
            final(self).is_valid(),
            final(self)@ == Seq::<TimelinePoint<T>>::empty(),
            final(self).sentinel() == old(self).sentinel(),
    {
        self.points.reset();
    }

    /// Adds the readings of one tick.
    pub fn push(&mut self, readings: &LoudnessReadings<T>)
        requires
            old(self).is_valid(),
        ensures
            final(self).is_valid(),
            final(self)@ == newest(
                old(self)@.push(TimelinePoint::of(*readings, old(self).sentinel())),
                TIMELINE_POINTS as int,
            ),
            final(self).sentinel() == old(self).sentinel(),
    {
        let point = TimelinePoint {
            momentary: option_value(readings.momentary, self.unmeasured),
            short_term: option_value(readings.short_term, self.unmeasured),
            integrated: option_value(readings.integrated, self.unmeasured),
        };
        self.points.push(point);
    }

    /// What the page draws at a column: the sentinel where nothing has been
    /// read yet.
    pub fn value(&self, series: TimelineSeries, chronological: usize) -> (value: T)
        requires
            self.is_valid(),
        ensures
            value == self.shown(series, chronological as int),
    {
        match self.points.get(chronological) {
            Some(point) => match series {
                TimelineSeries::Momentary => point.momentary,
                TimelineSeries::ShortTerm => point.short_term,
                TimelineSeries::Integrated => point.integrated,
            },
            None => self.unmeasured,
        }
    }
}

/// The readings of one moment, kept to be compared with later ones.
#[derive(Clone, Copy, Debug, PartialEq, Eq)]
pub struct Capture<T> {
    pub valid: bool,
    pub short_term: T,
    pub integrated: T,
    pub true_peak: T,
}

impl<T: Copy> Capture<T> {
    /// The capture of readings.
    pub open spec fn of(readings: LoudnessReadings<T>, unmeasured: T) -> Self {
        Capture {
            valid: true,
            short_term: reading_or(readings.short_term, unmeasured),
            integrated: reading_or(readings.integrated, unmeasured),
            true_peak: reading_or(readings.true_peak, unmeasured),
        }
    }

    /// A capture of nothing.
    pub fn empty(zero: T) -> (capture: Self)
        ensures
            capture == (Capture { valid: false, short_term: zero, integrated: zero, true_peak: zero }),
    {
        Capture { valid: false, short_term: zero, integrated: zero, true_peak: zero }
    }

    /// Captures readings.
    pub fn take(&mut self, readings: &LoudnessReadings<T>, unmeasured: T)
        ensures
            *final(self) == Capture::of(*readings, unmeasured),
    {
        self.valid = true;
        self.short_term = option_value(readings.short_term, unmeasured);
        self.integrated = option_value(readings.integrated, unmeasured);
        self.true_peak = option_value(readings.true_peak, unmeasured);
    }
}

/// The value of a capture that a page shows.
pub open spec fn captured<T>(valid: bool, value: T, unmeasured: T) -> T {
    if valid {
        value
    } else {
        unmeasured
    }
}

/// The value of a capture that a page shows.
pub fn capture_value<T: Copy>(valid: bool, value: T, unmeasured: T) -> (shown: T)
    ensures
        shown == captured(valid, value, unmeasured),
{
    if valid {
        value
    } else {
        unmeasured
    }
}

/// A column shows on each line the reading of that line, and the sentinel where there is
/// none.
pub proof fn columns_show_their_readings<T: Copy>(readings: LoudnessReadings<T>, unmeasured: T)
    ensures
        ({
            let column = TimelinePoint::of(readings, unmeasured);
            &&& readings.momentary matches Some(value) ==> column.on(TimelineSeries::Momentary)
                == value
            &&& readings.short_term matches Some(value) ==> column.on(TimelineSeries::ShortTerm)
                == value
            &&& readings.integrated matches Some(value) ==> column.on(TimelineSeries::Integrated)
                == value
            &&& readings.momentary is None ==> column.on(TimelineSeries::Momentary) == unmeasured
            &&& readings.short_term is None ==> column.on(TimelineSeries::ShortTerm) == unmeasured
            &&& readings.integrated is None ==> column.on(TimelineSeries::Integrated) == unmeasured
        }),
{
}

/// A capture keeps its readings, each as itself, and shows them once it is taken.
pub proof fn captures_keep_their_readings<T: Copy>(readings: LoudnessReadings<T>, unmeasured: T)
    ensures
        ({
            let capture = Capture::of(readings, unmeasured);
            &&& capture.valid
            &&& readings.short_term matches Some(value) ==> captured(
                capture.valid,
                capture.short_term,
                unmeasured,
            ) == value
            &&& readings.integrated matches Some(value) ==> captured(
                capture.valid,
                capture.integrated,
                unmeasured,
            ) == value
            &&& readings.true_peak matches Some(value) ==> captured(
                capture.valid,
                capture.true_peak,
                unmeasured,
            ) == value
            &&& readings.short_term is None ==> capture.short_term == unmeasured
            &&& readings.integrated is None ==> capture.integrated == unmeasured
            &&& readings.true_peak is None ==> capture.true_peak == unmeasured
        }),
        forall|value: T| captured(false, value, unmeasured) == unmeasured,
{
}

} // verus!
