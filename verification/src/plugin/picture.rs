//! The picture that the page draws: one row of numbers, each in its slot.
use crate::editor::slots::{
    GONIOMETER, GONIOMETER_POINTS, HISTOGRAM, HISTOGRAM_POINTS, METRICS_END, OSCILLOSCOPE,
    OSCILLOSCOPE_POINTS, SCOPE_SLOTS, SPECTRUM, SPECTRUM_POINTS, TIMELINE_INTEGRATED,
    TIMELINE_MOMENTARY, TIMELINE_POINTS, TIMELINE_SHORT, WAVE_MAX, WAVE_MIN, WAVE_POINTS,
};
use crate::plugin::retained::{
    capture_value, captured, option_value, reading_or, Capture, LoudnessTimeline, TimelineSeries,
};
use vstd::prelude::*;

verus! {

/// What the loudness meter reads.
#[derive(Clone, Copy, Debug, PartialEq, Eq)]
pub struct MeterReadings<T> {
    pub momentary: Option<T>,
    pub short_term: Option<T>,
    pub true_peak: Option<T>,
    pub psr: Option<T>,
    pub integrated: Option<T>,
    pub range: Option<T>,
    pub plr: Option<T>,
    /// Sample peaks of the left and the right channel.
    pub left_peak: Option<T>,
    pub right_peak: Option<T>,
}

/// What the display scope reads of the stereo picture.
#[derive(Clone, Copy, Debug, PartialEq, Eq)]
pub struct StereoReadings<T> {
    pub correlation: Option<T>,
    pub width: Option<T>,
    pub left_rms: Option<T>,
    pub right_rms: Option<T>,
    pub mid_rms: Option<T>,
    pub side_rms: Option<T>,
}

/// What one needle reads.
#[derive(Clone, Copy, Debug, PartialEq, Eq)]
pub struct NeedleReadings<T> {
    pub level: Option<T>,
    pub calibrated: Option<T>,
    pub peak_hold: Option<T>,
}

/// Two values that stand side by side.
#[derive(Clone, Copy, Debug, PartialEq, Eq)]
pub struct Pair<T> {
    pub first: T,
    pub second: T,
}

/// Everything that a picture is made of. A part that is hidden or cannot be
/// measured is `None`.
pub struct PictureSource<'a, T> {
    pub zero: T,
    pub unmeasured: T,
    pub meter: Option<MeterReadings<T>>,
    /// Whether true peaks are shown.
    pub overs: bool,
    pub stereo: Option<StereoReadings<T>>,
    pub left_needle: Option<NeedleReadings<T>>,
    pub right_needle: Option<NeedleReadings<T>>,
    pub source: T,
    pub spectrum_frames: Option<T>,
    pub fft_frames: T,
    pub module_mask: T,
    pub target: T,
    /// Whether the loudness module is on.
    pub loudness: bool,
    pub capture_a: Capture<T>,
    pub capture_b: Capture<T>,
    pub timeline: Option<&'a LoudnessTimeline<T>>,
    /// Bar heights, as many as there are.
    pub histogram: Option<&'a [T]>,
    /// Lower and upper edge of each bucket.
    pub waveform: Option<&'a [Pair<T>]>,
    /// Left and right of each point.
    pub oscilloscope: Option<&'a [Pair<T>]>,
    /// Side and mid of each point.
    pub goniometer: Option<&'a [Pair<T>]>,
    /// Band heights.
    pub spectrum: Option<&'a [T]>,
}

/// The item that a display point shows when `points` of them are spread over
/// all the items.
pub open spec fn spread(index: int, count: int, points: int) -> int {
    index * count / points
}

/// The item that a display point shows, or the blank where there are no items.
pub open spec fn spread_item<T>(items: Seq<T>, index: int, points: int, blank: T) -> T {
    if items.len() == 0 {
        blank
    } else {
        items[spread(index, items.len() as int, points)]
    }
}

/// Spreading never reaches past the last item.
proof fn spread_is_inside(index: int, count: int, points: int)
    requires
        0 <= index < points,
        0 < count,
    ensures
        0 <= spread(index, count, points) < count,
{
    assert(0 <= index * count < points * count) by (nonlinear_arith)
        requires
            0 <= index < points,
            0 < count,
    ;
    vstd::arithmetic::div_mod::lemma_div_pos_is_pos(index * count, points);
    vstd::arithmetic::div_mod::lemma_multiply_divide_lt(index * count, points, count);
    assert(count * points == points * count) by (nonlinear_arith);
}

/// Display points move forward through the items, and the first one shows the
/// first item.
pub proof fn spreading_keeps_the_order(earlier: int, later: int, count: int, points: int)
    requires
        0 <= earlier <= later < points,
        0 < count,
    ensures
        spread(0, count, points) == 0,
        0 <= spread(earlier, count, points) <= spread(later, count, points) < count,
{
    spread_is_inside(earlier, count, points);
    spread_is_inside(later, count, points);
    assert(earlier * count <= later * count) by (nonlinear_arith)
        requires
            earlier <= later,
            0 < count,
    ;
    vstd::arithmetic::div_mod::lemma_div_is_ordered(earlier * count, later * count, points);
    vstd::arithmetic::div_mod::lemma_div_basics(points);
}

/// The item that a display point shows. The product is taken in a wider type.
fn spread_index(index: usize, count: usize, points: usize) -> (item: usize)
    requires
        index < points <= 128,
        0 < count,
    ensures
        item == spread(index as int, count as int, points as int),
        item < count,
{
    proof {
        spread_is_inside(index as int, count as int, points as int);
        assert(index * count <= 127 * u64::MAX) by (nonlinear_arith)
            requires
                index <= 127,
                0 <= count <= u64::MAX,
        ;
        assert(0 <= index * count) by (nonlinear_arith)
            requires
                0 <= index,
                0 <= count,
        ;
    }
    ((index as u128) * (count as u128) / (points as u128)) as usize
}

/// A reading of an optional set of readings.
pub open spec fn of_meter<T>(
    meter: Option<MeterReadings<T>>,
    reading: spec_fn(MeterReadings<T>) -> Option<T>,
    fallback: T,
) -> T {
    match meter {
        Some(readings) => reading_or(reading(readings), fallback),
        None => fallback,
    }
}

/// A reading of an optional stereo picture.
pub open spec fn of_stereo<T>(
    stereo: Option<StereoReadings<T>>,
    reading: spec_fn(StereoReadings<T>) -> Option<T>,
    fallback: T,
) -> T {
    match stereo {
        Some(readings) => reading_or(reading(readings), fallback),
        None => fallback,
    }
}

/// A reading of an optional needle.
pub open spec fn of_needle<T>(
    needle: Option<NeedleReadings<T>>,
    reading: spec_fn(NeedleReadings<T>) -> Option<T>,
    fallback: T,
) -> T {
    match needle {
        Some(readings) => reading_or(reading(readings), fallback),
        None => fallback,
    }
}

impl<'a, T: Copy> PictureSource<'a, T> {
    /// Whether the parts that bring their own storage are in order.
    pub open spec fn is_valid(self) -> bool {
        self.timeline matches Some(timeline) ==> timeline.is_valid()
    }

    /// A captured value, shown while loudness is on.
    pub open spec fn shown_capture(self, capture: Capture<T>, value: T) -> T {
        if self.loudness {
            captured(capture.valid, value, self.unmeasured)
        } else {
            self.unmeasured
        }
    }

    /// A captured peak, shown while loudness and its overs are on.
    pub open spec fn shown_peak(self, capture: Capture<T>) -> T {
        if self.overs {
            self.shown_capture(capture, capture.true_peak)
        } else {
            self.unmeasured
        }
    }

    /// The single readings.
    pub open spec fn metric(self, slot: int) -> T {
        let none = self.unmeasured;
        if slot == 0 {
            of_meter(self.meter, |meter: MeterReadings<T>| meter.momentary, none)
        } else if slot == 1 {
            of_meter(self.meter, |meter: MeterReadings<T>| meter.short_term, none)
        } else if slot == 2 {
            if self.loudness && self.overs {
                of_meter(self.meter, |meter: MeterReadings<T>| meter.true_peak, none)
            } else {
                none
            }
        } else if slot == 3 {
            of_stereo(self.stereo, |stereo: StereoReadings<T>| stereo.correlation, self.zero)
        } else if slot == 4 {
            of_stereo(self.stereo, |stereo: StereoReadings<T>| stereo.width, self.zero)
        } else if slot == 5 {
            of_stereo(self.stereo, |stereo: StereoReadings<T>| stereo.left_rms, none)
        } else if slot == 6 {
            of_stereo(self.stereo, |stereo: StereoReadings<T>| stereo.right_rms, none)
        } else if slot == 7 {
            of_stereo(self.stereo, |stereo: StereoReadings<T>| stereo.mid_rms, none)
        } else if slot == 8 {
            of_stereo(self.stereo, |stereo: StereoReadings<T>| stereo.side_rms, none)
        } else if slot == 9 {
            of_meter(self.meter, |meter: MeterReadings<T>| meter.psr, none)
        } else if slot == 10 {
            of_meter(self.meter, |meter: MeterReadings<T>| meter.integrated, none)
        } else if slot == 11 {
            of_meter(self.meter, |meter: MeterReadings<T>| meter.range, none)
        } else if slot == 12 {
            of_meter(self.meter, |meter: MeterReadings<T>| meter.plr, none)
        } else if slot == 13 {
            of_needle(self.left_needle, |needle: NeedleReadings<T>| needle.calibrated, none)
        } else if slot == 14 {
            of_needle(self.right_needle, |needle: NeedleReadings<T>| needle.calibrated, none)
        } else if slot == 15 {
            of_needle(self.left_needle, |needle: NeedleReadings<T>| needle.peak_hold, none)
        } else if slot == 16 {
            of_needle(self.right_needle, |needle: NeedleReadings<T>| needle.peak_hold, none)
        } else {
            self.later_metric(slot)
        }
    }

    /// The single readings from the sample peaks on.
    pub open spec fn later_metric(self, slot: int) -> T {
        let none = self.unmeasured;
        if slot == 17 {
            of_meter(self.meter, |meter: MeterReadings<T>| meter.left_peak, none)
        } else if slot == 18 {
            of_meter(self.meter, |meter: MeterReadings<T>| meter.right_peak, none)
        } else if slot == 19 {
            self.source
        } else if slot == 20 {
            reading_or(self.spectrum_frames, self.zero)
        } else if slot == 21 {
            self.fft_frames
        } else if slot == 22 {
            self.module_mask
        } else if slot == 23 {
            self.shown_capture(self.capture_a, self.capture_a.integrated)
        } else if slot == 24 {
            self.shown_capture(self.capture_b, self.capture_b.integrated)
        } else if slot == 25 {
            self.shown_capture(self.capture_a, self.capture_a.short_term)
        } else if slot == 26 {
            self.shown_capture(self.capture_b, self.capture_b.short_term)
        } else if slot == 27 {
            self.shown_peak(self.capture_a)
        } else if slot == 28 {
            self.shown_peak(self.capture_b)
        } else if slot == 29 {
            self.target
        } else if slot == 30 {
            of_needle(self.left_needle, |needle: NeedleReadings<T>| needle.level, none)
        } else {
            of_needle(self.right_needle, |needle: NeedleReadings<T>| needle.level, none)
        }
    }

    /// A column of the timeline.
    pub open spec fn column(self, series: TimelineSeries, index: int) -> T {
        match self.timeline {
            Some(timeline) => timeline.shown(series, index),
            None => self.unmeasured,
        }
    }

    /// A bar of the histogram.
    pub open spec fn bar(self, index: int) -> T {
        match self.histogram {
            Some(bars) => if index < bars@.len() {
                bars@[index]
            } else {
                self.zero
            },
            None => self.zero,
        }
    }

    /// Two zeros.
    pub open spec fn blank_pair(self) -> Pair<T> {
        Pair { first: self.zero, second: self.zero }
    }

    /// A point of the waveform.
    pub open spec fn wave(self, index: int) -> Pair<T> {
        match self.waveform {
            Some(buckets) => spread_item(buckets@, index, WAVE_POINTS as int, self.blank_pair()),
            None => self.blank_pair(),
        }
    }

    /// A point of the oscilloscope: the points stand from the left, and zeros
    /// fill the rest.
    pub open spec fn trace(self, index: int) -> Pair<T> {
        match self.oscilloscope {
            Some(samples) => if index < samples@.len() {
                samples@[index]
            } else {
                self.blank_pair()
            },
            None => self.blank_pair(),
        }
    }

    /// A point of the goniometer.
    pub open spec fn point(self, index: int) -> Pair<T> {
        match self.goniometer {
            Some(points) => spread_item(
                points@,
                index,
                GONIOMETER_POINTS as int,
                self.blank_pair(),
            ),
            None => self.blank_pair(),
        }
    }

    /// A band of the spectrum.
    pub open spec fn band(self, index: int) -> T {
        match self.spectrum {
            Some(bands) => spread_item(bands@, index, SPECTRUM_POINTS as int, self.zero),
            None => self.zero,
        }
    }

    /// What stands in a slot of the picture.
    pub open spec fn slot(self, slot: int) -> T {
        if slot < METRICS_END {
            self.metric(slot)
        } else if slot < TIMELINE_SHORT {
            self.column(TimelineSeries::Momentary, slot - TIMELINE_MOMENTARY)
        } else if slot < TIMELINE_INTEGRATED {
            self.column(TimelineSeries::ShortTerm, slot - TIMELINE_SHORT)
        } else if slot < HISTOGRAM {
            self.column(TimelineSeries::Integrated, slot - TIMELINE_INTEGRATED)
        } else if slot < WAVE_MIN {
            self.bar(slot - HISTOGRAM)
        } else if slot < WAVE_MAX {
            self.wave(slot - WAVE_MIN).first
        } else if slot < OSCILLOSCOPE {
            self.wave(slot - WAVE_MAX).second
        } else if slot < SPECTRUM {
            let pair = self.trace((slot - OSCILLOSCOPE) / 2);
            if (slot - OSCILLOSCOPE) % 2 == 0 {
                pair.first
            } else {
                pair.second
            }
        } else if slot < GONIOMETER {
            self.band(slot - SPECTRUM)
        } else {
            let pair = self.point((slot - GONIOMETER) / 2);
            if (slot - GONIOMETER) % 2 == 0 {
                pair.first
            } else {
                pair.second
            }
        }
    }

    /// A captured value, shown while loudness is on.
    fn show_capture(&self, capture: &Capture<T>, value: T) -> (shown: T)
        ensures
            shown == self.shown_capture(*capture, value),
    {
        if self.loudness {
            capture_value(capture.valid, value, self.unmeasured)
        } else {
            self.unmeasured
        }
    }

    /// A captured peak, shown while loudness and its overs are on.
    fn show_peak(&self, capture: &Capture<T>) -> (shown: T)
        ensures
            shown == self.shown_peak(*capture),
    {
        if self.overs {
            self.show_capture(capture, capture.true_peak)
        } else {
            self.unmeasured
        }
    }

    /// Writes the readings of the loudness meter.
    fn write_meter(&self, picture: &mut [T])
        requires
            old(picture)@.len() == SCOPE_SLOTS,
        ensures
            final(picture)@.len() == SCOPE_SLOTS,
            forall|i: int|
                0 <= i < SCOPE_SLOTS ==> #[trigger] final(picture)@[i] == (if i <= 2 || 9 <= i <= 12
                    || i == 17 || i == 18 {
                    self.metric(i)
                } else {
                    old(picture)@[i]
                }),
    {
        let none = self.unmeasured;
        let meter = match self.meter {
            Some(meter) => meter,
            None => MeterReadings {
                momentary: None,
                short_term: None,
                true_peak: None,
                psr: None,
                integrated: None,
                range: None,
                plr: None,
                left_peak: None,
                right_peak: None,
            },
        };
        picture[0] = option_value(meter.momentary, none);
        picture[1] = option_value(meter.short_term, none);
        picture[2] = if self.loudness && self.overs {
            option_value(meter.true_peak, none)
        } else {
            none
        };
        picture[9] = option_value(meter.psr, none);
        picture[10] = option_value(meter.integrated, none);
        picture[11] = option_value(meter.range, none);
        picture[12] = option_value(meter.plr, none);
        picture[17] = option_value(meter.left_peak, none);
        picture[18] = option_value(meter.right_peak, none);
    }

    /// Writes the readings of the stereo picture.
    fn write_stereo(&self, picture: &mut [T])
        requires
            old(picture)@.len() == SCOPE_SLOTS,
        ensures
            final(picture)@.len() == SCOPE_SLOTS,
            forall|i: int|
                0 <= i < SCOPE_SLOTS ==> #[trigger] final(picture)@[i] == (if 3 <= i <= 8 {
                    self.metric(i)
                } else {
                    old(picture)@[i]
                }),
    {
        let none = self.unmeasured;
        let stereo = match self.stereo {
            Some(stereo) => stereo,
            None => StereoReadings {
                correlation: None,
                width: None,
                left_rms: None,
                right_rms: None,
                mid_rms: None,
                side_rms: None,
            },
        };
        picture[3] = option_value(stereo.correlation, self.zero);
        picture[4] = option_value(stereo.width, self.zero);
        picture[5] = option_value(stereo.left_rms, none);
        picture[6] = option_value(stereo.right_rms, none);
        picture[7] = option_value(stereo.mid_rms, none);
        picture[8] = option_value(stereo.side_rms, none);
    }

    /// Writes the readings of the needles.
    fn write_needles(&self, picture: &mut [T])
        requires
            old(picture)@.len() == SCOPE_SLOTS,
        ensures
            final(picture)@.len() == SCOPE_SLOTS,
            forall|i: int|
                0 <= i < SCOPE_SLOTS ==> #[trigger] final(picture)@[i] == (if 13 <= i <= 16 || i
                    == 30 || i == 31 {
                    self.metric(i)
                } else {
                    old(picture)@[i]
                }),
    {
        let none = self.unmeasured;
        let left = match self.left_needle {
            Some(needle) => needle,
            None => NeedleReadings { level: None, calibrated: None, peak_hold: None },
        };
        let right = match self.right_needle {
            Some(needle) => needle,
            None => NeedleReadings { level: None, calibrated: None, peak_hold: None },
        };
        picture[13] = option_value(left.calibrated, none);
        picture[14] = option_value(right.calibrated, none);
        picture[15] = option_value(left.peak_hold, none);
        picture[16] = option_value(right.peak_hold, none);
        picture[30] = option_value(left.level, none);
        picture[31] = option_value(right.level, none);
    }

    /// Writes what is set and what was captured.
    fn write_settings(&self, picture: &mut [T])
        requires
            old(picture)@.len() == SCOPE_SLOTS,
        ensures
            final(picture)@.len() == SCOPE_SLOTS,
            forall|i: int|
                0 <= i < SCOPE_SLOTS ==> #[trigger] final(picture)@[i] == (if 19 <= i <= 29 {
                    self.metric(i)
                } else {
                    old(picture)@[i]
                }),
    {
        picture[19] = self.source;
        picture[20] = option_value(self.spectrum_frames, self.zero);
        picture[21] = self.fft_frames;
        picture[22] = self.module_mask;
        picture[23] = self.show_capture(&self.capture_a, self.capture_a.integrated);
        picture[24] = self.show_capture(&self.capture_b, self.capture_b.integrated);
        picture[25] = self.show_capture(&self.capture_a, self.capture_a.short_term);
        picture[26] = self.show_capture(&self.capture_b, self.capture_b.short_term);
        picture[27] = self.show_peak(&self.capture_a);
        picture[28] = self.show_peak(&self.capture_b);
        picture[29] = self.target;
    }

    /// Writes the three lines of the timeline.
    fn write_timeline(&self, picture: &mut [T])
        requires
            self.is_valid(),
            old(picture)@.len() == SCOPE_SLOTS,
        ensures
            final(picture)@.len() == SCOPE_SLOTS,
            forall|i: int|
                0 <= i < SCOPE_SLOTS ==> #[trigger] final(picture)@[i] == (if TIMELINE_MOMENTARY
                    <= i < HISTOGRAM {
                    self.slot(i)
                } else {
                    old(picture)@[i]
                }),
    {
        let ghost before = picture@;
        let mut index: usize = 0;
        while index < TIMELINE_POINTS
            invariant
                self.is_valid(),
                index <= TIMELINE_POINTS,
                picture@.len() == SCOPE_SLOTS,
                forall|i: int|
                    0 <= i < SCOPE_SLOTS ==> #[trigger] picture@[i] == (if TIMELINE_MOMENTARY <= i
                        < HISTOGRAM && (i - TIMELINE_MOMENTARY) % 64 < index {
                        self.slot(i)
                    } else {
                        before[i]
                    }),
            decreases TIMELINE_POINTS - index,
        {
            let (momentary, short_term, integrated) = match self.timeline {
                Some(timeline) => (
                    timeline.value(TimelineSeries::Momentary, index),
                    timeline.value(TimelineSeries::ShortTerm, index),
                    timeline.value(TimelineSeries::Integrated, index),
                ),
                None => (self.unmeasured, self.unmeasured, self.unmeasured),
            };
            picture[TIMELINE_MOMENTARY + index] = momentary;
            picture[TIMELINE_SHORT + index] = short_term;
            picture[TIMELINE_INTEGRATED + index] = integrated;
            index = index + 1;
        }
    }

    /// Writes the bars of the histogram.
    fn write_histogram(&self, picture: &mut [T])
        requires
            old(picture)@.len() == SCOPE_SLOTS,
        ensures
            final(picture)@.len() == SCOPE_SLOTS,
            forall|i: int|
                0 <= i < SCOPE_SLOTS ==> #[trigger] final(picture)@[i] == (if HISTOGRAM <= i
                    < WAVE_MIN {
                    self.slot(i)
                } else {
                    old(picture)@[i]
                }),
    {
        let ghost before = picture@;
        let mut index: usize = 0;
        while index < HISTOGRAM_POINTS
            invariant
                index <= HISTOGRAM_POINTS,
                picture@.len() == SCOPE_SLOTS,
                forall|i: int|
                    0 <= i < SCOPE_SLOTS ==> #[trigger] picture@[i] == (if HISTOGRAM <= i < HISTOGRAM
                        + index {
                        self.slot(i)
                    } else {
                        before[i]
                    }),
            decreases HISTOGRAM_POINTS - index,
        {
            let height = match self.histogram {
                Some(bars) => if index < bars.len() {
                    bars[index]
                } else {
                    self.zero
                },
                None => self.zero,
            };
            picture[HISTOGRAM + index] = height;
            index = index + 1;
        }
    }

    /// Writes both edges of the waveform.
    fn write_waveform(&self, picture: &mut [T])
        requires
            old(picture)@.len() == SCOPE_SLOTS,
        ensures
            final(picture)@.len() == SCOPE_SLOTS,
            forall|i: int|
                0 <= i < SCOPE_SLOTS ==> #[trigger] final(picture)@[i] == (if WAVE_MIN <= i
                    < OSCILLOSCOPE {
                    self.slot(i)
                } else {
                    old(picture)@[i]
                }),
    {
        let ghost before = picture@;
        let blank = Pair { first: self.zero, second: self.zero };
        let mut index: usize = 0;
        while index < WAVE_POINTS
            invariant
                index <= WAVE_POINTS,
                blank == self.blank_pair(),
                picture@.len() == SCOPE_SLOTS,
                forall|i: int|
                    0 <= i < SCOPE_SLOTS ==> #[trigger] picture@[i] == (if WAVE_MIN <= i < WAVE_MIN
                        + index || WAVE_MAX <= i < WAVE_MAX + index {
                        self.slot(i)
                    } else {
                        before[i]
                    }),
            decreases WAVE_POINTS - index,
        {
            let pair = match self.waveform {
                Some(buckets) => if buckets.len() > 0 {
                    buckets[spread_index(index, buckets.len(), WAVE_POINTS)]
                } else {
                    blank
                },
                None => blank,
            };
            assert(pair == self.wave(index as int));
            picture[WAVE_MIN + index] = pair.first;
            picture[WAVE_MAX + index] = pair.second;
            index = index + 1;
        }
    }

    /// Writes the oscilloscope.
    fn write_oscilloscope(&self, picture: &mut [T])
        requires
            old(picture)@.len() == SCOPE_SLOTS,
        ensures
            final(picture)@.len() == SCOPE_SLOTS,
            forall|i: int|
                0 <= i < SCOPE_SLOTS ==> #[trigger] final(picture)@[i] == (if OSCILLOSCOPE <= i
                    < SPECTRUM {
                    self.slot(i)
                } else {
                    old(picture)@[i]
                }),
    {
        let ghost before = picture@;
        let blank = Pair { first: self.zero, second: self.zero };
        let mut index: usize = 0;
        while index < OSCILLOSCOPE_POINTS
            invariant
                index <= OSCILLOSCOPE_POINTS,
                blank == self.blank_pair(),
                picture@.len() == SCOPE_SLOTS,
                forall|i: int|
                    0 <= i < SCOPE_SLOTS ==> #[trigger] picture@[i] == (if OSCILLOSCOPE <= i
                        < OSCILLOSCOPE + index * 2 {
                        self.slot(i)
                    } else {
                        before[i]
                    }),
            decreases OSCILLOSCOPE_POINTS - index,
        {
            let pair = match self.oscilloscope {
                Some(samples) => if index < samples.len() {
                    samples[index]
                } else {
                    blank
                },
                None => blank,
            };
            assert(pair == self.trace(index as int));
            picture[OSCILLOSCOPE + index * 2] = pair.first;
            picture[OSCILLOSCOPE + index * 2 + 1] = pair.second;
            index = index + 1;
        }
    }

    /// Writes the bands of the spectrum.
    fn write_spectrum(&self, picture: &mut [T])
        requires
            old(picture)@.len() == SCOPE_SLOTS,
        ensures
            final(picture)@.len() == SCOPE_SLOTS,
            forall|i: int|
                0 <= i < SCOPE_SLOTS ==> #[trigger] final(picture)@[i] == (if SPECTRUM <= i
                    < GONIOMETER {
                    self.slot(i)
                } else {
                    old(picture)@[i]
                }),
    {
        let ghost before = picture@;
        let mut index: usize = 0;
        while index < SPECTRUM_POINTS
            invariant
                index <= SPECTRUM_POINTS,
                picture@.len() == SCOPE_SLOTS,
                forall|i: int|
                    0 <= i < SCOPE_SLOTS ==> #[trigger] picture@[i] == (if SPECTRUM <= i < SPECTRUM
                        + index {
                        self.slot(i)
                    } else {
                        before[i]
                    }),
            decreases SPECTRUM_POINTS - index,
        {
            let height = match self.spectrum {
                Some(bands) => if bands.len() > 0 {
                    bands[spread_index(index, bands.len(), SPECTRUM_POINTS)]
                } else {
                    self.zero
                },
                None => self.zero,
            };
            assert(height == self.band(index as int));
            picture[SPECTRUM + index] = height;
            index = index + 1;
        }
    }

    /// Writes the points of the goniometer.
    fn write_goniometer(&self, picture: &mut [T])
        requires
            old(picture)@.len() == SCOPE_SLOTS,
        ensures
            final(picture)@.len() == SCOPE_SLOTS,
            forall|i: int|
                0 <= i < SCOPE_SLOTS ==> #[trigger] final(picture)@[i] == (if GONIOMETER <= i {
                    self.slot(i)
                } else {
                    old(picture)@[i]
                }),
    {
        let ghost before = picture@;
        let blank = Pair { first: self.zero, second: self.zero };
        let mut index: usize = 0;
        while index < GONIOMETER_POINTS
            invariant
                index <= GONIOMETER_POINTS,
                blank == self.blank_pair(),
                picture@.len() == SCOPE_SLOTS,
                forall|i: int|
                    0 <= i < SCOPE_SLOTS ==> #[trigger] picture@[i] == (if GONIOMETER <= i
                        < GONIOMETER + index * 2 {
                        self.slot(i)
                    } else {
                        before[i]
                    }),
            decreases GONIOMETER_POINTS - index,
        {
            let pair = match self.goniometer {
                Some(points) => if points.len() > 0 {
                    points[spread_index(index, points.len(), GONIOMETER_POINTS)]
                } else {
                    blank
                },
                None => blank,
            };
            assert(pair == self.point(index as int));
            picture[GONIOMETER + index * 2] = pair.first;
            picture[GONIOMETER + index * 2 + 1] = pair.second;
            index = index + 1;
        }
    }

    /// Writes the whole picture. Every slot is written; nothing of an earlier
    /// picture is left.
    pub fn publish_picture(&self, picture: &mut [T])
        requires
            self.is_valid(),
            old(picture)@.len() == SCOPE_SLOTS,
        ensures
            final(picture)@.len() == SCOPE_SLOTS,
            forall|i: int|
                0 <= i < SCOPE_SLOTS ==> #[trigger] final(picture)@[i] == self.slot(i),
    {
        self.write_meter(picture);
        self.write_stereo(picture);
        self.write_needles(picture);
        self.write_settings(picture);
        self.write_timeline(picture);
        self.write_histogram(picture);
        self.write_waveform(picture);
        self.write_oscilloscope(picture);
        self.write_spectrum(picture);
        self.write_goniometer(picture);
    }
}

/// The tallest of the bars, or one where all are empty.
pub open spec fn is_tallest(counts: Seq<u64>, tallest: u64) -> bool {
    &&& tallest >= 1
    &&& forall|i: int| 0 <= i < counts.len() ==> #[trigger] counts[i] <= tallest
    &&& tallest == 1 || counts.contains(tallest)
}

/// The count that a full bar of the histogram stands for.
pub fn tallest_bar(counts: &[u64]) -> (tallest: u64)
    ensures
        is_tallest(counts@, tallest),
{
    let mut tallest: u64 = 1;
    let mut index: usize = 0;
    while index < counts.len()
        invariant
            index <= counts@.len(),
            tallest >= 1,
            forall|i: int| 0 <= i < index ==> #[trigger] counts@[i] <= tallest,
            tallest == 1 || counts@.contains(tallest),
        decreases counts@.len() - index,
    {
        if counts[index] > tallest {
            tallest = counts[index];
            assert(counts@[index as int] == tallest);
        }
        index = index + 1;
    }
    tallest
}

/// Display points are spread evenly: each shows the last item whose share of the way is no
/// greater than its own. With as many items as points, each point shows its own item.
pub proof fn spreading_is_even(index: int, count: int, points: int)
    requires
        0 <= index < points,
        0 < count,
    ensures
        spread(index, count, points) * points <= index * count < (spread(index, count, points) + 1)
            * points,
        count == points ==> spread(index, count, points) == index,
{
    let item = spread(index, count, points);
    vstd::arithmetic::div_mod::lemma_fundamental_div_mod(index * count, points);
    vstd::arithmetic::div_mod::lemma_mod_bound(index * count, points);
    assert(points * item == item * points) by (nonlinear_arith);
    assert((item + 1) * points == item * points + points) by (nonlinear_arith);
    if count == points {
        vstd::arithmetic::div_mod::lemma_div_by_multiple(index, points);
    }
}

impl<'a, T: Copy> PictureSource<'a, T> {
    /// The readings of the loudness meter stand in their slots, and so do the sample
    /// peaks; true peaks stand in theirs while they are shown.
    pub proof fn meter_readings_stand_in_their_slots(self, meter: MeterReadings<T>)
        requires
            self.meter == Some(meter),
        ensures
            meter.momentary matches Some(value) ==> self.slot(0) == value,
            meter.short_term matches Some(value) ==> self.slot(1) == value,
            self.loudness && self.overs ==> (meter.true_peak matches Some(value) ==> self.slot(2)
                == value),
            !self.loudness || !self.overs ==> self.slot(2) == self.unmeasured,
            meter.psr matches Some(value) ==> self.slot(9) == value,
            meter.integrated matches Some(value) ==> self.slot(10) == value,
            meter.range matches Some(value) ==> self.slot(11) == value,
            meter.plr matches Some(value) ==> self.slot(12) == value,
            meter.left_peak matches Some(value) ==> self.slot(17) == value,
            meter.right_peak matches Some(value) ==> self.slot(18) == value,
    {
    }

    /// What is not measured is not shown as if it were: without a meter, a stereo picture
    /// or needles, their slots hold what stands for nothing.
    pub proof fn missing_readings_are_unmeasured(self)
        ensures
            self.meter is None ==> self.slot(0) == self.unmeasured && self.slot(1)
                == self.unmeasured && self.slot(2) == self.unmeasured && self.slot(9)
                == self.unmeasured && self.slot(10) == self.unmeasured && self.slot(11)
                == self.unmeasured && self.slot(12) == self.unmeasured && self.slot(17)
                == self.unmeasured && self.slot(18) == self.unmeasured,
            self.stereo is None ==> self.slot(3) == self.zero && self.slot(4) == self.zero
                && self.slot(5) == self.unmeasured && self.slot(6) == self.unmeasured && self.slot(
                7,
            ) == self.unmeasured && self.slot(8) == self.unmeasured,
            self.left_needle is None ==> self.slot(13) == self.unmeasured && self.slot(15)
                == self.unmeasured && self.slot(30) == self.unmeasured,
            self.right_needle is None ==> self.slot(14) == self.unmeasured && self.slot(16)
                == self.unmeasured && self.slot(31) == self.unmeasured,
    {
    }

    /// The readings of the stereo picture and of both needles stand in their slots, each
    /// channel on its side.
    pub proof fn stereo_readings_stand_in_their_slots(
        self,
        stereo: StereoReadings<T>,
        left: NeedleReadings<T>,
        right: NeedleReadings<T>,
    )
        requires
            self.stereo == Some(stereo),
            self.left_needle == Some(left),
            self.right_needle == Some(right),
        ensures
            stereo.correlation matches Some(value) ==> self.slot(3) == value,
            stereo.width matches Some(value) ==> self.slot(4) == value,
            stereo.left_rms matches Some(value) ==> self.slot(5) == value,
            stereo.right_rms matches Some(value) ==> self.slot(6) == value,
            stereo.mid_rms matches Some(value) ==> self.slot(7) == value,
            stereo.side_rms matches Some(value) ==> self.slot(8) == value,
            left.calibrated matches Some(value) ==> self.slot(13) == value,
            right.calibrated matches Some(value) ==> self.slot(14) == value,
            left.peak_hold matches Some(value) ==> self.slot(15) == value,
            right.peak_hold matches Some(value) ==> self.slot(16) == value,
            left.level matches Some(value) ==> self.slot(30) == value,
            right.level matches Some(value) ==> self.slot(31) == value,
    {
    }

    /// What is set and what was captured stands in its slots. A capture is shown while
    /// loudness is on, its true peak while these are shown, and never before it is taken.
    pub proof fn settings_and_captures_stand_in_their_slots(self)
        ensures
            self.slot(19) == self.source,
            self.spectrum_frames matches Some(frames) ==> self.slot(20) == frames,
            self.spectrum_frames is None ==> self.slot(20) == self.zero,
            self.slot(21) == self.fft_frames,
            self.slot(22) == self.module_mask,
            self.slot(29) == self.target,
            self.loudness && self.capture_a.valid ==> self.slot(23) == self.capture_a.integrated
                && self.slot(25) == self.capture_a.short_term,
            self.loudness && self.capture_b.valid ==> self.slot(24) == self.capture_b.integrated
                && self.slot(26) == self.capture_b.short_term,
            self.loudness && self.overs && self.capture_a.valid ==> self.slot(27)
                == self.capture_a.true_peak,
            self.loudness && self.overs && self.capture_b.valid ==> self.slot(28)
                == self.capture_b.true_peak,
            !self.loudness || !self.capture_a.valid ==> self.slot(23) == self.unmeasured
                && self.slot(25) == self.unmeasured && self.slot(27) == self.unmeasured,
            !self.loudness || !self.capture_b.valid ==> self.slot(24) == self.unmeasured
                && self.slot(26) == self.unmeasured && self.slot(28) == self.unmeasured,
            !self.overs ==> self.slot(27) == self.unmeasured && self.slot(28) == self.unmeasured,
    {
    }

    /// Lines of the timeline stand one behind the other, oldest column first, and each
    /// column shows the three readings of one moment.
    pub proof fn columns_stand_in_their_slots(self, timeline: &'a LoudnessTimeline<T>, index: int)
        requires
            self.timeline == Some(timeline),
            0 <= index < 64,
        ensures
            index < timeline@.len() ==> self.slot(32 + index) == timeline@[index].momentary,
            index < timeline@.len() ==> self.slot(96 + index) == timeline@[index].short_term,
            index < timeline@.len() ==> self.slot(160 + index) == timeline@[index].integrated,
            index >= timeline@.len() ==> self.slot(32 + index) == timeline.sentinel() && self.slot(
                96 + index,
            ) == timeline.sentinel() && self.slot(160 + index) == timeline.sentinel(),
    {
    }

    /// Bars of the histogram and points of the oscilloscope stand in order from the left,
    /// left and right of a point side by side; zeros fill the rest.
    pub proof fn bars_and_traces_stand_in_order(
        self,
        bars: &'a [T],
        samples: &'a [Pair<T>],
        index: int,
    )
        requires
            self.histogram == Some(bars),
            self.oscilloscope == Some(samples),
            0 <= index < 128,
        ensures
            index < 64 && index < bars@.len() ==> self.slot(224 + index) == bars@[index],
            index < 64 && index >= bars@.len() ==> self.slot(224 + index) == self.zero,
            index < samples@.len() ==> self.slot(416 + 2 * index) == samples@[index].first
                && self.slot(416 + 2 * index + 1) == samples@[index].second,
            index >= samples@.len() ==> self.slot(416 + 2 * index) == self.zero && self.slot(
                416 + 2 * index + 1,
            ) == self.zero,
    {
        assert((2 * index) / 2 == index && (2 * index) % 2 == 0);
        assert((2 * index + 1) / 2 == index && (2 * index + 1) % 2 == 1);
    }

    /// A point of the waveform shows both edges of one bucket, a point of the goniometer
    /// both coordinates of one point, and a bar of the spectrum one band: the first point
    /// the first of them, in order, and with as many of them as points each its own.
    pub proof fn spread_points_show_one_item_each(
        self,
        buckets: &'a [Pair<T>],
        points: &'a [Pair<T>],
        bands: &'a [T],
        index: int,
    )
        requires
            self.waveform == Some(buckets),
            self.goniometer == Some(points),
            self.spectrum == Some(bands),
            0 <= index < 96,
        ensures
            index < 64 && buckets@.len() > 0 ==> exists|k: int|
                0 <= k < buckets@.len() && k * 64 <= index * buckets@.len() < (k + 1) * 64
                    && self.slot(288 + index) == (#[trigger] buckets@[k]).first && self.slot(
                    352 + index,
                ) == buckets@[k].second,
            index < 64 && points@.len() > 0 ==> exists|k: int|
                0 <= k < points@.len() && k * 64 <= index * points@.len() < (k + 1) * 64
                    && self.slot(768 + 2 * index) == (#[trigger] points@[k]).first && self.slot(
                    768 + 2 * index + 1,
                ) == points@[k].second,
            bands@.len() > 0 ==> exists|k: int|
                0 <= k < bands@.len() && k * 96 <= index * bands@.len() < (k + 1) * 96 && self.slot(
                    672 + index,
                ) == #[trigger] bands@[k],
            index < 64 && buckets@.len() == 64 ==> self.slot(288 + index) == buckets@[index].first
                && self.slot(352 + index) == buckets@[index].second,
            index < 64 && points@.len() == 64 ==> self.slot(768 + 2 * index) == points@[index].first
                && self.slot(768 + 2 * index + 1) == points@[index].second,
            bands@.len() == 96 ==> self.slot(672 + index) == bands@[index],
    {
        assert((2 * index) / 2 == index && (2 * index) % 2 == 0);
        assert((2 * index + 1) / 2 == index && (2 * index + 1) % 2 == 1);
        if index < 64 && buckets@.len() > 0 {
            let k = spread(index, buckets@.len() as int, 64);
            spreading_is_even(index, buckets@.len() as int, 64);
            spread_is_inside(index, buckets@.len() as int, 64);
            assert(self.slot(288 + index) == buckets@[k].first);
        }
        if index < 64 && points@.len() > 0 {
            let k = spread(index, points@.len() as int, 64);
            spreading_is_even(index, points@.len() as int, 64);
            spread_is_inside(index, points@.len() as int, 64);
            assert(self.slot(768 + 2 * index) == points@[k].first);
        }
        if bands@.len() > 0 {
            let k = spread(index, bands@.len() as int, 96);
            spreading_is_even(index, bands@.len() as int, 96);
            spread_is_inside(index, bands@.len() as int, 96);
            assert(self.slot(672 + index) == bands@[k]);
        }
    }
}

} // verus!
