//! The slot map: where each number of a picture stands.
//!
//! Everything the page draws comes from one fixed row of floats. The page does
//! not infer, allocate, or resample; this map is what both sides agree on.
use vstd::prelude::*;

verus! {

/// How many slots a picture has.
pub const SCOPE_SLOTS: usize = 896;

/// Where the single readings begin.
pub const METRICS: usize = 0;

/// Where the single readings end.
pub const METRICS_END: usize = 32;

/// How many points each loudness timeline has.
pub const TIMELINE_POINTS: usize = 64;

/// Where the momentary loudness timeline begins.
pub const TIMELINE_MOMENTARY: usize = 32;

/// Where the short-term loudness timeline begins.
pub const TIMELINE_SHORT: usize = 96;

/// Where the integrated loudness timeline begins.
pub const TIMELINE_INTEGRATED: usize = 160;

/// Where the loudness histogram begins.
pub const HISTOGRAM: usize = 224;

/// How many bars the loudness histogram has.
pub const HISTOGRAM_POINTS: usize = 64;

/// Where the waveform's lower edge begins.
pub const WAVE_MIN: usize = 288;

/// Where the waveform's upper edge begins.
pub const WAVE_MAX: usize = 352;

/// How many points the waveform has.
pub const WAVE_POINTS: usize = 64;

/// Where the oscilloscope begins: left and right in turn.
pub const OSCILLOSCOPE: usize = 416;

/// How many points the oscilloscope has.
pub const OSCILLOSCOPE_POINTS: usize = 128;

/// Where the spectrum begins.
pub const SPECTRUM: usize = 672;

/// How many bands the spectrum has.
pub const SPECTRUM_POINTS: usize = 96;

/// Where the goniometer begins: side and mid in turn.
pub const GONIOMETER: usize = 768;

/// How many points the goniometer has.
pub const GONIOMETER_POINTS: usize = 64;

/// The level that stands for "nothing measured yet", in dB. It lies below
/// everything that a meter can read.
pub const UNMEASURED_DB: i32 = -200;

/// The level that a spectrum slot of zero stands for, in dBFS.
pub const SPECTRUM_SLOT_FLOOR_DB: i32 = -120;

/// How many dB a spectrum slot spans from zero to one.
pub const SPECTRUM_SLOT_RANGE_DB: i32 = 120;

/// The blocks of the map follow each other without a gap and fill the row.
pub proof fn slot_map_has_no_gap()
    ensures
        METRICS == 0,
        METRICS_END == TIMELINE_MOMENTARY,
        TIMELINE_MOMENTARY + TIMELINE_POINTS == TIMELINE_SHORT,
        TIMELINE_SHORT + TIMELINE_POINTS == TIMELINE_INTEGRATED,
        TIMELINE_INTEGRATED + TIMELINE_POINTS == HISTOGRAM,
        HISTOGRAM + HISTOGRAM_POINTS == WAVE_MIN,
        WAVE_MIN + WAVE_POINTS == WAVE_MAX,
        WAVE_MAX + WAVE_POINTS == OSCILLOSCOPE,
        OSCILLOSCOPE + OSCILLOSCOPE_POINTS * 2 == SPECTRUM,
        SPECTRUM + SPECTRUM_POINTS == GONIOMETER,
        GONIOMETER + GONIOMETER_POINTS * 2 == SCOPE_SLOTS,
{
}

/// What the host shows: a page and its size.
#[derive(Clone, Copy, Debug, PartialEq, Eq)]
pub struct EditorPage {
    pub width: u32,
    pub height: u32,
    /// The smallest size that the host may give the page.
    pub minimum: Option<(u32, u32)>,
}

/// The size of the editor. Nine instruments plus dividers still need readable
/// labels and data.
pub fn page() -> (page: EditorPage)
    ensures
        page.width == 1_440,
        page.height == 440,
        page.minimum == Some((960u32, 240u32)),
{
    EditorPage { width: 1_440, height: 440, minimum: Some((960, 240)) }
}

} // verus!
