//! Which parts of a picture are shown: what the switches ask for and what there
//! is to show.
use crate::editor::slots::{
    GONIOMETER, HISTOGRAM, METRICS_END, OSCILLOSCOPE, SCOPE_SLOTS, SPECTRUM, TIMELINE_MOMENTARY,
    WAVE_MIN,
};
use crate::plugin::modules::{
    MODULE_LOUDNESS, MODULE_OSCILLOSCOPE, MODULE_SPECTROGRAM, MODULE_SPECTRUM, MODULE_STEREO,
    MODULE_VU, MODULE_WAVEFORM,
};
use crate::plugin::picture::PictureSource;
use crate::settings::runtime::RuntimeSettings;
use vstd::prelude::*;

verus! {

/// The analyzers that there are.
#[derive(Clone, Copy, Debug, PartialEq, Eq, Structural)]
pub struct Analyzers {
    pub meter: bool,
    pub vu: bool,
    pub display: bool,
    /// The active one of the spectrum banks.
    pub bank: bool,
}

/// Whether each part of a picture is shown.
#[derive(Clone, Copy, Debug, PartialEq, Eq, Structural)]
pub struct Views {
    /// The captured readings.
    pub loudness: bool,
    /// What the loudness meter reads.
    pub meter: bool,
    /// True peaks, measured and captured.
    pub overs: bool,
    pub timeline: bool,
    pub histogram: bool,
    pub needles: bool,
    pub waveform: bool,
    pub oscilloscope: bool,
    /// The stereo readings and the goniometer.
    pub stereo: bool,
    /// The bands and the count of spectra.
    pub spectrum: bool,
}

/// The parts that are shown.
pub open spec fn views_of(runtime: RuntimeSettings, analyzers: Analyzers) -> Views {
    let enabled = runtime.enabled@;
    let loudness = enabled[MODULE_LOUDNESS as int];
    Views {
        loudness,
        meter: loudness && analyzers.meter,
        overs: loudness && runtime.loudness_overs,
        timeline: loudness && runtime.loudness_timeline,
        histogram: loudness && runtime.loudness_histogram && analyzers.meter,
        needles: enabled[MODULE_VU as int] && analyzers.vu,
        waveform: enabled[MODULE_WAVEFORM as int] && analyzers.display,
        oscilloscope: enabled[MODULE_OSCILLOSCOPE as int] && analyzers.display,
        stereo: enabled[MODULE_STEREO as int] && analyzers.display,
        spectrum: (enabled[MODULE_SPECTRUM as int] || enabled[MODULE_SPECTROGRAM as int])
            && analyzers.bank,
    }
}

/// The parts that are shown. Loudness switches its own parts; a part that an
/// analyzer measures is shown only where there is that analyzer; either spectrum
/// module shows the spectrum.
pub fn views(runtime: &RuntimeSettings, analyzers: Analyzers) -> (views: Views)
    ensures
        views == views_of(*runtime, analyzers),
        ({
            let enabled = runtime.enabled@;
            let loudness = enabled[MODULE_LOUDNESS as int];
            &&& views.loudness == loudness
            &&& views.meter == (loudness && analyzers.meter)
            &&& views.overs == (loudness && runtime.loudness_overs)
            &&& views.timeline == (loudness && runtime.loudness_timeline)
            &&& views.histogram == (loudness && runtime.loudness_histogram && analyzers.meter)
            &&& views.needles == (enabled[MODULE_VU as int] && analyzers.vu)
            &&& views.waveform == (enabled[MODULE_WAVEFORM as int] && analyzers.display)
            &&& views.oscilloscope == (enabled[MODULE_OSCILLOSCOPE as int] && analyzers.display)
            &&& views.stereo == (enabled[MODULE_STEREO as int] && analyzers.display)
            &&& views.spectrum == ((enabled[MODULE_SPECTRUM as int]
                || enabled[MODULE_SPECTROGRAM as int]) && analyzers.bank)
        }),
{
    let loudness = runtime.enabled[MODULE_LOUDNESS];
    Views {
        loudness,
        meter: loudness && analyzers.meter,
        overs: loudness && runtime.loudness_overs,
        timeline: loudness && runtime.loudness_timeline,
        histogram: loudness && runtime.loudness_histogram && analyzers.meter,
        needles: runtime.enabled[MODULE_VU] && analyzers.vu,
        waveform: runtime.enabled[MODULE_WAVEFORM] && analyzers.display,
        oscilloscope: runtime.enabled[MODULE_OSCILLOSCOPE] && analyzers.display,
        stereo: runtime.enabled[MODULE_STEREO] && analyzers.display,
        spectrum: (runtime.enabled[MODULE_SPECTRUM] || runtime.enabled[MODULE_SPECTROGRAM])
            && analyzers.bank,
    }
}

/// A part, where it is shown.
pub open spec fn part<V>(shown: bool, value: Option<V>) -> Option<V> {
    if shown {
        value
    } else {
        None
    }
}

/// A part, where it is shown.
fn keep<V>(shown: bool, value: Option<V>) -> (kept: Option<V>)
    ensures
        kept == part(shown, value),
{
    if shown {
        value
    } else {
        None
    }
}

impl<'a, T: Copy> PictureSource<'a, T> {
    /// The same picture with nothing but the parts that are shown.
    pub open spec fn limited(self, views: Views) -> Self {
        PictureSource {
            meter: part(views.meter, self.meter),
            overs: views.overs,
            stereo: part(views.stereo, self.stereo),
            left_needle: part(views.needles, self.left_needle),
            right_needle: part(views.needles, self.right_needle),
            spectrum_frames: part(views.spectrum, self.spectrum_frames),
            loudness: views.loudness,
            timeline: part(views.timeline, self.timeline),
            histogram: part(views.histogram, self.histogram),
            waveform: part(views.waveform, self.waveform),
            oscilloscope: part(views.oscilloscope, self.oscilloscope),
            goniometer: part(views.stereo, self.goniometer),
            spectrum: part(views.spectrum, self.spectrum),
            ..self
        }
    }

    /// Leaves out every part that is not shown.
    pub fn limit_to(self, views: Views) -> (limited: Self)
        ensures
            limited == self.limited(views),
            self.is_valid() ==> limited.is_valid(),
    {
        PictureSource {
            meter: keep(views.meter, self.meter),
            overs: views.overs,
            stereo: keep(views.stereo, self.stereo),
            left_needle: keep(views.needles, self.left_needle),
            right_needle: keep(views.needles, self.right_needle),
            spectrum_frames: keep(views.spectrum, self.spectrum_frames),
            loudness: views.loudness,
            timeline: keep(views.timeline, self.timeline),
            histogram: keep(views.histogram, self.histogram),
            waveform: keep(views.waveform, self.waveform),
            oscilloscope: keep(views.oscilloscope, self.oscilloscope),
            goniometer: keep(views.stereo, self.goniometer),
            spectrum: keep(views.spectrum, self.spectrum),
            ..self
        }
    }

    /// What is not shown leaves its slots blank, and what is shown leaves them
    /// as they would be with everything shown.
    pub proof fn hidden_parts_are_blank(self, views: Views, slot: int)
        requires
            METRICS_END <= slot < SCOPE_SLOTS,
        ensures
            self.limited(views).slot(slot) == (if slot < HISTOGRAM {
                if views.timeline {
                    self.slot(slot)
                } else {
                    self.unmeasured
                }
            } else {
                let shown = if slot < WAVE_MIN {
                    views.histogram
                } else if slot < OSCILLOSCOPE {
                    views.waveform
                } else if slot < SPECTRUM {
                    views.oscilloscope
                } else if slot < GONIOMETER {
                    views.spectrum
                } else {
                    views.stereo
                };
                if shown {
                    self.slot(slot)
                } else {
                    self.zero
                }
            }),
    {
        assert(METRICS_END == TIMELINE_MOMENTARY);
    }
}

/// A module that is off shows nothing of its own, and no module shows what no analyzer
/// measures. Where everything is on and there is everything, everything is shown.
pub proof fn parts_are_shown_for_their_modules(runtime: RuntimeSettings, analyzers: Analyzers)
    ensures
        ({
            let views = views_of(runtime, analyzers);
            let on = runtime.enabled@;
            &&& !on[0] ==> !views.loudness && !views.meter && !views.overs && !views.timeline
                && !views.histogram
            &&& !on[1] && !on[2] ==> !views.spectrum
            &&& !on[3] ==> !views.waveform
            &&& !on[4] ==> !views.stereo
            &&& !on[7] ==> !views.needles
            &&& !on[8] ==> !views.oscilloscope
            &&& !analyzers.meter ==> !views.meter && !views.histogram
            &&& !analyzers.vu ==> !views.needles
            &&& !analyzers.display ==> !views.waveform && !views.oscilloscope && !views.stereo
            &&& !analyzers.bank ==> !views.spectrum
            &&& on[0] ==> views.loudness && views.overs == runtime.loudness_overs && views.timeline
                == runtime.loudness_timeline
            &&& on[0] && analyzers.meter ==> views.meter && views.histogram
                == runtime.loudness_histogram
            &&& (on[1] || on[2]) && analyzers.bank ==> views.spectrum
            &&& on[3] && analyzers.display ==> views.waveform
            &&& on[4] && analyzers.display ==> views.stereo
            &&& on[7] && analyzers.vu ==> views.needles
            &&& on[8] && analyzers.display ==> views.oscilloscope
        }),
{
}

} // verus!
