//! Which settings differ from the ones that are in force, and what of the
//! analysis that invalidates.
use crate::meter::vu;
use crate::plugin::modules::{
    grouping, module_scope_work, module_shows, needle, spectrum_scale, vu_mode, MODULE_SPECTROGRAM,
    MODULE_SPECTRUM,
};
use crate::scope::config as analysis;
use crate::scope::work::ScopeWork;
use crate::settings::options::{AnalysisSource, FftSize};
use crate::settings::runtime::{RuntimeSettings, MODULE_COUNT};
use vstd::prelude::*;

verus! {

/// The settings that are in force.
#[derive(Clone, Copy, Debug)]
pub struct Applied {
    /// Whether any settings have been put in force since activation.
    pub configured: bool,
    pub modules: [bool; 9],
    pub source: AnalysisSource,
    pub trim_db: i8,
    pub fft: usize,
    pub scale: analysis::SpectrumScale,
    pub smoothing: u8,
    pub vu_mode: vu::VuMode,
    pub vu_calibration: i8,
    pub timeline: bool,
    pub histogram: bool,
}

/// Which settings have to be put in force.
#[derive(Clone, Copy, Debug, PartialEq, Eq, Structural)]
pub struct Changes {
    /// What is measured: everything measured so far is about something else.
    pub analysis: bool,
    pub fft: bool,
    pub scale: bool,
    pub smoothing: bool,
    pub vu_mode: bool,
    pub vu_calibration: bool,
    /// The timeline starts anew.
    pub timeline: bool,
    /// The histogram comes back and starts a clean distribution.
    pub histogram: bool,
}

/// Whether a module that was off is on now.
pub open spec fn is_reenabled(applied: Applied, runtime: RuntimeSettings, module: int) -> bool {
    runtime.enabled@[module] && !applied.modules@[module]
}

/// Whether a module that was off and is on now shows a task.
pub open spec fn reenabled_shows(applied: Applied, runtime: RuntimeSettings, task: u8, count: int) -> bool {
    exists|module: int|
        0 <= module < count && #[trigger] is_reenabled(applied, runtime, module) && module_shows(
            module,
            task,
        )
}

impl Applied {
    /// Nothing is in force yet.
    pub fn none() -> (applied: Self)
        ensures
            !applied.configured,
            applied.fft == 1,
            forall|module: int| 0 <= module < 9 ==> !#[trigger] applied.modules@[module],
    {
        Applied {
            configured: false,
            modules: [false, false, false, false, false, false, false, false, false],
            source: AnalysisSource::Stereo,
            trim_db: 0,
            fft: 1,
            scale: analysis::SpectrumScale::Log,
            smoothing: 90,
            vu_mode: vu::VuMode::Vu,
            vu_calibration: -18,
            timeline: true,
            histogram: true,
        }
    }

    /// What is in force once settings have been applied.
    pub open spec fn from(runtime: RuntimeSettings) -> Self {
        Applied {
            configured: true,
            modules: runtime.enabled,
            source: runtime.analysis_source,
            trim_db: runtime.trim_db,
            fft: runtime.fft_size.position() as usize,
            scale: grouping(runtime.spectrum_scale),
            smoothing: runtime.spectrum_smoothing,
            vu_mode: needle(runtime.vu_mode),
            vu_calibration: runtime.vu_calibration,
            timeline: runtime.loudness_timeline,
            histogram: runtime.loudness_histogram,
        }
    }

    /// What settings change of what is in force. Another FFT size brings
    /// another bank, which needs its scale and its smoothing set again.
    pub open spec fn changes_to(self, runtime: RuntimeSettings) -> Changes {
        let wanted = Applied::from(runtime);
        let fft = !self.configured || self.fft != wanted.fft;
        Changes {
            analysis: !self.configured || self.source != wanted.source || self.trim_db
                != wanted.trim_db,
            fft,
            scale: fft || self.scale != wanted.scale,
            smoothing: fft || self.smoothing != wanted.smoothing,
            vu_mode: !self.configured || self.vu_mode != wanted.vu_mode,
            vu_calibration: !self.configured || self.vu_calibration != wanted.vu_calibration,
            timeline: !self.configured || self.timeline != wanted.timeline,
            histogram: self.configured && !self.histogram && wanted.histogram,
        }
    }

    /// What settings change of what is in force.
    pub fn compare(&self, runtime: &RuntimeSettings) -> (changes: Changes)
        ensures
            changes == self.changes_to(*runtime),
    {
        let fft = !self.configured || self.fft != runtime.fft_index();
        Changes {
            analysis: !self.configured || self.source != runtime.analysis_source || self.trim_db
                != runtime.trim_db,
            fft,
            scale: fft || self.scale != spectrum_scale(runtime.spectrum_scale),
            smoothing: fft || self.smoothing != runtime.spectrum_smoothing,
            vu_mode: !self.configured || self.vu_mode != vu_mode(runtime.vu_mode),
            vu_calibration: !self.configured || self.vu_calibration != runtime.vu_calibration,
            timeline: !self.configured || self.timeline != runtime.loudness_timeline,
            histogram: self.configured && !self.histogram && runtime.loudness_histogram,
        }
    }

    /// Puts settings in force.
    pub fn apply(&mut self, runtime: &RuntimeSettings)
        ensures
            *final(self) == Applied::from(*runtime),
    {
        self.configured = true;
        self.modules = runtime.enabled;
        self.source = runtime.analysis_source;
        self.trim_db = runtime.trim_db;
        self.fft = runtime.fft_index();
        self.scale = spectrum_scale(runtime.spectrum_scale);
        self.smoothing = runtime.spectrum_smoothing;
        self.vu_mode = vu_mode(runtime.vu_mode);
        self.vu_calibration = runtime.vu_calibration;
        self.timeline = runtime.loudness_timeline;
        self.histogram = runtime.loudness_histogram;
    }

    /// Whether a module that was off is on now.
    pub fn reenabled(&self, runtime: &RuntimeSettings, module: usize) -> (reenabled: bool)
        requires
            module < MODULE_COUNT,
        ensures
            reenabled == is_reenabled(*self, *runtime, module as int),
    {
        runtime.enabled[module] && !self.modules[module]
    }

    /// The display tasks of the modules that come back: their old history must
    /// not masquerade as fresh analysis.
    pub fn reenabled_display_work(&self, runtime: &RuntimeSettings) -> (work: ScopeWork)
        ensures
            forall|task: u8|
                task < 8 ==> #[trigger] work.has(task) == (task != 4 && reenabled_shows(
                    *self,
                    *runtime,
                    task,
                    MODULE_COUNT as int,
                )),
    {
        let mut work = ScopeWork::none();
        let mut module: usize = 0;
        while module < MODULE_COUNT
            invariant
                module <= MODULE_COUNT,
                forall|task: u8|
                    task < 8 ==> #[trigger] work.has(task) == (task != 4 && reenabled_shows(
                        *self,
                        *runtime,
                        task,
                        module as int,
                    )),
            decreases MODULE_COUNT - module,
        {
            let ghost before = work;
            let reenabled = self.reenabled(runtime, module);
            if reenabled {
                if let Some(needed) = module_scope_work(module) {
                    work = work.with(needed.without(ScopeWork::spectrum()));
                }
            }
            proof {
                assert forall|task: u8| task < 8 implies #[trigger] work.has(task) == (task != 4
                    && reenabled_shows(*self, *runtime, task, module + 1)) by {
                    assert(before.has(task) == (task != 4 && reenabled_shows(
                        *self,
                        *runtime,
                        task,
                        module as int,
                    )));
                    assert(reenabled_shows(*self, *runtime, task, module + 1) == (reenabled_shows(
                        *self,
                        *runtime,
                        task,
                        module as int,
                    ) || (is_reenabled(*self, *runtime, module as int) && module_shows(
                        module as int,
                        task,
                    )))) by {
                        if is_reenabled(*self, *runtime, module as int) && module_shows(
                            module as int,
                            task,
                        ) {
                        } else if reenabled_shows(*self, *runtime, task, module as int) {
                            let witness = choose|m: int|
                                0 <= m < module && #[trigger] is_reenabled(*self, *runtime, m)
                                    && module_shows(m, task);
                            assert(is_reenabled(*self, *runtime, witness));
                        }
                    }
                }
            }
            module = module + 1;
        }
        work
    }

    /// Whether a module that shows a spectrum comes back.
    pub fn reenabled_spectrum(&self, runtime: &RuntimeSettings) -> (spectrum: bool)
        ensures
            spectrum == (is_reenabled(*self, *runtime, MODULE_SPECTRUM as int) || is_reenabled(
                *self,
                *runtime,
                MODULE_SPECTROGRAM as int,
            )),
    {
        self.reenabled(runtime, MODULE_SPECTRUM) || self.reenabled(runtime, MODULE_SPECTROGRAM)
    }
}

/// Settings that are in force change nothing when they come again.
pub proof fn settled_settings_change_nothing(runtime: RuntimeSettings)
    ensures
        Applied::from(runtime).changes_to(runtime) == (Changes {
            analysis: false,
            fft: false,
            scale: false,
            smoothing: false,
            vu_mode: false,
            vu_calibration: false,
            timeline: false,
            histogram: false,
        }),
        forall|module: int| !#[trigger] is_reenabled(Applied::from(runtime), runtime, module),
{
}

/// Another FFT size concerns the spectrum alone: nothing else that is measured
/// or kept is touched.
pub proof fn fft_size_concerns_the_spectrum_alone(runtime: RuntimeSettings, fft_size: FftSize)
    ensures
        ({
            let changed = RuntimeSettings { fft_size, ..runtime };
            let another = fft_size != runtime.fft_size;
            &&& Applied::from(runtime).changes_to(changed) == (Changes {
                analysis: false,
                fft: another,
                scale: another,
                smoothing: another,
                vu_mode: false,
                vu_calibration: false,
                timeline: false,
                histogram: false,
            })
            &&& forall|module: int| !#[trigger] is_reenabled(
                Applied::from(runtime),
                changed,
                module,
            )
        }),
{
}

/// Each change is told by its own setting alone. Another FFT size brings another bank,
/// whose scale and smoothing are set again; the histogram starts anew when it comes
/// back and not when it goes.
pub proof fn each_change_is_told_by_its_setting(before: RuntimeSettings, after: RuntimeSettings)
    ensures
        ({
            let changes = Applied::from(before).changes_to(after);
            &&& changes.analysis <==> before.analysis_source != after.analysis_source
                || before.trim_db != after.trim_db
            &&& changes.fft <==> before.fft_size != after.fft_size
            &&& changes.scale <==> before.fft_size != after.fft_size || before.spectrum_scale
                != after.spectrum_scale
            &&& changes.smoothing <==> before.fft_size != after.fft_size
                || before.spectrum_smoothing != after.spectrum_smoothing
            &&& changes.vu_mode <==> before.vu_mode != after.vu_mode
            &&& changes.vu_calibration <==> before.vu_calibration != after.vu_calibration
            &&& changes.timeline <==> before.loudness_timeline != after.loudness_timeline
            &&& changes.histogram <==> !before.loudness_histogram && after.loudness_histogram
            &&& forall|module: int|
                0 <= module < 9 ==> (#[trigger] is_reenabled(Applied::from(before), after, module)
                    <==> !before.enabled@[module] && after.enabled@[module])
        }),
{
}

/// The first settings are put in force as a whole; there is no distribution yet that
/// could start anew.
pub proof fn first_settings_change_everything(applied: Applied, runtime: RuntimeSettings)
    requires
        !applied.configured,
    ensures
        applied.changes_to(runtime) == (Changes {
            analysis: true,
            fft: true,
            scale: true,
            smoothing: true,
            vu_mode: true,
            vu_calibration: true,
            timeline: true,
            histogram: false,
        }),
{
}

} // verus!
