//! The plugin's state between blocks, and the plan for each block.
use crate::meter::loudness::LoudnessMeter;
use crate::meter::vu;
use crate::plugin::banks::{BankAction, ScopeBanks};
use crate::plugin::cadence::{interval_due, remaining_after};
use crate::plugin::changes::{
    fft_size_concerns_the_spectrum_alone, is_reenabled, reenabled_shows, Applied,
};
use crate::plugin::modules::{
    grouping, needle, scope_work, some_module_shows, spectrum_scale, spectrum_task, vu_mode,
    MODULE_LOUDNESS, MODULE_SPECTROGRAM, MODULE_SPECTRUM, MODULE_VU,
};
use crate::plugin::retained::{Capture, LoudnessReadings, LoudnessTimeline, TimelinePoint};
use crate::editor::slots::TIMELINE_POINTS;
use crate::scope::analyzer::ScopeAnalyzer;
use crate::scope::config as analysis;
use crate::scope::history::newest;
use crate::scope::work::ScopeWork;
use crate::settings::options::FftSize;
use crate::settings::runtime::{default_enabled, RuntimeSettings, MODULE_COUNT, STATE_VERSION};
use vstd::prelude::*;

verus! {

/// Counter parameters deliberately do not store a command. Hosts persist a
/// number, and the plugin acts only on a change, so Reset/Capture cannot fire
/// again merely because a project is reopened.
#[derive(Clone, Copy, Debug, PartialEq, Eq, Structural)]
pub struct Counters {
    pub reset: u16,
    pub capture_a: u16,
    pub capture_b: u16,
}

/// What the counters ask for, in this order.
#[derive(Clone, Copy, Debug, PartialEq, Eq, Structural)]
pub struct ActionPlan {
    /// Clear everything that has been measured.
    pub reset: bool,
    /// Capture the loudness readings as A.
    pub capture_a: bool,
    /// Capture the loudness readings as B.
    pub capture_b: bool,
}

impl ActionPlan {
    /// What counters ask for, seen against the last ones: each acts when it changes, and
    /// readings are captured while loudness is on. The first counters only seed them.
    pub open spec fn asked(seen: Option<Counters>, counters: Counters, loudness: bool) -> Self {
        match seen {
            None => ActionPlan { reset: false, capture_a: false, capture_b: false },
            Some(seen) => ActionPlan {
                reset: counters.reset != seen.reset,
                capture_a: counters.capture_a != seen.capture_a && loudness,
                capture_b: counters.capture_b != seen.capture_b && loudness,
            },
        }
    }

    /// Reopening a project asks for nothing, and neither do counters that stay as they
    /// are. A counter that moves asks for its own action and for no other.
    pub proof fn counters_act_when_they_move(seen: Counters, counters: Counters, loudness: bool)
        ensures
            ({
                let nothing = ActionPlan { reset: false, capture_a: false, capture_b: false };
                let plan = Self::asked(Some(seen), counters, loudness);
                &&& Self::asked(None, counters, loudness) == nothing
                &&& Self::asked(Some(counters), counters, loudness) == nothing
                &&& plan.reset <==> counters.reset != seen.reset
                &&& loudness ==> (plan.capture_a <==> counters.capture_a != seen.capture_a)
                &&& loudness ==> (plan.capture_b <==> counters.capture_b != seen.capture_b)
                &&& !loudness ==> !plan.capture_a && !plan.capture_b
            }),
    {
    }
}

/// What a change of settings asks for, in this order.
#[derive(Clone, Copy, Debug)]
pub struct RuntimePlan {
    /// Clear the meter, the needle, the display scope and the bank that was
    /// active before.
    pub reset_analysis: bool,
    /// What of the bank that is active now has to be cleared.
    pub bank: BankAction,
    /// Group the bands of the active bank like this.
    pub scale: Option<analysis::SpectrumScale>,
    /// Smooth the active bank by this percentage.
    pub smoothing: Option<u8>,
    pub vu_mode: Option<vu::VuMode>,
    pub vu_calibration: Option<i8>,
    /// Clear the loudness meter.
    pub reset_meter: bool,
    /// Clear the needle.
    pub reset_vu: bool,
    /// Clear these representations of the display scope.
    pub reset_display: ScopeWork,
    /// Clear the spectrum of the active bank.
    pub reset_spectrum: bool,
}

impl RuntimePlan {
    /// Whether the plan is the one for settings that follow on the ones in force.
    /// Which bank is used is a matter of the banks.
    pub open spec fn answers(self, applied: Applied, runtime: RuntimeSettings) -> bool {
        let changes = applied.changes_to(runtime);
        &&& self.reset_analysis == changes.analysis
        &&& self.scale == (if changes.scale {
            Some(grouping(runtime.spectrum_scale))
        } else {
            None
        })
        &&& self.smoothing == (if changes.smoothing {
            Some(runtime.spectrum_smoothing)
        } else {
            None
        })
        &&& self.vu_mode == (if changes.vu_mode {
            Some(needle(runtime.vu_mode))
        } else {
            None
        })
        &&& self.vu_calibration == (if changes.vu_calibration {
            Some(runtime.vu_calibration)
        } else {
            None
        })
        &&& self.reset_meter == (is_reenabled(applied, runtime, MODULE_LOUDNESS as int)
            || changes.histogram)
        &&& self.reset_vu == is_reenabled(applied, runtime, MODULE_VU as int)
        &&& forall|task: u8|
            task < 8 ==> #[trigger] self.reset_display.has(task) == (task != spectrum_task()
                && reenabled_shows(applied, runtime, task, MODULE_COUNT as int))
        &&& self.reset_spectrum == (is_reenabled(applied, runtime, MODULE_SPECTRUM as int)
            || is_reenabled(applied, runtime, MODULE_SPECTROGRAM as int))
    }

    /// Whether the display scope is as the plan leaves it.
    pub open spec fn display_follows<E: Copy, B: Copy, P: Copy, S: Copy, F: Copy, L: Copy>(
        self,
        before: ScopeAnalyzer<E, B, P, S, F, L>,
        after: ScopeAnalyzer<E, B, P, S, F, L>,
    ) -> bool {
        if self.reset_analysis {
            after.was_reset(before)
        } else {
            after.was_cleared(before, self.reset_display)
        }
    }

    /// Whether the loudness meter is as the plan leaves it.
    pub open spec fn meter_follows<E: Copy>(
        self,
        before: LoudnessMeter<E>,
        after: LoudnessMeter<E>,
    ) -> bool {
        if self.reset_analysis || self.reset_meter {
            after.is_clear() && after.same_limits(before)
        } else {
            after == before
        }
    }

    /// Clears what the plan asks for of the display scope.
    pub fn apply_to_display<E: Copy, B: Copy, P: Copy, S: Copy, F: Copy, L: Copy>(
        &self,
        scope: &mut ScopeAnalyzer<E, B, P, S, F, L>,
    )
        requires
            old(scope).is_valid(),
        ensures
            final(scope).is_valid(),
            self.display_follows(*old(scope), *final(scope)),
    {
        if self.reset_analysis {
            scope.reset();
        } else {
            scope.reset_work(self.reset_display);
        }
    }

    /// Whether the bank that was active before is as the plan leaves it.
    pub open spec fn former_bank_follows<E: Copy, B: Copy, P: Copy, S: Copy, F: Copy, L: Copy>(
        self,
        before: ScopeAnalyzer<E, B, P, S, F, L>,
        after: ScopeAnalyzer<E, B, P, S, F, L>,
    ) -> bool {
        if self.reset_analysis {
            after.was_reset(before)
        } else {
            after == before
        }
    }

    /// Whether the spectrum of the bank that is active now is cleared with its
    /// input.
    pub open spec fn clears_bank_spectrum(self) -> bool {
        self.bank != BankAction::Keep || self.reset_spectrum
    }

    /// The grouping that the bank has then.
    pub open spec fn scale_after(self, before: analysis::SpectrumScale) -> analysis::SpectrumScale {
        match self.scale {
            Some(scale) => scale,
            None => before,
        }
    }

    /// Whether the bank that is active now is as the plan leaves it. Clearing all
    /// of it clears every representation and the count; clearing its spectrum, or
    /// another grouping, leaves the others as they are.
    pub open spec fn bank_follows<E: Copy, B: Copy, P: Copy, S: Copy, F: Copy, L: Copy>(
        self,
        before: ScopeAnalyzer<E, B, P, S, F, L>,
        after: ScopeAnalyzer<E, B, P, S, F, L>,
    ) -> bool {
        let scale = self.scale_after(before.config.spectrum_scale);
        &&& after.config == (analysis::ScopeConfig { spectrum_scale: scale, ..before.config })
        &&& after.bit_reverse == before.bit_reverse
        &&& if self.bank == BankAction::ClearAll {
            &&& after.is_clear()
            &&& after.processed_frames == 0
            &&& after.correlation.limit() == before.correlation.limit()
            &&& after.correlation.blank_item() == before.correlation.blank_item()
            &&& after.waveform.width() == before.waveform.width()
            &&& after.oscilloscope.blank_item() == before.oscilloscope.blank_item()
        } else {
            &&& after.processed_frames == before.processed_frames
            &&& after.correlation == before.correlation
            &&& after.waveform == before.waveform
            &&& after.goniometer == before.goniometer
            &&& after.oscilloscope == before.oscilloscope
            &&& if self.clears_bank_spectrum() {
                &&& after.input@ == Seq::<F>::empty()
                &&& after.input.fresh() == 0
                &&& after.spectrum_is_clear()
            } else {
                &&& after.input == before.input
                &&& if scale != before.config.spectrum_scale {
                    after.spectrum_is_clear()
                } else {
                    &&& after.spectrogram == before.spectrogram
                    &&& after.spectrum_ready == before.spectrum_ready
                    &&& after.spectrum_frames == before.spectrum_frames
                }
            }
        }
    }

    /// The needle as the plan leaves it: another mode or a reset silences it, and
    /// a reset counts anew.
    pub open spec fn needle_after<D: Copy>(self, before: vu::VuMeter<D>) -> vu::VuMeter<D> {
        let reset = self.reset_analysis || self.reset_vu;
        let mode = match self.vu_mode {
            Some(mode) => mode,
            None => before.mode,
        };
        let silenced = reset || mode != before.mode;
        vu::VuMeter {
            mode,
            left: if silenced {
                vu::VuChannel::silent(before.blank)
            } else {
                before.left
            },
            right: if silenced {
                vu::VuChannel::silent(before.blank)
            } else {
                before.right
            },
            processed_frames: if reset {
                0
            } else {
                before.processed_frames
            },
            ..before
        }
    }

    /// Clears the bank that was active before, where the plan asks for it.
    pub fn apply_to_former_bank<E: Copy, B: Copy, P: Copy, S: Copy, F: Copy, L: Copy>(
        &self,
        scope: &mut ScopeAnalyzer<E, B, P, S, F, L>,
    )
        requires
            old(scope).is_valid(),
        ensures
            final(scope).is_valid(),
            self.former_bank_follows(*old(scope), *final(scope)),
    {
        if self.reset_analysis {
            scope.reset();
        }
    }

    /// Clears and groups the bank that is active now as the plan asks.
    pub fn apply_to_bank<E: Copy, B: Copy, P: Copy, S: Copy, F: Copy, L: Copy>(
        &self,
        scope: &mut ScopeAnalyzer<E, B, P, S, F, L>,
    )
        requires
            old(scope).is_valid(),
        ensures
            final(scope).is_valid(),
            self.bank_follows(*old(scope), *final(scope)),
    {
        match self.bank {
            BankAction::Keep => {},
            BankAction::ClearSpectrum => scope.reset_work(ScopeWork::spectrum()),
            BankAction::ClearAll => scope.reset(),
        }
        if let Some(scale) = self.scale {
            scope.set_spectrum_scale(scale);
        }
        if self.reset_spectrum {
            scope.reset_work(ScopeWork::spectrum());
        }
    }

    /// Sets and clears the needle as the plan asks, and tells whether its mode is
    /// another.
    pub fn apply_to_needle<D: Copy>(&self, needle: &mut vu::VuMeter<D>) -> (changed: bool)
        ensures
            *final(needle) == self.needle_after(*old(needle)),
            changed == (final(needle).mode != old(needle).mode),
    {
        if self.reset_analysis {
            needle.reset();
        }
        let changed = match self.vu_mode {
            Some(mode) => needle.set_mode(mode),
            None => false,
        };
        if self.reset_vu {
            needle.reset();
        }
        changed
    }

    /// Clears the loudness meter, where the plan asks for it.
    pub fn apply_to_meter<E: Copy>(&self, meter: &mut LoudnessMeter<E>)
        requires
            old(meter).is_valid(),
        ensures
            final(meter).is_valid(),
            self.meter_follows(*old(meter), *final(meter)),
    {
        if self.reset_analysis || self.reset_meter {
            meter.reset();
        }
    }
}

/// Another FFT size leaves the display scope and the loudness meter as they are,
/// with everything that they keep and have counted.
pub proof fn another_fft_size_keeps_what_is_measured<
    E: Copy,
    B: Copy,
    P: Copy,
    S: Copy,
    F: Copy,
    L: Copy,
    M: Copy,
>(
    runtime: RuntimeSettings,
    fft_size: FftSize,
    plan: RuntimePlan,
    display: (ScopeAnalyzer<E, B, P, S, F, L>, ScopeAnalyzer<E, B, P, S, F, L>),
    meter: (LoudnessMeter<M>, LoudnessMeter<M>),
)
    requires
        plan.answers(Applied::from(runtime), RuntimeSettings { fft_size, ..runtime }),
        plan.display_follows(display.0, display.1),
        plan.meter_follows(meter.0, meter.1),
    ensures
        display.1 == display.0,
        meter.1 == meter.0,
        display.1.processed_frames == display.0.processed_frames,
        meter.1.energies().count() == meter.0.energies().count(),
{
    fft_size_concerns_the_spectrum_alone(runtime, fft_size);
    let changed = RuntimeSettings { fft_size, ..runtime };
    assert forall|task: u8| task < 8 implies !#[trigger] plan.reset_display.has(task) by {
        assert(!reenabled_shows(Applied::from(runtime), changed, task, MODULE_COUNT as int));
    }
    assert(!plan.reset_display.has(0));
    assert(!plan.reset_display.has(1));
    assert(!plan.reset_display.has(2));
    assert(!plan.reset_display.has(3));
    assert(!plan.reset_display.has(4));
}

/// What is analysed of one block.
#[derive(Clone, Copy, Debug)]
pub struct BlockPlan {
    pub frames: usize,
    pub loudness: bool,
    pub vu: bool,
    /// The tasks of the display scope.
    pub display: ScopeWork,
    /// Whether the active bank takes the block in.
    pub spectrum: bool,
}

/// When the next timeline column and the next picture are due.
#[derive(Clone, Copy, Debug, PartialEq, Eq, Structural)]
pub struct Pacing {
    pub frames_until_timeline: usize,
    pub timeline_interval: usize,
    pub frames_until_publish: usize,
    pub publish_interval: usize,
}

/// The plugin's state between blocks.
#[derive(Debug)]
pub struct Neta<T> {
    pub runtime: RuntimeSettings,
    pub runtime_dirty: bool,
    pub applied: Applied,
    pub pacing: Pacing,
    /// One measurement run, with A/B as immutable captures rather than two
    /// simultaneous meters.
    pub timeline: LoudnessTimeline<T>,
    pub capture_a: Capture<T>,
    pub capture_b: Capture<T>,
    /// The counters as they were last seen, once they have been seen.
    pub counters: Option<Counters>,
    pub scopes: Option<ScopeBanks>,
    pub zero: T,
    pub unmeasured: T,
}

impl<T: Copy> Neta<T> {
    /// Whether the timeline and the banks are in order.
    pub open spec fn is_valid(self) -> bool {
        &&& self.timeline.is_valid()
        &&& self.timeline.sentinel() == self.unmeasured
        &&& self.scopes matches Some(scopes) ==> scopes.is_valid()
    }

    /// A capture of nothing.
    pub open spec fn no_capture(self) -> Capture<T> {
        Capture {
            valid: false,
            short_term: self.zero,
            integrated: self.zero,
            true_peak: self.zero,
        }
    }

    /// Whether nothing measured before is kept: no timeline, no captures, and
    /// only the active bank is clean.
    pub open spec fn starts_anew(self, before: Self) -> bool {
        &&& self.timeline@ == Seq::<TimelinePoint<T>>::empty()
        &&& self.capture_a == self.no_capture()
        &&& self.capture_b == self.no_capture()
        &&& self.pacing == (Pacing {
            frames_until_timeline: 1,
            frames_until_publish: 1,
            ..before.pacing
        })
        &&& match (before.scopes, self.scopes) {
            (Some(earlier), Some(scopes)) => {
                &&& scopes.current() == earlier.current()
                &&& forall|bank: int|
                    0 <= bank < 5 ==> #[trigger] scopes.is_fresh(bank) == (bank
                        == earlier.current())
            },
            (None, None) => true,
            _ => false,
        }
    }

    /// Whether the readings that are kept are as the settings that were put in force leave
    /// them.
    pub open spec fn readings_follow(self, before: Self) -> bool {
        let changes = before.applied.changes_to(before.runtime);
        let anew = changes.analysis || changes.histogram || is_reenabled(
            before.applied,
            before.runtime,
            MODULE_LOUDNESS as int,
        );
        &&& anew ==> {
            &&& self.timeline@ == Seq::<TimelinePoint<T>>::empty()
            &&& self.capture_a == before.no_capture()
            &&& self.capture_b == before.no_capture()
        }
        &&& !anew ==> {
            &&& self.timeline@ == (if changes.timeline {
                Seq::<TimelinePoint<T>>::empty()
            } else {
                before.timeline@
            })
            &&& self.capture_a == before.capture_a
            &&& self.capture_b == before.capture_b
        }
    }

    /// Readings start anew where they would be about something else: with another source
    /// or gain, when loudness comes back, and with a fresh distribution. Switching the
    /// timeline clears the timeline alone, and any other setting leaves readings as they
    /// are.
    pub proof fn readings_start_anew_where_they_must(
        before: Self,
        after: Self,
        in_force: RuntimeSettings,
    )
        requires
            before.applied == Applied::from(in_force),
            after.readings_follow(before),
        ensures
            ({
                let wanted = before.runtime;
                let another = in_force.analysis_source != wanted.analysis_source
                    || in_force.trim_db != wanted.trim_db;
                let back = !in_force.enabled@[0] && wanted.enabled@[0];
                let fresh = !in_force.loudness_histogram && wanted.loudness_histogram;
                let switched = in_force.loudness_timeline != wanted.loudness_timeline;
                &&& another || back || fresh ==> after.timeline@.len() == 0
                    && !after.capture_a.valid && !after.capture_b.valid
                &&& switched ==> after.timeline@.len() == 0
                &&& !another && !back && !fresh ==> after.capture_a == before.capture_a
                    && after.capture_b == before.capture_b
                &&& !another && !back && !fresh && !switched ==> after.timeline@ == before.timeline@
            }),
    {
        crate::plugin::changes::each_change_is_told_by_its_setting(in_force, before.runtime);
    }

    /// A plugin that has not been activated.
    pub fn new(zero: T, unmeasured: T) -> (neta: Self)
        ensures
            neta.is_valid(),
            neta.runtime.reflects(Seq::empty(), STATE_VERSION),
            neta.runtime.enabled@ == default_enabled(),
            neta.runtime_dirty,
            !neta.applied.configured,
            neta.counters is None,
            neta.scopes is None,
            neta.zero == zero,
            neta.unmeasured == unmeasured,
            neta.timeline@ == Seq::<TimelinePoint<T>>::empty(),
            neta.capture_a == neta.no_capture(),
            neta.capture_b == neta.no_capture(),
            neta.pacing == (Pacing {
                frames_until_timeline: 1,
                timeline_interval: 1,
                frames_until_publish: 1,
                publish_interval: 1,
            }),
    {
        Neta {
            runtime: RuntimeSettings::default(),
            runtime_dirty: true,
            applied: Applied::none(),
            pacing: Pacing {
                frames_until_timeline: 1,
                timeline_interval: 1,
                frames_until_publish: 1,
                publish_interval: 1,
            },
            timeline: LoudnessTimeline::new(unmeasured),
            capture_a: Capture::empty(zero),
            capture_b: Capture::empty(zero),
            counters: None,
            scopes: None,
            zero,
            unmeasured,
        }
    }

    /// Starts a run: with banks where they could be built, with nothing in force
    /// and nothing measured.
    pub fn activate(&mut self, timeline_interval: usize, publish_interval: usize, has_banks: bool)
        requires
            old(self).is_valid(),
        ensures
            final(self).is_valid(),
            final(self).runtime == old(self).runtime,
            final(self).runtime_dirty,
            !final(self).applied.configured,
            forall|module: int|
                0 <= module < 9 ==> !#[trigger] final(self).applied.modules@[module],
            final(self).counters is None,
            final(self).zero == old(self).zero,
            final(self).unmeasured == old(self).unmeasured,
            final(self).timeline@ == Seq::<TimelinePoint<T>>::empty(),
            final(self).capture_a == old(self).no_capture(),
            final(self).capture_b == old(self).no_capture(),
            final(self).pacing == (Pacing {
                frames_until_timeline: 1,
                timeline_interval,
                frames_until_publish: 1,
                publish_interval,
            }),
            final(self).scopes is Some == has_banks,
            final(self).scopes matches Some(scopes) ==> {
                &&& scopes.current() == 1
                &&& forall|bank: int|
                    0 <= bank < 5 ==> #[trigger] scopes.is_fresh(bank) == (bank == 1)
            },
    {
        self.scopes = if has_banks {
            Some(ScopeBanks::new())
        } else {
            None
        };
        self.pacing = Pacing {
            frames_until_timeline: 1,
            timeline_interval,
            frames_until_publish: 1,
            publish_interval,
        };
        self.runtime_dirty = true;
        self.applied = Applied::none();
        self.counters = None;
        self.reset_analysis();
    }

    /// Ends a run.
    pub fn deactivate(&mut self)
        ensures
            *final(self) == (Neta { scopes: None, ..*old(self) }),
    {
        self.scopes = None;
    }

    /// Takes settings in. They are put in force before the next block.
    pub fn apply_state(&mut self, runtime: RuntimeSettings)
        ensures
            *final(self) == (Neta { runtime, runtime_dirty: true, ..*old(self) }),
    {
        self.runtime = runtime;
        self.runtime_dirty = true;
    }

    /// Forgets what has been measured.
    pub fn reset_analysis(&mut self)
        requires
            old(self).is_valid(),
        ensures
            final(self).is_valid(),
            final(self).starts_anew(*old(self)),
            *final(self) == (Neta {
                pacing: final(self).pacing,
                timeline: final(self).timeline,
                capture_a: final(self).capture_a,
                capture_b: final(self).capture_b,
                scopes: final(self).scopes,
                ..*old(self)
            }),
    {
        if let Some(mut scopes) = self.scopes {
            scopes.reset();
            self.scopes = Some(scopes);
        }
        self.reset_readings();
        self.pacing.frames_until_timeline = 1;
        self.pacing.frames_until_publish = 1;
    }

    /// Forgets the loudness readings that are kept.
    fn reset_readings(&mut self)
        requires
            old(self).is_valid(),
        ensures
            final(self).is_valid(),
            final(self).timeline@ == Seq::<TimelinePoint<T>>::empty(),
            *final(self) == (Neta {
                timeline: final(self).timeline,
                capture_a: old(self).no_capture(),
                capture_b: old(self).no_capture(),
                ..*old(self)
            }),
    {
        self.timeline.reset();
        self.capture_a = Capture::empty(self.zero);
        self.capture_b = Capture::empty(self.zero);
    }

    /// Selects the bank of the settings.
    fn select_bank(&mut self) -> (action: BankAction)
        requires
            old(self).is_valid(),
        ensures
            final(self).is_valid(),
            *final(self) == (Neta { scopes: final(self).scopes, ..*old(self) }),
            match (old(self).scopes, final(self).scopes) {
                (Some(before), Some(after)) => {
                    let wanted = old(self).runtime.fft_size.position();
                    &&& after.current() == wanted
                    &&& action == (if before.current() == wanted {
                        BankAction::Keep
                    } else if before.is_fresh(wanted) {
                        BankAction::ClearSpectrum
                    } else {
                        BankAction::ClearAll
                    })
                    &&& forall|bank: int|
                        0 <= bank < 5 ==> #[trigger] after.is_fresh(bank) == (before.is_fresh(bank)
                            || (action == BankAction::ClearAll && bank == wanted))
                },
                (None, None) => action == BankAction::Keep,
                _ => false,
            },
    {
        if let Some(mut scopes) = self.scopes {
            let action = scopes.select(self.runtime.fft_index());
            self.scopes = Some(scopes);
            action
        } else {
            BankAction::Keep
        }
    }

    /// Puts the settings in force.
    pub fn apply_runtime(&mut self) -> (plan: RuntimePlan)
        requires
            old(self).is_valid(),
        ensures
            final(self).is_valid(),
            *final(self) == (Neta {
                runtime_dirty: false,
                applied: Applied::from(old(self).runtime),
                pacing: final(self).pacing,
                timeline: final(self).timeline,
                capture_a: final(self).capture_a,
                capture_b: final(self).capture_b,
                scopes: final(self).scopes,
                ..*old(self)
            }),
            ({
                let runtime = old(self).runtime;
                let changes = old(self).applied.changes_to(runtime);
                let loudness_returns = is_reenabled(
                    old(self).applied,
                    runtime,
                    MODULE_LOUDNESS as int,
                );
                &&& plan.answers(old(self).applied, runtime)
                &&& final(self).readings_follow(*old(self))
                // What is kept of the readings.
                &&& if changes.analysis || loudness_returns || changes.histogram {
                    &&& final(self).timeline@ == Seq::<TimelinePoint<T>>::empty()
                    &&& final(self).capture_a == old(self).no_capture()
                    &&& final(self).capture_b == old(self).no_capture()
                } else {
                    &&& final(self).timeline@ == (if changes.timeline {
                        Seq::<TimelinePoint<T>>::empty()
                    } else {
                        old(self).timeline@
                    })
                    &&& final(self).capture_a == old(self).capture_a
                    &&& final(self).capture_b == old(self).capture_b
                }
                &&& final(self).pacing == (Pacing {
                    frames_until_timeline: if changes.analysis || changes.timeline {
                        1
                    } else {
                        old(self).pacing.frames_until_timeline
                    },
                    frames_until_publish: if changes.analysis {
                        1
                    } else {
                        old(self).pacing.frames_until_publish
                    },
                    ..old(self).pacing
                })
                // Which bank is used, and which ones are clean.
                &&& match (old(self).scopes, final(self).scopes) {
                    (Some(before), Some(after)) => {
                        let wanted = if changes.fft {
                            runtime.fft_size.position()
                        } else {
                            before.current()
                        };
                        &&& after.current() == wanted
                        &&& plan.bank == (if before.current() == wanted {
                            BankAction::Keep
                        } else if before.is_fresh(wanted) && !changes.analysis {
                            BankAction::ClearSpectrum
                        } else {
                            BankAction::ClearAll
                        })
                        &&& forall|bank: int|
                            0 <= bank < 5 ==> #[trigger] after.is_fresh(bank) == ({
                                ||| plan.bank == BankAction::ClearAll && bank == wanted
                                ||| !changes.analysis && before.is_fresh(bank)
                                ||| changes.analysis && bank == before.current()
                            })
                    },
                    (None, None) => plan.bank == BankAction::Keep,
                    _ => false,
                }
            }),
    {
        let runtime = self.runtime;
        let applied = self.applied;
        let changes = applied.compare(&runtime);
        if changes.analysis {
            self.reset_analysis();
        }
        let bank = if changes.fft {
            self.select_bank()
        } else {
            BankAction::Keep
        };
        let reset_display = applied.reenabled_display_work(&runtime);
        let reset_spectrum = applied.reenabled_spectrum(&runtime);
        let loudness_returns = applied.reenabled(&runtime, MODULE_LOUDNESS);
        let reset_meter = loudness_returns || changes.histogram;
        if reset_meter {
            self.reset_readings();
        }
        if changes.timeline {
            self.timeline.reset();
            self.pacing.frames_until_timeline = 1;
        }
        self.applied.apply(&runtime);
        self.runtime_dirty = false;
        RuntimePlan {
            reset_analysis: changes.analysis,
            bank,
            scale: if changes.scale {
                Some(spectrum_scale(runtime.spectrum_scale))
            } else {
                None
            },
            smoothing: if changes.smoothing {
                Some(runtime.spectrum_smoothing)
            } else {
                None
            },
            vu_mode: if changes.vu_mode {
                Some(vu_mode(runtime.vu_mode))
            } else {
                None
            },
            vu_calibration: if changes.vu_calibration {
                Some(runtime.vu_calibration)
            } else {
                None
            },
            reset_meter,
            reset_vu: applied.reenabled(&runtime, MODULE_VU),
            reset_display,
            reset_spectrum,
        }
    }

    /// Reads the counters. The first reading only seeds them; after that each
    /// one acts when it changes.
    pub fn handle_actions(&mut self, counters: Counters) -> (plan: ActionPlan)
        requires
            old(self).is_valid(),
        ensures
            final(self).is_valid(),
            plan == ActionPlan::asked(
                old(self).counters,
                counters,
                old(self).runtime.enabled@[MODULE_LOUDNESS as int],
            ),
            plan == (match old(self).counters {
                None => ActionPlan { reset: false, capture_a: false, capture_b: false },
                Some(seen) => ActionPlan {
                    reset: counters.reset != seen.reset,
                    capture_a: counters.capture_a != seen.capture_a
                        && old(self).runtime.enabled@[MODULE_LOUDNESS as int],
                    capture_b: counters.capture_b != seen.capture_b
                        && old(self).runtime.enabled@[MODULE_LOUDNESS as int],
                },
            }),
            !plan.reset ==> *final(self) == (Neta { counters: Some(counters), ..*old(self) }),
            plan.reset ==> final(self).starts_anew(*old(self)) && *final(self) == (Neta {
                counters: Some(counters),
                pacing: final(self).pacing,
                timeline: final(self).timeline,
                capture_a: final(self).capture_a,
                capture_b: final(self).capture_b,
                scopes: final(self).scopes,
                ..*old(self)
            }),
    {
        let seen = match self.counters {
            Some(seen) => seen,
            None => {
                self.counters = Some(counters);
                return ActionPlan { reset: false, capture_a: false, capture_b: false };
            },
        };
        let loudness = self.runtime.enabled[MODULE_LOUDNESS];
        let reset = counters.reset != seen.reset;
        if reset {
            self.reset_analysis();
        }
        self.counters = Some(counters);
        ActionPlan {
            reset,
            capture_a: counters.capture_a != seen.capture_a && loudness,
            capture_b: counters.capture_b != seen.capture_b && loudness,
        }
    }

    /// Captures the readings as A.
    pub fn capture_as_a(&mut self, readings: &LoudnessReadings<T>)
        ensures
            *final(self) == (Neta {
                capture_a: Capture::of(*readings, old(self).unmeasured),
                ..*old(self)
            }),
    {
        self.capture_a.take(readings, self.unmeasured);
    }

    /// Captures the readings as B.
    pub fn capture_as_b(&mut self, readings: &LoudnessReadings<T>)
        ensures
            *final(self) == (Neta {
                capture_b: Capture::of(*readings, old(self).unmeasured),
                ..*old(self)
            }),
    {
        self.capture_b.take(readings, self.unmeasured);
    }

    /// Whether anything that is on takes audio in.
    pub open spec fn listens(self) -> bool {
        ||| self.runtime.enabled@[MODULE_LOUDNESS as int]
        ||| self.runtime.enabled@[MODULE_VU as int]
        ||| exists|task: u8|
            task < 8 && #[trigger] some_module_shows(self.runtime.enabled@, task) && (task
                == spectrum_task() ==> !self.runtime.spectrum_hold)
    }

    /// What is analysed of a block, if anything is: as many frames as there is
    /// room for, by every module that is on.
    pub fn plan_block(&self, audio_frames: usize, room: usize) -> (plan: Option<BlockPlan>)
        ensures
            match plan {
                None => !self.listens() || audio_frames == 0 || room == 0,
                Some(plan) => {
                    &&& self.listens()
                    &&& plan.frames > 0
                    &&& plan.frames == (if audio_frames < room {
                        audio_frames
                    } else {
                        room
                    })
                    &&& plan.loudness == self.runtime.enabled@[MODULE_LOUDNESS as int]
                    &&& plan.vu == self.runtime.enabled@[MODULE_VU as int]
                    &&& forall|task: u8|
                        task < 8 ==> #[trigger] plan.display.has(task) == (task != spectrum_task()
                            && some_module_shows(self.runtime.enabled@, task))
                    &&& plan.spectrum == (some_module_shows(self.runtime.enabled@, spectrum_task())
                        && !self.runtime.spectrum_hold)
                },
            },
    {
        let loudness = self.runtime.enabled[MODULE_LOUDNESS];
        let vu = self.runtime.enabled[MODULE_VU];
        let work = scope_work(&self.runtime);
        if !loudness && !vu && work.is_empty() {
            proof {
                if exists|task: u8|
                    task < 8 && #[trigger] some_module_shows(self.runtime.enabled@, task) && (task
                        == spectrum_task() ==> !self.runtime.spectrum_hold) {
                    let task = choose|task: u8|
                        task < 8 && #[trigger] some_module_shows(self.runtime.enabled@, task) && (
                        task == spectrum_task() ==> !self.runtime.spectrum_hold);
                    assert(work.has(task));
                }
            }
            return None;
        }
        let frames: usize = if audio_frames < room {
            audio_frames
        } else {
            room
        };
        if frames == 0 {
            return None;
        }
        proof {
            if !loudness && !vu {
                let task = choose|task: u8| task < 8 && #[trigger] work.has(task);
                assert(work.has(task));
                assert(some_module_shows(self.runtime.enabled@, task));
            }
            assert(work.has(spectrum_task()) == (some_module_shows(
                self.runtime.enabled@,
                spectrum_task(),
            ) && !self.runtime.spectrum_hold));
        }
        Some(
            BlockPlan {
                frames,
                loudness,
                vu,
                display: work.without(ScopeWork::spectrum()),
                spectrum: work.does(4),
            },
        )
    }

    /// Takes the loudness readings of a block into the timeline when a column
    /// is due.
    pub fn advance_timeline(&mut self, frames: usize, readings: Option<LoudnessReadings<T>>)
        requires
            old(self).is_valid(),
        ensures
            final(self).is_valid(),
            if old(self).runtime.loudness_timeline && readings is Some {
                &&& final(self).timeline@ == (if frames >= old(
                    self,
                ).pacing.frames_until_timeline {
                    newest(
                        old(self).timeline@.push(
                            TimelinePoint::of(readings->0, old(self).unmeasured),
                        ),
                        TIMELINE_POINTS as int,
                    )
                } else {
                    old(self).timeline@
                })
                &&& *final(self) == (Neta {
                    timeline: final(self).timeline,
                    pacing: Pacing {
                        frames_until_timeline: remaining_after(
                            old(self).pacing.frames_until_timeline as int,
                            old(self).pacing.timeline_interval,
                            frames as int,
                        ) as usize,
                        ..old(self).pacing
                    },
                    ..*old(self)
                })
            } else {
                *final(self) == *old(self)
            },
    {
        if self.runtime.loudness_timeline {
            if let Some(readings) = readings {
                let mut remaining: usize = self.pacing.frames_until_timeline;
                let due = interval_due(&mut remaining, self.pacing.timeline_interval, frames);
                self.pacing.frames_until_timeline = remaining;
                if due {
                    self.timeline.push(&readings);
                }
            }
        }
    }

    /// Whether a picture is due after a block.
    pub fn publish_due(&mut self, frames: usize) -> (due: bool)
        ensures
            due == (frames >= old(self).pacing.frames_until_publish),
            *final(self) == (Neta {
                pacing: Pacing {
                    frames_until_publish: remaining_after(
                        old(self).pacing.frames_until_publish as int,
                        old(self).pacing.publish_interval,
                        frames as int,
                    ) as usize,
                    ..old(self).pacing
                },
                ..*old(self)
            }),
    {
        let mut remaining: usize = self.pacing.frames_until_publish;
        let due = interval_due(&mut remaining, self.pacing.publish_interval, frames);
        self.pacing.frames_until_publish = remaining;
        due
    }
}

/// Settings that are in force plan nothing when they come again: nothing is cleared or
/// set, and the needle, the meter and the bank stay as they are.
pub proof fn settled_settings_plan_nothing<
    E: Copy,
    B: Copy,
    P: Copy,
    S: Copy,
    F: Copy,
    L: Copy,
    M: Copy,
    D: Copy,
>(
    runtime: RuntimeSettings,
    plan: RuntimePlan,
    meter: (LoudnessMeter<M>, LoudnessMeter<M>),
    bank: (ScopeAnalyzer<E, B, P, S, F, L>, ScopeAnalyzer<E, B, P, S, F, L>),
    needle: vu::VuMeter<D>,
)
    requires
        plan.answers(Applied::from(runtime), runtime),
        plan.bank == BankAction::Keep,
        plan.meter_follows(meter.0, meter.1),
        plan.bank_follows(bank.0, bank.1),
    ensures
        !plan.reset_analysis && !plan.reset_meter && !plan.reset_vu && !plan.reset_spectrum,
        plan.scale is None && plan.smoothing is None && plan.vu_mode is None
            && plan.vu_calibration is None,
        forall|task: u8| task < 8 ==> !#[trigger] plan.reset_display.has(task),
        meter.1 == meter.0,
        bank.1 == bank.0,
        plan.needle_after(needle) == needle,
{
    crate::plugin::changes::settled_settings_change_nothing(runtime);
    assert forall|task: u8| task < 8 implies !#[trigger] plan.reset_display.has(task) by {
        assert(!reenabled_shows(Applied::from(runtime), runtime, task, MODULE_COUNT as int));
    }
}

/// Another source or another gain makes what was measured about something else: the
/// display, the meter and the bank that was active start anew, and the needle is silent.
pub proof fn another_source_starts_anew<
    E: Copy,
    B: Copy,
    P: Copy,
    S: Copy,
    F: Copy,
    L: Copy,
    M: Copy,
    D: Copy,
>(
    before: RuntimeSettings,
    after: RuntimeSettings,
    plan: RuntimePlan,
    display: (ScopeAnalyzer<E, B, P, S, F, L>, ScopeAnalyzer<E, B, P, S, F, L>),
    former: (ScopeAnalyzer<E, B, P, S, F, L>, ScopeAnalyzer<E, B, P, S, F, L>),
    meter: (LoudnessMeter<M>, LoudnessMeter<M>),
    needle: vu::VuMeter<D>,
)
    requires
        before.analysis_source != after.analysis_source || before.trim_db != after.trim_db,
        plan.answers(Applied::from(before), after),
        plan.display_follows(display.0, display.1),
        plan.former_bank_follows(former.0, former.1),
        plan.meter_follows(meter.0, meter.1),
    ensures
        display.1.is_clear() && display.1.processed_frames == 0,
        former.1.is_clear() && former.1.processed_frames == 0,
        meter.1.is_clear(),
        plan.needle_after(needle).left == plan.needle_after(needle).right,
        plan.needle_after(needle).left.detector == needle.blank,
        plan.needle_after(needle).left.peak_hold == needle.blank,
        plan.needle_after(needle).processed_frames == 0,
{
}

/// A needle takes another mode on and is silent then; a mode that it has already, and
/// settings of other parts, leave it moving.
pub proof fn needles_follow_their_mode<D: Copy>(plan: RuntimePlan, needle: vu::VuMeter<D>)
    requires
        !plan.reset_analysis,
        !plan.reset_vu,
    ensures
        plan.vu_mode matches Some(mode) ==> plan.needle_after(needle).mode == mode,
        plan.vu_mode is None ==> plan.needle_after(needle) == needle,
        plan.vu_mode == Some(needle.mode) ==> plan.needle_after(needle) == needle,
        plan.needle_after(needle).mode != needle.mode ==> plan.needle_after(needle).left.detector
            == needle.blank && plan.needle_after(needle).right.detector == needle.blank,
        plan.needle_after(needle).processed_frames == needle.processed_frames,
        plan.needle_after(needle).peak_hold_frames == needle.peak_hold_frames,
{
}

/// A bank that comes into use shows nothing of what it measured before, and has the
/// grouping that is asked for; one that stays in use keeps its spectrum unless a module
/// that shows it comes back or its grouping changes.
pub proof fn banks_show_nothing_old<E: Copy, B: Copy, P: Copy, S: Copy, F: Copy, L: Copy>(
    plan: RuntimePlan,
    before: ScopeAnalyzer<E, B, P, S, F, L>,
    after: ScopeAnalyzer<E, B, P, S, F, L>,
)
    requires
        plan.bank_follows(before, after),
    ensures
        plan.bank != BankAction::Keep || plan.reset_spectrum ==> after.spectrogram@.len() == 0
            && after.input@.len() == 0 && !after.spectrum_ready && after.spectrum_frames == 0,
        plan.scale matches Some(scale) ==> after.config.spectrum_scale == scale,
        plan.scale is None ==> after.config == before.config,
        plan.scale matches Some(scale) ==> (scale != before.config.spectrum_scale
            ==> after.spectrogram@.len() == 0),
        plan.bank == BankAction::Keep && !plan.reset_spectrum && after.config == before.config
            ==> after.spectrogram == before.spectrogram && after.input == before.input,
        plan.bank == BankAction::ClearAll ==> after.processed_frames == 0,
        plan.bank != BankAction::ClearAll ==> after.processed_frames == before.processed_frames,
{
}

/// A plugin listens while a module is on that measures: loudness, the needles, the
/// waveform, the stereo picture, the oscilloscope, or a spectrum that is not held. The
/// object and the visuals need no audio of their own.
pub proof fn a_plugin_listens_for_its_modules<T: Copy>(neta: Neta<T>)
    ensures
        ({
            let on = neta.runtime.enabled@;
            neta.listens() <==> on[0] || on[7] || on[3] || on[4] || on[8] || ((on[1] || on[2])
                && !neta.runtime.spectrum_hold)
        }),
{
    let on = neta.runtime.enabled@;
    if on[3] {
        assert(crate::plugin::modules::module_shows(3, 1));
        assert(some_module_shows(on, 1));
    }
    if on[4] {
        assert(crate::plugin::modules::module_shows(4, 0));
        assert(some_module_shows(on, 0));
    }
    if on[8] {
        assert(crate::plugin::modules::module_shows(8, 3));
        assert(some_module_shows(on, 3));
    }
    if on[1] {
        assert(crate::plugin::modules::module_shows(1, 4));
        assert(some_module_shows(on, 4));
    }
    if on[2] {
        assert(crate::plugin::modules::module_shows(2, 4));
        assert(some_module_shows(on, 4));
    }
}

} // verus!
