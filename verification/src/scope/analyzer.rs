//! The scope as a whole: which of its histories a frame reaches, when a
//! spectrum is due, and what a reset forgets.
use crate::scope::config::{
    binary_logarithm, block_problem, validate_block, OscilloscopeCycles, OscilloscopeMode,
    ScopeConfig, ScopeConfigError, ScopeProcessError, ScopeTiming, SpectrumScale,
};
use crate::scope::fft::{bit_reversal, is_involution, reversed, scatter};
use crate::scope::history::{newest, History};
use crate::scope::rows::RowHistory;
use crate::scope::tracks::{
    analysis_due, countdown_after, fresh_after, Decimated, Envelope, SpectrumInput,
};
use crate::scope::trigger::{
    neighbours, oscilloscope_window, pitch_oscilloscope_window, pitch_window, places, shown_window,
    TriggerLevel,
};
use crate::scope::work::ScopeWork;
use vstd::prelude::*;

verus! {

/// What stands in the storage where nothing has been kept yet.
#[derive(Clone, Copy, Debug)]
pub struct Blanks<E, B, P, S, F, L> {
    pub energy: E,
    pub bucket: B,
    pub point: P,
    pub sample: S,
    pub input: F,
    pub level: L,
}

/// What one frame comes to: its energies, the waveform bucket that it makes of
/// the current one, its goniometer point, its samples and its mid sample.
#[derive(Clone, Copy, Debug)]
pub struct Frame<E, B, P, S, F> {
    pub energy: E,
    pub bucket: B,
    pub point: P,
    pub sample: S,
    pub input: F,
}

/// What is left to do after a frame.
#[derive(Clone, Copy, Debug, PartialEq, Eq)]
pub struct FrameOutcome<E> {
    /// The energies that left the correlation window, where they were measured.
    pub outgoing: Option<E>,
    /// Whether a spectrum is due.
    pub spectrum_due: bool,
}

/// Fixed-storage realtime stereo analyzer.
///
/// Taking a frame in does not allocate, lock, format text, or perform I/O. Read
/// APIs either return borrowed fixed storage or copy into caller-provided
/// slices.
#[derive(Debug)]
pub struct ScopeAnalyzer<E, B, P, S, F, L> {
    pub config: ScopeConfig,
    pub correlation: History<E>,
    pub waveform: Envelope<B>,
    pub goniometer: Decimated<P>,
    pub oscilloscope: History<S>,
    pub input: SpectrumInput<F>,
    pub spectrogram: RowHistory<L>,
    pub bit_reverse: Vec<usize>,
    pub spectrum_ready: bool,
    pub spectrum_frames: u64,
    pub processed_frames: u64,
}

/// The task numbers of the work set.
pub open spec fn correlation_task() -> u8 {
    0
}

pub open spec fn waveform_task() -> u8 {
    1
}

pub open spec fn goniometer_task() -> u8 {
    2
}

pub open spec fn oscilloscope_task() -> u8 {
    3
}

pub open spec fn spectrum_task() -> u8 {
    4
}

/// A count with one more, or the largest count.
pub open spec fn counted(count: u64) -> u64 {
    if count < u64::MAX {
        (count + 1) as u64
    } else {
        count
    }
}

impl<E: Copy, B: Copy, P: Copy, S: Copy, F: Copy, L: Copy> ScopeAnalyzer<E, B, P, S, F, L> {
    /// Whether every history is laid out as the configuration asks.
    pub open spec fn is_valid(self) -> bool {
        &&& self.correlation.is_valid()
        &&& self.waveform.is_valid()
        &&& self.waveform.limit() == self.config.waveform_buckets
        &&& self.goniometer.is_valid()
        &&& self.goniometer.limit() == self.config.goniometer_points
        &&& self.goniometer.period() == self.config.goniometer_decimation_frames
        &&& self.oscilloscope.is_valid()
        &&& self.oscilloscope.limit() == self.config.oscilloscope_frames
        &&& self.input.is_valid()
        &&& self.input.size() == self.config.fft_size
        &&& self.input.hop_frames() == self.config.fft_hop_frames
        &&& self.spectrogram.is_valid()
        &&& self.spectrogram.limit() == self.config.spectrogram_rows
        &&& self.spectrogram.row_width() == self.config.spectrum_bands
        &&& self.bit_reverse@.len() == self.config.fft_size
        &&& is_involution(self.bit_reverse@)
        &&& self.config.fft_size >= 16
        &&& self.config.max_block_frames > 0
    }

    /// Whether nothing of the spectrum is kept.
    pub open spec fn spectrum_is_clear(self) -> bool {
        &&& self.spectrogram@ == Seq::<Seq<L>>::empty()
        &&& !self.spectrum_ready
        &&& self.spectrum_frames == 0
    }

    /// Whether nothing is kept at all.
    pub open spec fn is_clear(self) -> bool {
        &&& self.correlation@ == Seq::<E>::empty()
        &&& self.waveform@ == Seq::<B>::empty()
        &&& self.waveform.filled() == 0
        &&& self.goniometer@ == Seq::<P>::empty()
        &&& self.goniometer.countdown() == 0
        &&& self.oscilloscope@ == Seq::<S>::empty()
        &&& self.input@ == Seq::<F>::empty()
        &&& self.input.fresh() == 0
        &&& self.spectrum_is_clear()
    }

    /// Whether everything is as before, but for the representations of the work
    /// and the count of frames.
    pub open spec fn keeps_the_rest(self, before: Self, work: ScopeWork) -> bool {
        &&& self.config == before.config
        &&& self.bit_reverse == before.bit_reverse
        &&& !work.has(correlation_task()) ==> self.correlation == before.correlation
        &&& !work.has(waveform_task()) ==> self.waveform == before.waveform
        &&& !work.has(goniometer_task()) ==> self.goniometer == before.goniometer
        &&& !work.has(oscilloscope_task()) ==> self.oscilloscope == before.oscilloscope
        &&& !work.has(spectrum_task()) ==> {
            &&& self.input == before.input
            &&& self.spectrogram == before.spectrogram
            &&& self.spectrum_ready == before.spectrum_ready
            &&& self.spectrum_frames == before.spectrum_frames
        }
    }

    /// Whether one frame was taken in with the work: it was counted, and what was
    /// not asked for is as before.
    pub open spec fn took_a_frame(self, before: Self, work: ScopeWork) -> bool {
        &&& self.processed_frames == counted(before.processed_frames)
        &&& self.keeps_the_rest(before, work)
    }

    /// Whether a frame was heard: each representation that was asked for holds the newest
    /// of what it had and of what the frame comes to.
    pub open spec fn heard(self, before: Self, frame: Frame<E, B, P, S, F>, work: ScopeWork) -> bool {
        &&& work.has(correlation_task()) ==> self.correlation@ == newest(
            before.correlation@.push(frame.energy),
            before.correlation.limit(),
        )
        &&& work.has(waveform_task()) ==> self.waveform@ == (if before.waveform.is_open() {
            before.waveform@.drop_last().push(frame.bucket)
        } else {
            newest(before.waveform@.push(frame.bucket), before.waveform.limit())
        })
        &&& work.has(goniometer_task()) ==> self.goniometer@ == (if before.goniometer.countdown()
            == 0 {
            newest(before.goniometer@.push(frame.point), before.goniometer.limit())
        } else {
            before.goniometer@
        })
        &&& work.has(oscilloscope_task()) ==> self.oscilloscope@ == newest(
            before.oscilloscope@.push(frame.sample),
            before.oscilloscope.limit(),
        )
        &&& work.has(spectrum_task()) ==> self.input@ == newest(
            before.input@.push(frame.input),
            before.input.size(),
        )
    }

    /// Whether the representations of the work were cleared and nothing else was
    /// touched.
    pub open spec fn was_cleared(self, before: Self, work: ScopeWork) -> bool {
        &&& self.keeps_the_rest(before, work)
        &&& self.processed_frames == before.processed_frames
        &&& self.correlation.limit() == before.correlation.limit()
        &&& self.correlation.blank_item() == before.correlation.blank_item()
        &&& self.waveform.width() == before.waveform.width()
        &&& self.oscilloscope.blank_item() == before.oscilloscope.blank_item()
        &&& work.has(correlation_task()) ==> self.correlation@ == Seq::<E>::empty()
        &&& work.has(waveform_task()) ==> self.waveform@ == Seq::<B>::empty()
            && self.waveform.filled() == 0
        &&& work.has(goniometer_task()) ==> self.goniometer@ == Seq::<P>::empty()
            && self.goniometer.countdown() == 0
        &&& work.has(oscilloscope_task()) ==> self.oscilloscope@ == Seq::<S>::empty()
        &&& work.has(spectrum_task()) ==> {
            &&& self.input@ == Seq::<F>::empty()
            &&& self.input.fresh() == 0
            &&& self.spectrum_is_clear()
        }
    }

    /// Whether nothing is kept or counted any more, and everything is laid out as
    /// before.
    pub open spec fn was_reset(self, before: Self) -> bool {
        &&& self.is_clear()
        &&& self.processed_frames == 0
        &&& self.config == before.config
        &&& self.bit_reverse == before.bit_reverse
        &&& self.correlation.limit() == before.correlation.limit()
        &&& self.correlation.blank_item() == before.correlation.blank_item()
        &&& self.waveform.width() == before.waveform.width()
        &&& self.oscilloscope.blank_item() == before.oscilloscope.blank_item()
    }

    /// A spectrum that is finished belongs to the frame that made it due: with it,
    /// one frame was taken in, and no more.
    pub proof fn finishing_a_spectrum_counts_no_frame(
        before: Self,
        taken: Self,
        finished: Self,
        work: ScopeWork,
    )
        requires
            taken.took_a_frame(before, work),
            work.has(spectrum_task()),
            finished == (ScopeAnalyzer {
                spectrogram: finished.spectrogram,
                spectrum_ready: finished.spectrum_ready,
                spectrum_frames: finished.spectrum_frames,
                ..taken
            }),
        ensures
            finished.took_a_frame(before, work),
    {
    }

    /// A block advances the count by as many frames as it has, up to the largest
    /// count, and leaves every representation that was not asked for as it was.
    /// The states are those in front of the block and behind each of its frames.
    pub proof fn a_block_counts_its_frames(states: Seq<Self>, work: ScopeWork)
        requires
            states.len() > 0,
            forall|i: int|
                #![trigger states[i]]
                0 < i < states.len() ==> states[i].took_a_frame(states[i - 1], work),
        ensures
            states.last().keeps_the_rest(states[0], work),
            states.last().processed_frames == (if states[0].processed_frames + states.len() - 1
                <= u64::MAX {
                states[0].processed_frames + states.len() - 1
            } else {
                u64::MAX as int
            }),
        decreases states.len(),
    {
        if states.len() > 1 {
            let earlier = states.drop_last();
            assert forall|i: int|
                #![trigger earlier[i]]
                0 < i < earlier.len() implies earlier[i].took_a_frame(earlier[i - 1], work) by {
                assert(earlier[i] == states[i]);
                assert(earlier[i - 1] == states[i - 1]);
            }
            Self::a_block_counts_its_frames(earlier, work);
            assert(states.last() == states[states.len() - 1]);
            assert(earlier.last() == states[states.len() - 2]);
        }
    }

    /// Allocates every fixed buffer required by `config`.
    pub fn new(
        config: ScopeConfig,
        timing: ScopeTiming,
        blanks: Blanks<E, B, P, S, F, L>,
    ) -> (result: Result<Self, ScopeConfigError>)
        requires
            timing.correlation_frames is Some ==> timing.correlation_frames->0 > 0,
            timing.waveform_frames is Some ==> timing.waveform_frames->0 > 0,
        ensures
            match result {
                Ok(scope) => {
                    &&& config.problem(timing) is None
                    &&& scope.is_valid()
                    &&& scope.is_clear()
                    &&& scope.config == config
                    &&& scope.processed_frames == 0
                    &&& scope.correlation.limit() == timing.correlation_frames->0
                    &&& scope.correlation.blank_item() == blanks.energy
                    &&& scope.oscilloscope.blank_item() == blanks.sample
                    &&& scope.waveform.width() == (timing.waveform_frames->0
                        + config.waveform_buckets - 1) / config.waveform_buckets as int
                    &&& exists|digits: nat|
                        #![trigger vstd::arithmetic::power2::pow2(digits)]
                        vstd::arithmetic::power2::pow2(digits) == config.fft_size && forall|i: int|
                            0 <= i < config.fft_size ==> #[trigger] scope.bit_reverse@[i]
                                == reversed(i as nat, digits)
                },
                Err(problem) => config.problem(timing) == Some(problem),
            },
    {
        let derived = match config.validate(timing) {
            Ok(derived) => derived,
            Err(problem) => {
                return Err(problem);
            },
        };
        let digits: u32 = match binary_logarithm(config.fft_size) {
            Some(digits) => digits,
            None => {
                return Err(ScopeConfigError::InvalidFftSize);
            },
        };
        let ghost width = derived.waveform_frames_per_bucket as int;
        proof {
            let buckets = config.waveform_buckets as int;
            let frames = timing.waveform_frames->0 + buckets - 1;
            vstd::arithmetic::div_mod::lemma_div_non_zero(frames, buckets);
            assert(width > 0);
        }
        Ok(
            ScopeAnalyzer {
                config,
                correlation: History::new(derived.correlation_frames, blanks.energy),
                waveform: Envelope::new(
                    config.waveform_buckets,
                    derived.waveform_frames_per_bucket,
                    blanks.bucket,
                ),
                goniometer: Decimated::new(
                    config.goniometer_points,
                    config.goniometer_decimation_frames,
                    blanks.point,
                ),
                oscilloscope: History::new(config.oscilloscope_frames, blanks.sample),
                input: SpectrumInput::new(config.fft_size, config.fft_hop_frames, blanks.input),
                spectrogram: RowHistory::new(
                    config.spectrogram_rows,
                    config.spectrum_bands,
                    blanks.level,
                ),
                bit_reverse: bit_reversal(config.fft_size, digits),
                spectrum_ready: false,
                spectrum_frames: 0,
                processed_frames: 0,
            },
        )
    }

    /// Checks the lengths of a stereo block before any of it is taken in.
    pub fn check_block(&self, left: usize, right: usize) -> (result: Result<(), ScopeProcessError>)
        ensures
            match result {
                Ok(()) => block_problem(
                    left as nat,
                    right as nat,
                    self.config.max_block_frames,
                ) is None,
                Err(problem) => block_problem(
                    left as nat,
                    right as nat,
                    self.config.max_block_frames,
                ) == Some(problem),
            },
    {
        validate_block(left, right, self.config.max_block_frames)
    }

    /// Takes one frame in with the selected work. Every frame advances the
    /// total; representations that are not selected keep what they have.
    pub fn push_frame(&mut self, frame: &Frame<E, B, P, S, F>, work: ScopeWork) -> (outcome:
        FrameOutcome<E>)
        requires
            old(self).is_valid(),
        ensures
            final(self).is_valid(),
            final(self).config == old(self).config,
            final(self).bit_reverse == old(self).bit_reverse,
            final(self).processed_frames == counted(old(self).processed_frames),
            final(self).took_a_frame(*old(self), work),
            final(self).heard(*old(self), *frame, work),
            final(self).spectrum_ready == old(self).spectrum_ready,
            final(self).spectrum_frames == old(self).spectrum_frames,
            final(self).spectrogram == old(self).spectrogram,
            if work.has(correlation_task()) {
                &&& final(self).correlation@ == newest(
                    old(self).correlation@.push(frame.energy),
                    old(self).correlation.limit(),
                )
                &&& final(self).correlation.limit() == old(self).correlation.limit()
                &&& final(self).correlation.blank_item() == old(self).correlation.blank_item()
                &&& outcome.outgoing == Some(
                    if old(self).correlation@.len() == old(self).correlation.limit() {
                        old(self).correlation@[0]
                    } else {
                        old(self).correlation.blank_item()
                    },
                )
            } else {
                final(self).correlation == old(self).correlation && outcome.outgoing is None
            },
            if work.has(waveform_task()) {
                &&& final(self).waveform.width() == old(self).waveform.width()
                &&& if old(self).waveform.is_open() {
                    &&& final(self).waveform@ == old(self).waveform@.drop_last().push(frame.bucket)
                    &&& final(self).waveform.filled() == old(self).waveform.filled() + 1
                } else {
                    &&& final(self).waveform@ == newest(
                        old(self).waveform@.push(frame.bucket),
                        old(self).waveform.limit(),
                    )
                    &&& final(self).waveform.filled() == 1
                }
            } else {
                final(self).waveform == old(self).waveform
            },
            if work.has(goniometer_task()) {
                &&& final(self).goniometer@ == (if old(self).goniometer.countdown() == 0 {
                    newest(
                        old(self).goniometer@.push(frame.point),
                        old(self).goniometer.limit(),
                    )
                } else {
                    old(self).goniometer@
                })
                &&& final(self).goniometer.countdown() == countdown_after(
                    old(self).goniometer.countdown(),
                    old(self).goniometer.period(),
                )
            } else {
                final(self).goniometer == old(self).goniometer
            },
            if work.has(oscilloscope_task()) {
                &&& final(self).oscilloscope@ == newest(
                    old(self).oscilloscope@.push(frame.sample),
                    old(self).oscilloscope.limit(),
                )
                &&& final(self).oscilloscope.blank_item() == old(self).oscilloscope.blank_item()
            } else {
                final(self).oscilloscope == old(self).oscilloscope
            },
            if work.has(spectrum_task()) {
                &&& final(self).input@ == newest(
                    old(self).input@.push(frame.input),
                    old(self).input.size(),
                )
                &&& final(self).input.fresh() == fresh_after(
                    old(self).input@.len() as int,
                    old(self).input.fresh(),
                    old(self).input.size(),
                    old(self).input.hop_frames(),
                )
                &&& outcome.spectrum_due == analysis_due(
                    old(self).input@.len() as int,
                    old(self).input.fresh(),
                    old(self).input.size(),
                    old(self).input.hop_frames(),
                )
            } else {
                final(self).input == old(self).input && !outcome.spectrum_due
            },
    {
        let outgoing = if work.does(0) {
            Some(self.correlation.push(frame.energy))
        } else {
            None
        };
        if work.does(1) {
            self.waveform.push(frame.bucket);
        }
        if work.does(2) {
            self.goniometer.push(frame.point);
        }
        if work.does(3) {
            self.oscilloscope.push(frame.sample);
        }
        let spectrum_due = if work.does(4) {
            self.input.push(frame.input)
        } else {
            false
        };
        if self.processed_frames < u64::MAX {
            self.processed_frames = self.processed_frames + 1;
        }
        FrameOutcome { outgoing, spectrum_due }
    }

    /// Puts windowed input into the order in which the transform takes it.
    pub fn arrange_input<C: Copy>(&self, windowed: &[C], work: &mut [C])
        requires
            self.is_valid(),
            windowed@.len() == self.config.fft_size,
            old(work)@.len() == self.config.fft_size,
        ensures
            final(work)@.len() == old(work)@.len(),
            forall|i: int|
                0 <= i < windowed@.len() ==> #[trigger] final(work)@[i]
                    == windowed@[self.bit_reverse@[i] as int],
    {
        scatter(windowed, self.bit_reverse.as_slice(), work);
    }

    /// Keeps a finished spectrum as the newest row.
    pub fn finish_spectrum(&mut self, levels: &[L])
        requires
            old(self).is_valid(),
            levels@.len() == old(self).config.spectrum_bands,
        ensures
            final(self).is_valid(),
            final(self).spectrogram@ == newest(
                old(self).spectrogram@.push(levels@),
                old(self).config.spectrogram_rows as int,
            ),
            final(self).spectrum_ready,
            final(self).spectrum_frames == counted(old(self).spectrum_frames),
            *final(self) == (ScopeAnalyzer {
                spectrogram: final(self).spectrogram,
                spectrum_ready: final(self).spectrum_ready,
                spectrum_frames: final(self).spectrum_frames,
                ..*old(self)
            }),
    {
        self.spectrogram.push(levels);
        self.spectrum_ready = true;
        if self.spectrum_frames < u64::MAX {
            self.spectrum_frames = self.spectrum_frames + 1;
        }
    }

    /// Changes display spectrum grouping without allocating fixed storage, and
    /// tells whether it did.
    ///
    /// Existing display spectrum and spectrogram rows refer to previous band
    /// edges, so this clears that display history. FFT input history remains
    /// intact and produces a fresh row at its next scheduled hop.
    pub fn set_spectrum_scale(&mut self, scale: SpectrumScale) -> (changed: bool)
        requires
            old(self).is_valid(),
        ensures
            final(self).is_valid(),
            changed == (old(self).config.spectrum_scale != scale),
            !changed ==> *final(self) == *old(self),
            changed ==> final(self).spectrum_is_clear() && *final(self) == (ScopeAnalyzer {
                config: ScopeConfig { spectrum_scale: scale, ..old(self).config },
                spectrogram: final(self).spectrogram,
                spectrum_ready: false,
                spectrum_frames: 0,
                ..*old(self)
            }),
    {
        if self.config.spectrum_scale == scale {
            return false;
        }
        self.config.spectrum_scale = scale;
        self.clear_spectrum_history();
        true
    }

    /// Forgets the display spectrum and its rows.
    pub fn clear_spectrum_history(&mut self)
        requires
            old(self).is_valid(),
        ensures
            final(self).is_valid(),
            final(self).spectrum_is_clear(),
            *final(self) == (ScopeAnalyzer {
                spectrogram: final(self).spectrogram,
                spectrum_ready: false,
                spectrum_frames: 0,
                ..*old(self)
            }),
    {
        self.spectrogram.reset();
        self.spectrum_ready = false;
        self.spectrum_frames = 0;
    }

    /// Clears selected retained representations without allocating.
    ///
    /// Use this when a hidden module becomes visible again: it prevents old
    /// waveform, scope, goniometer, or spectrum history from masquerading as
    /// fresh analysis while leaving other enabled modules uninterrupted.
    /// Global accepted-frame duration is intentionally preserved.
    pub fn reset_work(&mut self, work: ScopeWork)
        requires
            old(self).is_valid(),
        ensures
            final(self).is_valid(),
            final(self).was_cleared(*old(self), work),
    {
        if work.does(0) {
            self.correlation.reset();
        }
        if work.does(1) {
            self.waveform.reset();
        }
        if work.does(2) {
            self.goniometer.reset();
        }
        if work.does(3) {
            self.oscilloscope.reset();
        }
        if work.does(4) {
            self.input.reset();
            self.clear_spectrum_history();
        }
    }

    /// Clears accumulated state while retaining all fixed allocations.
    pub fn reset(&mut self)
        requires
            old(self).is_valid(),
        ensures
            final(self).is_valid(),
            final(self).was_reset(*old(self)),
    {
        self.reset_work(ScopeWork::all());
        self.processed_frames = 0;
    }

    /// Number of waveform buckets currently available, oldest first.
    pub fn waveform_bucket_count(&self) -> (count: usize)
        requires
            self.is_valid(),
        ensures
            count == self.waveform@.len(),
    {
        self.waveform.len()
    }

    /// Returns one waveform bucket by chronological index, oldest first.
    pub fn waveform_bucket(&self, chronological_index: usize) -> (bucket: Option<B>)
        requires
            self.is_valid(),
        ensures
            bucket == (if chronological_index < self.waveform@.len() {
                Some(self.waveform@[chronological_index as int])
            } else {
                None
            }),
    {
        self.waveform.get(chronological_index)
    }

    /// Copies most recent waveform buckets into `destination`, oldest first.
    pub fn copy_waveform_buckets(&self, destination: &mut [B]) -> (amount: usize)
        requires
            self.is_valid(),
        ensures
            final(destination)@.len() == old(destination)@.len(),
            amount == newest(self.waveform@, old(destination)@.len() as int).len(),
            final(destination)@.take(amount as int) == newest(
                self.waveform@,
                old(destination)@.len() as int,
            ),
            forall|i: int|
                amount <= i < old(destination)@.len() ==> #[trigger] final(destination)@[i]
                    == old(destination)@[i],
    {
        self.waveform.copy_newest(destination)
    }

    /// Number of goniometer points currently available, oldest first.
    pub fn goniometer_point_count(&self) -> (count: usize)
        requires
            self.is_valid(),
        ensures
            count == self.goniometer@.len(),
    {
        self.goniometer.len()
    }

    /// Returns one goniometer point by chronological index, oldest first.
    pub fn goniometer_point(&self, chronological_index: usize) -> (point: Option<P>)
        requires
            self.is_valid(),
        ensures
            point == (if chronological_index < self.goniometer@.len() {
                Some(self.goniometer@[chronological_index as int])
            } else {
                None
            }),
    {
        self.goniometer.get(chronological_index)
    }

    /// Copies most recent goniometer points into `destination`, oldest first.
    pub fn copy_goniometer_points(&self, destination: &mut [P]) -> (amount: usize)
        requires
            self.is_valid(),
        ensures
            final(destination)@.len() == old(destination)@.len(),
            amount == newest(self.goniometer@, old(destination)@.len() as int).len(),
            final(destination)@.take(amount as int) == newest(
                self.goniometer@,
                old(destination)@.len() as int,
            ),
            forall|i: int|
                amount <= i < old(destination)@.len() ==> #[trigger] final(destination)@[i]
                    == old(destination)@[i],
    {
        self.goniometer.copy_newest(destination)
    }

    /// Number of original oscilloscope frames currently retained.
    pub fn oscilloscope_frame_count(&self) -> (count: usize)
        requires
            self.is_valid(),
        ensures
            count == self.oscilloscope@.len(),
    {
        self.oscilloscope.len()
    }

    /// Copies the frames of a bounded oscilloscope trace into caller-owned
    /// storage: for each point the two frames between which it lies. Tells how
    /// many points there are and how many frames they are spread over.
    ///
    /// `Free` shows newest chronological audio. `Pitch` shows one or up to three
    /// complete periods of the trigger `levels`. Silence, for which there are no
    /// levels, DC, short buffers, and untriggerable material fall back to newest
    /// chronological audio.
    pub fn copy_oscilloscope(
        &self,
        destination: &mut [(S, S)],
        levels: Option<&[TriggerLevel]>,
        mode: OscilloscopeMode,
        cycles: OscilloscopeCycles,
    ) -> (copied: (usize, usize))
        requires
            self.is_valid(),
            levels is Some ==> levels->0@.len() == self.oscilloscope@.len(),
        ensures
            final(destination)@.len() == old(destination)@.len(),
            copied.0 == (if old(destination)@.len() < self.oscilloscope@.len() {
                old(destination)@.len()
            } else {
                self.oscilloscope@.len()
            }),
            ({
                let window = shown_window(
                    mode,
                    self.oscilloscope@.len() as int,
                    copied.0 as int,
                    match levels {
                        Some(levels) => pitch_window(levels@, cycles),
                        None => None,
                    },
                );
                &&& copied.1 == (if copied.0 == 0 {
                    0
                } else {
                    window.1
                })
                &&& forall|i: int|
                    #![trigger final(destination)@[i]]
                    0 <= i < copied.0 ==> {
                        let pair = places(i, copied.0 as int, window.1);
                        final(destination)@[i] == (
                            self.oscilloscope@[window.0 + pair.0],
                            self.oscilloscope@[window.0 + pair.1],
                        )
                    }
            }),
            forall|i: int|
                copied.0 <= i < old(destination)@.len() ==> #[trigger] final(destination)@[i]
                    == old(destination)@[i],
    {
        let ghost before = destination@;
        let count: usize = self.oscilloscope.len();
        let amount: usize = if destination.len() < count {
            destination.len()
        } else {
            count
        };
        if amount == 0 {
            return (0, 0);
        }
        let triggered = match levels {
            Some(levels) => pitch_oscilloscope_window(levels, cycles),
            None => None,
        };
        let window = oscilloscope_window(mode, count, amount, triggered);
        let start: usize = window.0;
        let frames: usize = window.1;
        assert(start + frames <= count);
        let mut index: usize = 0;
        while index < amount
            invariant
                self.is_valid(),
                index <= amount <= count,
                0 < frames,
                start + frames <= count,
                count == self.oscilloscope@.len(),
                destination@.len() == before.len(),
                amount <= before.len(),
                forall|i: int|
                    #![trigger destination@[i]]
                    0 <= i < index ==> {
                        let pair = places(i, amount as int, frames as int);
                        destination@[i] == (
                            self.oscilloscope@[start + pair.0],
                            self.oscilloscope@[start + pair.1],
                        )
                    },
                forall|i: int| index <= i < before.len() ==> #[trigger] destination@[i] == before[i],
            decreases amount - index,
        {
            let pair: (usize, usize) = if amount > 1 && frames > 1 {
                neighbours(index, amount, frames)
            } else {
                (0, 0)
            };
            if let (Some(first), Some(second)) = (
                self.oscilloscope.get(start + pair.0),
                self.oscilloscope.get(start + pair.1),
            ) {
                destination[index] = (first, second);
            }
            index = index + 1;
        }
        (amount, frames)
    }

    /// Number of complete FFT frames produced since construction or reset.
    pub fn spectrum_frame_count(&self) -> (count: u64)
        ensures
            count == self.spectrum_frames,
    {
        self.spectrum_frames
    }

    /// Number of retained spectrogram rows, oldest first.
    pub fn spectrogram_row_count(&self) -> (count: usize)
        requires
            self.is_valid(),
        ensures
            count == self.spectrogram@.len(),
    {
        self.spectrogram.len()
    }

    /// Number of bands in every spectrogram row.
    pub fn spectrogram_band_count(&self) -> (count: usize)
        requires
            self.is_valid(),
        ensures
            count == self.config.spectrum_bands,
    {
        self.spectrogram.width()
    }

    /// Returns one spectrogram row by chronological index, oldest first.
    pub fn spectrogram_row(&self, chronological_index: usize) -> (row: Option<&[L]>)
        requires
            self.is_valid(),
        ensures
            match row {
                Some(levels) => chronological_index < self.spectrogram@.len() && levels@
                    == self.spectrogram@[chronological_index as int] && levels@.len()
                    == self.config.spectrum_bands,
                None => chronological_index >= self.spectrogram@.len(),
            },
    {
        self.spectrogram.row(chronological_index)
    }

    /// Configured maximum accepted input block length.
    pub fn max_block_frames(&self) -> (frames: usize)
        ensures
            frames == self.config.max_block_frames,
    {
        self.config.max_block_frames
    }

    /// FFT size used by current spectrum analyzer.
    pub fn fft_size(&self) -> (size: usize)
        ensures
            size == self.config.fft_size,
    {
        self.config.fft_size
    }

    /// Returns current display spectrum grouping.
    pub fn spectrum_scale(&self) -> (scale: SpectrumScale)
        ensures
            scale == self.config.spectrum_scale,
    {
        self.config.spectrum_scale
    }
}

/// Clearing takes everything out of the representations that were asked for, as if they
/// had never heard anything, and touches no other; the count of frames goes on.
pub proof fn clearing_touches_what_was_asked<E: Copy, B: Copy, P: Copy, S: Copy, F: Copy, L: Copy>(
    before: ScopeAnalyzer<E, B, P, S, F, L>,
    after: ScopeAnalyzer<E, B, P, S, F, L>,
    work: ScopeWork,
)
    requires
        after.was_cleared(before, work),
    ensures
        after.processed_frames == before.processed_frames,
        work.has(0) ==> after.correlation@.len() == 0,
        !work.has(0) ==> after.correlation == before.correlation,
        work.has(1) ==> after.waveform@.len() == 0 && !after.waveform.is_open(),
        !work.has(1) ==> after.waveform == before.waveform,
        work.has(2) ==> after.goniometer@.len() == 0 && after.goniometer.countdown() == 0,
        !work.has(2) ==> after.goniometer == before.goniometer,
        work.has(3) ==> after.oscilloscope@.len() == 0,
        !work.has(3) ==> after.oscilloscope == before.oscilloscope,
        work.has(4) ==> after.input@.len() == 0 && after.input.fresh() == 0
            && after.spectrogram@.len() == 0 && !after.spectrum_ready && after.spectrum_frames == 0,
        !work.has(4) ==> after.input == before.input && after.spectrogram == before.spectrogram
            && after.spectrum_ready == before.spectrum_ready && after.spectrum_frames
            == before.spectrum_frames,
        after.config == before.config,
{
}

/// A reset takes everything out and counts from zero, with the same configuration.
pub proof fn resets_forget_everything<E: Copy, B: Copy, P: Copy, S: Copy, F: Copy, L: Copy>(
    before: ScopeAnalyzer<E, B, P, S, F, L>,
    after: ScopeAnalyzer<E, B, P, S, F, L>,
)
    requires
        after.was_reset(before),
    ensures
        after.processed_frames == 0,
        after.correlation@.len() == 0,
        after.waveform@.len() == 0 && !after.waveform.is_open(),
        after.goniometer@.len() == 0 && after.goniometer.countdown() == 0,
        after.oscilloscope@.len() == 0,
        after.input@.len() == 0 && after.input.fresh() == 0,
        after.spectrogram@.len() == 0 && !after.spectrum_ready && after.spectrum_frames == 0,
        after.config == before.config,
{
}

/// A frame reaches the representations that were asked for and no other, and is counted
/// once whatever was asked for.
pub proof fn frames_reach_what_was_asked<E: Copy, B: Copy, P: Copy, S: Copy, F: Copy, L: Copy>(
    before: ScopeAnalyzer<E, B, P, S, F, L>,
    after: ScopeAnalyzer<E, B, P, S, F, L>,
    work: ScopeWork,
)
    requires
        after.took_a_frame(before, work),
    ensures
        before.processed_frames < u64::MAX ==> after.processed_frames == before.processed_frames + 1,
        !work.has(0) ==> after.correlation == before.correlation,
        !work.has(1) ==> after.waveform == before.waveform,
        !work.has(2) ==> after.goniometer == before.goniometer,
        !work.has(3) ==> after.oscilloscope == before.oscilloscope,
        !work.has(4) ==> after.input == before.input && after.spectrogram == before.spectrogram
            && after.spectrum_ready == before.spectrum_ready && after.spectrum_frames
            == before.spectrum_frames,
{
}

/// What a frame comes to stands last in every representation that was asked for: its
/// energies, its samples and its mid sample at once, its bucket as the newest, and its
/// point where one is due.
pub proof fn new_frames_come_last<E: Copy, B: Copy, P: Copy, S: Copy, F: Copy, L: Copy>(
    before: ScopeAnalyzer<E, B, P, S, F, L>,
    after: ScopeAnalyzer<E, B, P, S, F, L>,
    frame: Frame<E, B, P, S, F>,
    work: ScopeWork,
)
    requires
        after.heard(before, frame, work),
        before.correlation.limit() > 0,
        before.waveform.limit() > 0,
        before.goniometer.limit() > 0,
        before.oscilloscope.limit() > 0,
        before.input.size() > 0,
    ensures
        work.has(0) ==> after.correlation@.len() > 0 && after.correlation@.last() == frame.energy,
        work.has(1) ==> after.waveform@.len() > 0 && after.waveform@.last() == frame.bucket,
        work.has(2) && before.goniometer.countdown() == 0 ==> after.goniometer@.len() > 0
            && after.goniometer@.last() == frame.point,
        work.has(2) && before.goniometer.countdown() != 0 ==> after.goniometer@
            == before.goniometer@,
        work.has(3) ==> after.oscilloscope@.len() > 0 && after.oscilloscope@.last()
            == frame.sample,
        work.has(4) ==> after.input@.len() > 0 && after.input@.last() == frame.input,
{
}

} // verus!
