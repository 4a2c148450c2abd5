//! The loudness meter as a whole: what it is built with, which audio it takes,
//! and what it keeps of the programme.
use crate::meter::errors::{ConfigError, ProcessError};
use crate::meter::histogram::{
    HistogramBin, HistogramSpan, LoudnessHistogram, LoudnessHistogramKind, HISTOGRAM_BINS,
};
use crate::meter::histogram::{counted, span_start};
use crate::meter::window::{block_due, leaving, EnergyStep, EnergyWindow};
use crate::scope::history::{newest, newest_of_longer_stream};
use vstd::prelude::*;

verus! {

/// How much history a meter has room for when nothing else is asked: twelve
/// hours, in seconds.
pub const DEFAULT_HISTORY_SECONDS: usize = 43_200;

/// What the rate and the weights of a meter come to.
#[derive(Clone, Copy, Debug, PartialEq, Eq)]
pub struct MeterTiming {
    /// Whether the sample rate is finite and at least 8 kHz.
    pub sample_rate_valid: bool,
    /// Whether every channel weight is finite and not negative.
    pub weights_valid: bool,
    /// Frames in 400 ms, where there is at least one and they can be counted.
    pub momentary_frames: Option<usize>,
    /// Frames in 3 s, where there is at least one and they can be counted.
    pub short_term_frames: Option<usize>,
    /// Frames in 100 ms, where there is at least one and they can be counted.
    pub step_frames: Option<usize>,
}

impl MeterTiming {
    /// Whether the counts can be those of one rate: none is zero, and the
    /// shorter window has no more frames than the longer one.
    pub open spec fn is_consistent(self) -> bool {
        &&& self.momentary_frames matches Some(frames) ==> frames > 0
        &&& self.short_term_frames matches Some(frames) ==> frames > 0
        &&& self.step_frames matches Some(frames) ==> frames > 0
        &&& self.momentary_frames is Some && self.short_term_frames is Some
            ==> self.momentary_frames->0 <= self.short_term_frames->0
    }

    /// Whether every window can be counted in frames.
    pub open spec fn is_countable(self) -> bool {
        &&& self.momentary_frames is Some
        &&& self.short_term_frames is Some
        &&& self.step_frames is Some
    }
}

/// Why no meter can be built.
pub open spec fn meter_problem(
    timing: MeterTiming,
    channels: usize,
    max_block_frames: usize,
    max_history_seconds: usize,
) -> Option<ConfigError> {
    if !timing.sample_rate_valid {
        Some(ConfigError::InvalidSampleRate)
    } else if channels == 0 {
        Some(ConfigError::NoChannels)
    } else if !timing.weights_valid {
        Some(ConfigError::InvalidChannelWeight)
    } else if max_block_frames == 0 {
        Some(ConfigError::InvalidBlockSize)
    } else if max_history_seconds == 0 {
        Some(ConfigError::InvalidHistoryDuration)
    } else if !timing.is_countable() {
        Some(ConfigError::InvalidSampleRate)
    } else if max_history_seconds * 10 + 1 > usize::MAX {
        Some(ConfigError::InvalidHistoryDuration)
    } else {
        None
    }
}

/// Why a block with channels of these lengths is refused.
pub open spec fn shape_problem<T>(
    channels: Seq<&[T]>,
    expected: usize,
    maximum: usize,
) -> Option<ProcessError> {
    if channels.len() != expected || channels.len() == 0 {
        Some(ProcessError::ChannelCount { expected, actual: channels.len() as usize })
    } else if channels[0]@.len() > maximum {
        Some(ProcessError::BlockTooLarge { maximum, actual: channels[0]@.len() as usize })
    } else if exists|i: int|
        0 <= i < channels.len() && (#[trigger] channels[i])@.len() != channels[0]@.len() {
        Some(ProcessError::UnevenChannels)
    } else {
        None
    }
}

/// What is left of a stream of blocks where there is room for `limit`: the
/// first ones.
pub open spec fn kept_blocks<E>(stream: Seq<E>, limit: int) -> Seq<E> {
    if stream.len() <= limit {
        stream
    } else {
        stream.take(limit)
    }
}

/// How a block is filed in a histogram: its bin, and the energies that the bin
/// and the whole have with it.
#[derive(Clone, Copy, Debug, PartialEq, Eq)]
pub struct Filing<E> {
    pub slot: usize,
    pub bin_energy: E,
    pub absolute_sum: E,
}

/// Realtime-safe BS.1770/EBU R128 measurement engine.
#[derive(Debug)]
pub struct LoudnessMeter<E> {
    channels: usize,
    max_block_frames: usize,
    window: EnergyWindow<E>,
    integrated_blocks: Vec<E>,
    short_term_blocks: Vec<E>,
    integrated_histogram: LoudnessHistogram<E>,
    short_term_histogram: LoudnessHistogram<E>,
    max_history_blocks: usize,
    history_complete: bool,
}

impl<E: Copy> LoudnessMeter<E> {
    /// Whether windows, histograms and histories agree with their limits.
    pub closed spec fn is_valid(self) -> bool {
        &&& 0 < self.channels
        &&& 0 < self.max_block_frames
        &&& self.window.is_valid()
        &&& self.integrated_histogram.is_valid()
        &&& self.short_term_histogram.is_valid()
        &&& self.integrated_blocks@.len() <= self.max_history_blocks
        &&& self.short_term_blocks@.len() <= self.max_history_blocks
    }

    /// How many channels there are.
    pub closed spec fn channel_total(self) -> usize {
        self.channels
    }

    /// How many frames a block may have.
    pub closed spec fn block_limit(self) -> usize {
        self.max_block_frames
    }

    /// How many blocks of each series there is room for.
    pub closed spec fn history_limit(self) -> int {
        self.max_history_blocks as int
    }

    /// The energies of the windows.
    pub closed spec fn energies(self) -> EnergyWindow<E> {
        self.window
    }

    /// The blocks of a series that are kept.
    pub closed spec fn series(self, kind: LoudnessHistogramKind) -> Seq<E> {
        match kind {
            LoudnessHistogramKind::Integrated => self.integrated_blocks@,
            LoudnessHistogramKind::ShortTerm => self.short_term_blocks@,
        }
    }

    /// The distribution of a series.
    pub closed spec fn distribution(self, kind: LoudnessHistogramKind) -> LoudnessHistogram<E> {
        match kind {
            LoudnessHistogramKind::Integrated => self.integrated_histogram,
            LoudnessHistogramKind::ShortTerm => self.short_term_histogram,
        }
    }

    /// Whether no block has been left out of the kept series.
    pub closed spec fn is_complete(self) -> bool {
        self.history_complete
    }

    /// Whether two meters are built alike.
    pub open spec fn same_limits(self, other: Self) -> bool {
        &&& self.channel_total() == other.channel_total()
        &&& self.block_limit() == other.block_limit()
        &&& self.history_limit() == other.history_limit()
        &&& self.energies().momentary() == other.energies().momentary()
        &&& self.energies().short_term() == other.energies().short_term()
        &&& self.energies().step() == other.energies().step()
        &&& forall|kind: LoudnessHistogramKind| #[trigger]
            self.distribution(kind).blank_energy() == other.distribution(kind).blank_energy()
    }

    /// Whether nothing has been measured yet.
    pub open spec fn is_clear(self) -> bool {
        &&& self.energies()@ == Seq::<E>::empty()
        &&& self.energies().count() == 0
        &&& self.is_complete()
        &&& forall|kind: LoudnessHistogramKind|
            {
                &&& #[trigger] self.series(kind) == Seq::<E>::empty()
                &&& self.distribution(kind).blocks() == 0
                &&& self.distribution(kind).sum() == self.distribution(kind).blank_energy()
                &&& forall|i: int|
                    0 <= i < HISTOGRAM_BINS ==> #[trigger] self.distribution(kind)@[i] == (
                    HistogramBin { count: 0, energy: self.distribution(kind).blank_energy() })
            }
    }

    /// Whether one energy was taken in: it was counted, and the windows hold the
    /// newest energies with it.
    pub open spec fn took_an_energy(self, before: Self, energy: E) -> bool {
        &&& self.same_limits(before)
        &&& self.energies().count() == before.energies().count() + 1
        &&& self.energies()@ == newest(
            before.energies()@.push(energy),
            before.energies().short_term(),
        )
    }

    /// A block that is recorded belongs to the energy that made it due: with it,
    /// one energy was taken in, and no more.
    pub proof fn recording_counts_no_energy(before: Self, taken: Self, recorded: Self, energy: E)
        requires
            taken.took_an_energy(before, energy),
            recorded.same_limits(taken),
            recorded.energies() == taken.energies(),
        ensures
            recorded.took_an_energy(before, energy),
    {
    }

    /// A block of energies advances the count by as many as it has, and leaves in
    /// the windows the newest energies of everything so far. The states are those
    /// in front of the block and behind each of its energies, with what was
    /// recorded there.
    pub proof fn a_block_counts_its_energies(states: Seq<Self>, energies: Seq<E>)
        requires
            states.len() == energies.len() + 1,
            states[0].is_valid(),
            forall|i: int|
                #![trigger energies[i]]
                0 <= i < energies.len() ==> states[i + 1].took_an_energy(states[i], energies[i]),
        ensures
            states.last().same_limits(states[0]),
            states.last().energies().count() == states[0].energies().count() + energies.len(),
            states.last().energies()@ == newest(
                states[0].energies()@ + energies,
                states[0].energies().short_term(),
            ),
        decreases energies.len(),
    {
        states[0].energies().keeps_what_fits();
        if energies.len() == 0 {
            assert(states[0].energies()@ + energies =~= states[0].energies()@);
        } else {
            let earlier = states.drop_last();
            let fewer = energies.drop_last();
            assert forall|i: int|
                #![trigger fewer[i]]
                0 <= i < fewer.len() implies earlier[i + 1].took_an_energy(earlier[i], fewer[i]) by {
                assert(fewer[i] == energies[i]);
                assert(earlier[i] == states[i]);
                assert(earlier[i + 1] == states[i + 1]);
            }
            Self::a_block_counts_its_energies(earlier, fewer);
            let last = energies.len() - 1;
            assert(energies[last] == energies.last());
            assert(earlier.last() == states[last]);
            assert(states.last() == states[last + 1]);
            newest_of_longer_stream(
                states[0].energies()@ + fewer,
                energies.last(),
                states[0].energies().short_term(),
            );
            assert((states[0].energies()@ + fewer).push(energies.last()) =~= states[0].energies()@
                + energies);
        }
    }

    /// What a valid meter is made of is valid.
    pub proof fn parts_are_valid(self, kind: LoudnessHistogramKind)
        requires
            self.is_valid(),
        ensures
            self.energies().is_valid(),
            self.distribution(kind).is_valid(),
            self.series(kind).len() <= self.history_limit(),
            self.channel_total() > 0,
            self.block_limit() > 0,
    {
    }

    /// Creates a meter with twelve hours of fixed history storage.
    pub fn new(timing: MeterTiming, channels: usize, max_block_frames: usize, blank: E) -> (result:
        Result<Self, ConfigError>)
        requires
            timing.is_consistent(),
        ensures
            match result {
                Ok(meter) => {
                    &&& meter_problem(
                        timing,
                        channels,
                        max_block_frames,
                        DEFAULT_HISTORY_SECONDS,
                    ) is None
                    &&& meter.is_valid()
                    &&& meter.is_clear()
                    &&& meter.channel_total() == channels
                    &&& meter.block_limit() == max_block_frames
                    &&& meter.history_limit() == 432_001
                    &&& Some(meter.energies().momentary() as usize) == timing.momentary_frames
                    &&& Some(meter.energies().short_term() as usize) == timing.short_term_frames
                    &&& Some(meter.energies().step() as usize) == timing.step_frames
                    &&& forall|kind: LoudnessHistogramKind| #[trigger]
                        meter.distribution(kind).blank_energy() == blank
                },
                Err(problem) => meter_problem(
                    timing,
                    channels,
                    max_block_frames,
                    DEFAULT_HISTORY_SECONDS,
                ) == Some(problem),
            },
    {
        LoudnessMeter::with_history(
            timing,
            channels,
            max_block_frames,
            DEFAULT_HISTORY_SECONDS,
            blank,
        )
    }

    /// Creates a meter with an explicit maximum history duration.
    ///
    /// History is allocated here so the audio callback never grows a vector.
    /// If a programme exceeds this duration, live windows continue but the
    /// history is no longer complete and new blocks are kept only in the
    /// histograms.
    pub fn with_history(
        timing: MeterTiming,
        channels: usize,
        max_block_frames: usize,
        max_history_seconds: usize,
        blank: E,
    ) -> (result: Result<Self, ConfigError>)
        requires
            timing.is_consistent(),
        ensures
            match result {
                Ok(meter) => {
                    &&& meter_problem(
                        timing,
                        channels,
                        max_block_frames,
                        max_history_seconds,
                    ) is None
                    &&& meter.is_valid()
                    &&& meter.is_clear()
                    &&& meter.channel_total() == channels
                    &&& meter.block_limit() == max_block_frames
                    &&& meter.history_limit() == max_history_seconds * 10 + 1
                    &&& Some(meter.energies().momentary() as usize) == timing.momentary_frames
                    &&& Some(meter.energies().short_term() as usize) == timing.short_term_frames
                    &&& Some(meter.energies().step() as usize) == timing.step_frames
                    &&& forall|kind: LoudnessHistogramKind| #[trigger]
                        meter.distribution(kind).blank_energy() == blank
                },
                Err(problem) => meter_problem(
                    timing,
                    channels,
                    max_block_frames,
                    max_history_seconds,
                ) == Some(problem),
            },
    {
        if !timing.sample_rate_valid {
            return Err(ConfigError::InvalidSampleRate);
        }
        if channels == 0 {
            return Err(ConfigError::NoChannels);
        }
        if !timing.weights_valid {
            return Err(ConfigError::InvalidChannelWeight);
        }
        if max_block_frames == 0 {
            return Err(ConfigError::InvalidBlockSize);
        }
        if max_history_seconds == 0 {
            return Err(ConfigError::InvalidHistoryDuration);
        }
        let (momentary, short_term, step) = match (
            timing.momentary_frames,
            timing.short_term_frames,
            timing.step_frames,
        ) {
            (Some(momentary), Some(short_term), Some(step)) => (momentary, short_term, step),
            _ => {
                return Err(ConfigError::InvalidSampleRate);
            },
        };
        let blocks: usize = match max_history_seconds.checked_mul(10) {
            Some(blocks) => blocks,
            None => {
                return Err(ConfigError::InvalidHistoryDuration);
            },
        };
        let max_history_blocks: usize = match blocks.checked_add(1) {
            Some(blocks) => blocks,
            None => {
                return Err(ConfigError::InvalidHistoryDuration);
            },
        };
        Ok(
            LoudnessMeter {
                channels,
                max_block_frames,
                window: EnergyWindow::new(momentary, short_term, step, blank),
                integrated_blocks: Vec::with_capacity(max_history_blocks),
                short_term_blocks: Vec::with_capacity(max_history_blocks),
                integrated_histogram: LoudnessHistogram::new(blank),
                short_term_histogram: LoudnessHistogram::new(blank),
                max_history_blocks,
                history_complete: true,
            },
        )
    }

    /// Checks the shape of a planar block before any of it is taken in, and
    /// counts its frames.
    pub fn check_block<T>(&self, channels: &[&[T]]) -> (result: Result<usize, ProcessError>)
        requires
            self.is_valid(),
        ensures
            match result {
                Ok(frames) => {
                    &&& shape_problem(
                        channels@,
                        self.channel_total(),
                        self.block_limit(),
                    ) is None
                    &&& forall|i: int|
                        0 <= i < channels@.len() ==> (#[trigger] channels@[i])@.len() == frames
                },
                Err(problem) => shape_problem(
                    channels@,
                    self.channel_total(),
                    self.block_limit(),
                ) == Some(problem),
            },
    {
        let actual: usize = channels.len();
        if actual != self.channels {
            return Err(ProcessError::ChannelCount { expected: self.channels, actual });
        }
        let first: &[T] = channels[0];
        let frames: usize = first.len();
        if frames > self.max_block_frames {
            return Err(
                ProcessError::BlockTooLarge { maximum: self.max_block_frames, actual: frames },
            );
        }
        let mut index: usize = 1;
        while index < actual
            invariant
                1 <= index <= actual,
                actual == channels@.len(),
                actual == self.channels,
                frames == channels@[0]@.len(),
                frames <= self.max_block_frames,
                forall|i: int| 0 <= i < index ==> (#[trigger] channels@[i])@.len() == frames,
            decreases actual - index,
        {
            let samples: &[T] = channels[index];
            if samples.len() != frames {
                return Err(ProcessError::UnevenChannels);
            }
            index = index + 1;
        }
        Ok(frames)
    }

    /// Takes one weighted energy into the windows, and tells what left them and
    /// which blocks end with it.
    pub fn push_energy(&mut self, energy: E) -> (step: EnergyStep<E>)
        requires
            old(self).is_valid(),
            old(self).energies().count() < u64::MAX,
        ensures
            final(self).is_valid(),
            final(self).took_an_energy(*old(self), energy),
            final(self).is_complete() == old(self).is_complete(),
            forall|kind: LoudnessHistogramKind| #[trigger]
                final(self).series(kind) == old(self).series(kind),
            forall|kind: LoudnessHistogramKind| #[trigger]
                final(self).distribution(kind) == old(self).distribution(kind),
            step.leaving_momentary == leaving(
                old(self).energies()@,
                old(self).energies().momentary(),
            ),
            step.leaving_short_term == leaving(
                old(self).energies()@,
                old(self).energies().short_term(),
            ),
            step.momentary_full == (final(self).energies()@.len()
                >= old(self).energies().momentary()),
            step.short_term_full == (final(self).energies()@.len()
                >= old(self).energies().short_term()),
            step.integrated_due == block_due(
                final(self).energies().count() as int,
                old(self).energies().momentary(),
                old(self).energies().step(),
            ),
            step.short_term_due == block_due(
                final(self).energies().count() as int,
                old(self).energies().short_term(),
                old(self).energies().step(),
            ),
    {
        self.window.push(energy)
    }

    /// Records a block that ended. The histogram takes every block that is above
    /// the absolute gate, regardless of how much history there is room for: a
    /// long session ends the kept series but never the histogram.
    pub fn record_block(&mut self, kind: LoudnessHistogramKind, energy: E, filing: Option<Filing<E>>)
        requires
            old(self).is_valid(),
            filing is Some ==> {
                &&& filing->0.slot < HISTOGRAM_BINS
                &&& old(self).distribution(kind).blocks() < u64::MAX
            },
        ensures
            final(self).is_valid(),
            final(self).same_limits(*old(self)),
            final(self).energies() == old(self).energies(),
            final(self).series(kind) == kept_blocks(
                old(self).series(kind).push(energy),
                old(self).history_limit(),
            ),
            final(self).series(kind) == (if old(self).series(kind).len() < old(
                self,
            ).history_limit() {
                old(self).series(kind).push(energy)
            } else {
                old(self).series(kind)
            }),
            final(self).is_complete() == (old(self).is_complete() && old(self).series(kind).len()
                < old(self).history_limit()),
            match filing {
                None => final(self).distribution(kind) == old(self).distribution(kind),
                Some(filing) => {
                    &&& final(self).distribution(kind).blocks() == old(self).distribution(
                        kind,
                    ).blocks() + 1
                    &&& final(self).distribution(kind).sum() == filing.absolute_sum
                    &&& final(self).distribution(kind).blank_energy() == old(self).distribution(
                        kind,
                    ).blank_energy()
                    &&& final(self).distribution(kind)@ == old(self).distribution(kind)@.update(
                        filing.slot as int,
                        HistogramBin {
                            count: (old(self).distribution(kind)@[filing.slot as int].count
                                + 1) as u64,
                            energy: filing.bin_energy,
                        },
                    )
                },
            },
            forall|other: LoudnessHistogramKind|
                other != kind ==> #[trigger] final(self).series(other) == old(self).series(other),
            forall|other: LoudnessHistogramKind|
                other != kind ==> #[trigger] final(self).distribution(other) == old(
                    self,
                ).distribution(other),
    {
        proof {
            let kept = self.series(kind);
            assert(kept.push(energy).take(kept.len() as int) =~= kept);
        }
        match kind {
            LoudnessHistogramKind::Integrated => {
                if let Some(filing) = filing {
                    self.integrated_histogram.push(
                        filing.slot,
                        filing.bin_energy,
                        filing.absolute_sum,
                    );
                }
                if self.integrated_blocks.len() < self.max_history_blocks {
                    self.integrated_blocks.push(energy);
                } else {
                    self.history_complete = false;
                }
            },
            LoudnessHistogramKind::ShortTerm => {
                if let Some(filing) = filing {
                    self.short_term_histogram.push(
                        filing.slot,
                        filing.bin_energy,
                        filing.absolute_sum,
                    );
                }
                if self.short_term_blocks.len() < self.max_history_blocks {
                    self.short_term_blocks.push(energy);
                } else {
                    self.history_complete = false;
                }
            },
        }
    }

    /// Clears windows and programme history without freeing preallocated
    /// storage.
    pub fn reset(&mut self)
        requires
            old(self).is_valid(),
        ensures
            final(self).is_valid(),
            final(self).is_clear(),
            final(self).same_limits(*old(self)),
    {
        self.window.reset();
        self.integrated_blocks.clear();
        self.short_term_blocks.clear();
        self.integrated_histogram.clear();
        self.short_term_histogram.clear();
        self.history_complete = true;
    }

    /// Number of configured channels.
    pub fn channel_count(&self) -> (channels: usize)
        ensures
            channels == self.channel_total(),
    {
        self.channels
    }

    /// Whether fixed history storage still contains the complete programme.
    pub fn history_complete(&self) -> (complete: bool)
        ensures
            complete == self.is_complete(),
    {
        self.history_complete
    }

    /// The energies of the windows.
    pub fn window(&self) -> (window: &EnergyWindow<E>)
        ensures
            *window == self.energies(),
    {
        &self.window
    }

    /// The kept blocks of a series.
    pub fn blocks(&self, kind: LoudnessHistogramKind) -> (blocks: &[E])
        ensures
            blocks@ == self.series(kind),
    {
        match kind {
            LoudnessHistogramKind::Integrated => self.integrated_blocks.as_slice(),
            LoudnessHistogramKind::ShortTerm => self.short_term_blocks.as_slice(),
        }
    }

    /// The distribution of a series.
    pub fn histogram(&self, kind: LoudnessHistogramKind) -> (histogram: &LoudnessHistogram<E>)
        ensures
            *histogram == self.distribution(kind),
    {
        match kind {
            LoudnessHistogramKind::Integrated => &self.integrated_histogram,
            LoudnessHistogramKind::ShortTerm => &self.short_term_histogram,
        }
    }

    /// Shares the bins of a series' histogram out over caller-owned storage.
    ///
    /// Shorter destinations merge adjacent bins from the full range; longer
    /// destinations receive one source bin each and return the fixed source
    /// count.
    pub fn copy_loudness_histogram(
        &self,
        kind: LoudnessHistogramKind,
        destination: &mut [HistogramSpan],
    ) -> (amount: usize)
        requires
            self.is_valid(),
        ensures
            amount == (if old(destination)@.len() < HISTOGRAM_BINS {
                old(destination)@.len() as int
            } else {
                HISTOGRAM_BINS as int
            }),
            final(destination)@.len() == old(destination)@.len(),
            forall|i: int|
                0 <= i < amount ==> {
                    let bucket = #[trigger] final(destination)@[i];
                    &&& bucket.first == span_start(i, amount as int)
                    &&& bucket.end == span_start(i + 1, amount as int)
                    &&& bucket.count == counted(
                        self.distribution(kind)@,
                        bucket.first as int,
                        bucket.end as int,
                    )
                },
            forall|i: int|
                amount <= i < old(destination)@.len() ==> #[trigger] final(destination)@[i]
                    == old(destination)@[i],
    {
        match kind {
            LoudnessHistogramKind::Integrated => self.integrated_histogram.copy_resampled(
                destination,
            ),
            LoudnessHistogramKind::ShortTerm => self.short_term_histogram.copy_resampled(
                destination,
            ),
        }
    }
}

/// Recording block after block keeps the beginning of the programme: what is
/// kept depends on the whole stream alone, and once it is cut it stays as it is.
pub proof fn history_keeps_the_beginning<E>(stream: Seq<E>, energy: E, limit: int)
    requires
        limit >= 0,
    ensures
        kept_blocks(stream.push(energy), limit) == (if kept_blocks(stream, limit).len() < limit {
            kept_blocks(stream, limit).push(energy)
        } else {
            kept_blocks(stream, limit)
        }),
        (kept_blocks(stream, limit).len() < limit) == (kept_blocks(stream.push(energy), limit)
            == stream.push(energy)),
{
    let longer = stream.push(energy);
    if stream.len() >= limit {
        assert(kept_blocks(longer, limit) =~= kept_blocks(stream, limit));
    }
}

/// What is kept of a stream of blocks is its beginning, as much of it as there is room
/// for.
pub proof fn kept_blocks_are_the_first<E>(stream: Seq<E>, limit: int)
    requires
        limit >= 0,
    ensures
        kept_blocks(stream, limit).len() <= limit,
        kept_blocks(stream, limit).len() == stream.len() || kept_blocks(stream, limit).len()
            == limit,
        kept_blocks(stream, limit) == stream.take(kept_blocks(stream, limit).len() as int),
{
    assert(stream.take(stream.len() as int) =~= stream);
}

/// A meter is refused exactly where something is wrong with what it is built with, and
/// what is named is wrong.
pub proof fn meters_are_refused_for_what_is_wrong(
    timing: MeterTiming,
    channels: usize,
    max_block_frames: usize,
    max_history_seconds: usize,
)
    ensures
        ({
            let problem = meter_problem(timing, channels, max_block_frames, max_history_seconds);
            &&& problem is None <==> {
                &&& timing.sample_rate_valid
                &&& timing.momentary_frames is Some
                &&& timing.short_term_frames is Some
                &&& timing.step_frames is Some
                &&& channels > 0
                &&& timing.weights_valid
                &&& max_block_frames > 0
                &&& max_history_seconds > 0
                &&& max_history_seconds * 10 + 1 <= usize::MAX
            }
            &&& match problem {
                None => true,
                Some(ConfigError::InvalidSampleRate) => !timing.sample_rate_valid
                    || timing.momentary_frames is None || timing.short_term_frames is None
                    || timing.step_frames is None,
                Some(ConfigError::NoChannels) => channels == 0,
                Some(ConfigError::InvalidChannelWeight) => !timing.weights_valid,
                Some(ConfigError::InvalidBlockSize) => max_block_frames == 0,
                Some(ConfigError::InvalidHistoryDuration) => max_history_seconds == 0
                    || max_history_seconds * 10 + 1 > usize::MAX,
            }
        }),
{
}

/// A block is refused exactly where it has another number of channels, where they are
/// longer than the maximum, or where they differ in length, and what is named is wrong.
pub proof fn blocks_are_refused_for_their_shape<T>(
    channels: Seq<&[T]>,
    expected: usize,
    maximum: usize,
)
    requires
        0 < expected,
        channels.len() <= usize::MAX,
        forall|i: int|
            0 <= i < channels.len() ==> (#[trigger] channels[i])@.len() <= usize::MAX,
    ensures
        shape_problem(channels, expected, maximum) is None <==> {
            &&& channels.len() == expected
            &&& forall|i: int, j: int|
                0 <= i < channels.len() && 0 <= j < channels.len() ==> (#[trigger] channels[i])@.len()
                    == (#[trigger] channels[j])@.len()
            &&& forall|i: int|
                0 <= i < channels.len() ==> (#[trigger] channels[i])@.len() <= maximum
        },
        match shape_problem(channels, expected, maximum) {
            None => true,
            Some(ProcessError::ChannelCount { expected: wanted, actual }) => {
                wanted == expected && actual == channels.len() && actual != expected
            },
            Some(ProcessError::BlockTooLarge { maximum: most, actual }) => {
                most == maximum && actual > maximum
            },
            Some(ProcessError::UnevenChannels) => exists|i: int, j: int|
                0 <= i < channels.len() && 0 <= j < channels.len() && (#[trigger] channels[i])@.len()
                    != (#[trigger] channels[j])@.len(),
            _ => false,
        },
{
    if channels.len() == expected {
        let first = channels[0]@.len();
        if first <= maximum && shape_problem(channels, expected, maximum) is None {
            assert forall|i: int, j: int|
                0 <= i < channels.len() && 0 <= j < channels.len() implies (
            #[trigger] channels[i])@.len() == (#[trigger] channels[j])@.len() by {}
        }
    }
}

impl<E: Copy> LoudnessMeter<E> {
    /// A meter that is clear has measured nothing: no energy is kept or counted, no block
    /// recorded, and no bin holds any.
    pub proof fn clear_meters_have_measured_nothing(self, kind: LoudnessHistogramKind, bin: int)
        requires
            self.is_clear(),
            0 <= bin < HISTOGRAM_BINS,
        ensures
            self.energies()@.len() == 0,
            self.energies().count() == 0,
            self.series(kind).len() == 0,
            self.distribution(kind).blocks() == 0,
            self.distribution(kind)@[bin].count == 0,
            self.is_complete(),
    {
        assert(self.series(kind) == Seq::<E>::empty());
    }
}

} // verus!
