//! The VU meter: which blocks it takes, when its settings are refused, and how
//! long a display peak stays pinned.
use crate::meter::errors::{VuConfigError, VuProcessError};
use vstd::prelude::*;

verus! {

/// Detector presented by the VU meter.
#[derive(Clone, Copy, Debug, PartialEq, Eq, Structural)]
pub enum VuMode {
    /// Standard 300 ms VU-like RMS response.
    Vu,
    /// RMS detector with configurable attack and release.
    Rms,
    /// Absolute sample peak detector with configurable attack and release.
    Peak,
}

impl Default for VuMode {
    fn default() -> (mode: Self)
        ensures
            mode == VuMode::Vu,
    {
        VuMode::Vu
    }
}

/// What the rate, the levels and the durations of a VU meter come to.
#[derive(Clone, Copy, Debug, PartialEq, Eq)]
pub struct VuTiming {
    /// Whether the sample rate is finite and at least 8 kHz.
    pub sample_rate_valid: bool,
    /// Whether the calibration reference is finite.
    pub calibration_valid: bool,
    /// Whether attack and release are finite and not negative.
    pub ballistics_valid: bool,
    /// Frames that a peak is held, where they can be counted.
    pub peak_hold_frames: Option<u64>,
}

/// Why no VU meter can be built.
pub open spec fn vu_problem(timing: VuTiming, max_block_frames: usize) -> Option<VuConfigError> {
    if !timing.sample_rate_valid {
        Some(VuConfigError::InvalidSampleRate)
    } else if max_block_frames == 0 {
        Some(VuConfigError::InvalidBlockSize)
    } else if !timing.calibration_valid {
        Some(VuConfigError::InvalidCalibration)
    } else if !timing.ballistics_valid {
        Some(VuConfigError::InvalidBallistics)
    } else if timing.peak_hold_frames is None {
        Some(VuConfigError::InvalidPeakHold)
    } else {
        None
    }
}

/// Why a block of these lengths is refused.
pub open spec fn vu_block_problem(left: usize, right: usize, maximum: usize) -> Option<
    VuProcessError,
> {
    if left != right {
        Some(VuProcessError::UnevenChannels)
    } else if left > maximum {
        Some(VuProcessError::BlockTooLarge { maximum, actual: left })
    } else {
        None
    }
}

/// What one sample comes to on one channel.
#[derive(Clone, Copy, Debug, PartialEq, Eq)]
pub struct VuReading<D> {
    /// The detector after the sample.
    pub detector: D,
    /// Whether the detector is at least as high as the display peak.
    pub reaches_peak: bool,
    /// What the display peak comes to if it falls.
    pub fallen_peak: D,
}

/// One channel of the VU meter.
#[derive(Clone, Copy, Debug, PartialEq, Eq)]
pub struct VuChannel<D> {
    /// Ballistic detector level.
    pub detector: D,
    /// Retained peak indicator.
    pub peak_hold: D,
    /// Frames for which the peak stays pinned.
    pub peak_hold_frames_remaining: u64,
}

impl<D: Copy> VuChannel<D> {
    /// A channel without signal.
    pub open spec fn silent(blank: D) -> VuChannel<D> {
        VuChannel { detector: blank, peak_hold: blank, peak_hold_frames_remaining: 0 }
    }

    /// The channel after one reading: a new peak is pinned for the hold time, a
    /// pinned peak stays, and a peak that is no longer pinned falls.
    pub open spec fn after(self, reading: VuReading<D>, hold_frames: u64) -> VuChannel<D> {
        if reading.reaches_peak {
            VuChannel {
                detector: reading.detector,
                peak_hold: reading.detector,
                peak_hold_frames_remaining: hold_frames,
            }
        } else if self.peak_hold_frames_remaining > 0 {
            VuChannel {
                detector: reading.detector,
                peak_hold: self.peak_hold,
                peak_hold_frames_remaining: (self.peak_hold_frames_remaining - 1) as u64,
            }
        } else {
            VuChannel {
                detector: reading.detector,
                peak_hold: reading.fallen_peak,
                peak_hold_frames_remaining: 0,
            }
        }
    }

    /// The channel after a run of readings.
    pub open spec fn after_all(self, readings: Seq<VuReading<D>>, hold_frames: u64) -> VuChannel<D>
        decreases readings.len(),
    {
        if readings.len() == 0 {
            self
        } else {
            self.after_all(readings.drop_last(), hold_frames).after(readings.last(), hold_frames)
        }
    }

    /// Takes one reading in.
    pub fn take(&mut self, reading: &VuReading<D>, hold_frames: u64)
        ensures
            *final(self) == old(self).after(*reading, hold_frames),
            final(self).detector == reading.detector,
    {
        self.detector = reading.detector;
        if reading.reaches_peak {
            self.peak_hold = reading.detector;
            self.peak_hold_frames_remaining = hold_frames;
        } else if self.peak_hold_frames_remaining > 0 {
            self.peak_hold_frames_remaining = self.peak_hold_frames_remaining - 1;
        } else {
            self.peak_hold = reading.fallen_peak;
        }
    }
}

/// Whatever becomes of the peak, the detector follows every reading: after any run
/// of readings it is that of the last one.
pub proof fn detector_follows_every_reading<D: Copy>(
    channel: VuChannel<D>,
    readings: Seq<VuReading<D>>,
    hold_frames: u64,
)
    requires
        readings.len() > 0,
    ensures
        channel.after_all(readings, hold_frames).detector == readings.last().detector,
        channel.after(readings.last(), hold_frames).detector == readings.last().detector,
{
}

/// A reading that reaches the peak becomes the peak and starts the hold time anew.
/// Any other reading leaves the peak where it is while it is pinned, and one frame
/// of the hold time is gone; once none is left, the peak is where it has fallen to.
pub proof fn peak_rises_at_once_and_falls_after_its_hold_time<D: Copy>(
    channel: VuChannel<D>,
    reading: VuReading<D>,
    hold_frames: u64,
)
    ensures
        ({
            let next = channel.after(reading, hold_frames);
            let left = channel.peak_hold_frames_remaining;
            &&& reading.reaches_peak ==> next.peak_hold == reading.detector
            &&& reading.reaches_peak ==> next.peak_hold_frames_remaining == hold_frames
            &&& !reading.reaches_peak && left > 0 ==> next.peak_hold == channel.peak_hold
            &&& !reading.reaches_peak && left > 0 ==> next.peak_hold_frames_remaining + 1 == left
            &&& !reading.reaches_peak && left == 0 ==> next.peak_hold == reading.fallen_peak
            &&& !reading.reaches_peak && left == 0 ==> next.peak_hold_frames_remaining == 0
        }),
{
}

/// Once the hold time of a peak is over, the peak is at every quieter reading where
/// that reading has it fallen to, until a reading reaches it again.
pub proof fn peak_keeps_falling_after_its_hold_time<D: Copy>(
    channel: VuChannel<D>,
    quieter: Seq<VuReading<D>>,
    hold_frames: u64,
)
    requires
        quieter.len() > channel.peak_hold_frames_remaining,
        forall|i: int| 0 <= i < quieter.len() ==> !(#[trigger] quieter[i]).reaches_peak,
    ensures
        channel.after_all(quieter, hold_frames).peak_hold == quieter.last().fallen_peak,
        channel.after_all(quieter, hold_frames).peak_hold_frames_remaining == 0,
    decreases quieter.len(),
{
    let shorter = quieter.drop_last();
    assert forall|i: int| 0 <= i < shorter.len() implies !(#[trigger] shorter[i]).reaches_peak by {
        assert(shorter[i] == quieter[i]);
    }
    if shorter.len() > channel.peak_hold_frames_remaining {
        peak_keeps_falling_after_its_hold_time(channel, shorter, hold_frames);
    } else {
        countdown(channel, shorter, hold_frames);
    }
}

/// A peak stays pinned through as many quieter readings as its hold time has
/// frames, and the next quieter reading lets it fall.
pub proof fn peak_is_pinned_for_its_hold_time<D: Copy>(
    channel: VuChannel<D>,
    peak: VuReading<D>,
    quieter: Seq<VuReading<D>>,
    hold_frames: u64,
)
    requires
        peak.reaches_peak,
        forall|i: int| 0 <= i < quieter.len() ==> !(#[trigger] quieter[i]).reaches_peak,
    ensures
        quieter.len() <= hold_frames ==> channel.after(peak, hold_frames).after_all(
            quieter,
            hold_frames,
        ).peak_hold == peak.detector,
        quieter.len() == hold_frames + 1 ==> channel.after(peak, hold_frames).after_all(
            quieter,
            hold_frames,
        ).peak_hold == quieter.last().fallen_peak,
{
    let pinned = channel.after(peak, hold_frames);
    if quieter.len() <= hold_frames {
        countdown(pinned, quieter, hold_frames);
    } else if quieter.len() == hold_frames + 1 {
        countdown(pinned, quieter.drop_last(), hold_frames);
    }
}

/// Quieter readings count the hold time down and leave the peak alone.
proof fn countdown<D: Copy>(
    pinned: VuChannel<D>,
    quieter: Seq<VuReading<D>>,
    hold_frames: u64,
)
    requires
        quieter.len() <= pinned.peak_hold_frames_remaining,
        forall|i: int| 0 <= i < quieter.len() ==> !(#[trigger] quieter[i]).reaches_peak,
    ensures
        pinned.after_all(quieter, hold_frames).peak_hold == pinned.peak_hold,
        pinned.after_all(quieter, hold_frames).peak_hold_frames_remaining
            == pinned.peak_hold_frames_remaining - quieter.len(),
    decreases quieter.len(),
{
    if quieter.len() > 0 {
        let shorter = quieter.drop_last();
        assert forall|i: int| 0 <= i < shorter.len() implies !(#[trigger] shorter[i]).reaches_peak by {
            assert(shorter[i] == quieter[i]);
        }
        countdown(pinned, shorter, hold_frames);
    }
}

/// Realtime-safe stereo VU/RMS/peak meter.
///
/// It observes audio only and never changes input samples.
#[derive(Clone, Debug)]
pub struct VuMeter<D> {
    pub mode: VuMode,
    pub max_block_frames: usize,
    pub peak_hold_frames: u64,
    pub left: VuChannel<D>,
    pub right: VuChannel<D>,
    pub processed_frames: u64,
    /// The level of no signal.
    pub blank: D,
}

impl<D: Copy> VuMeter<D> {
    /// Creates a meter from explicit fixed settings.
    pub fn new(mode: VuMode, max_block_frames: usize, timing: VuTiming, blank: D) -> (result:
        Result<Self, VuConfigError>)
        ensures
            match result {
                Ok(meter) => vu_problem(timing, max_block_frames) is None && meter == (VuMeter {
                    mode,
                    max_block_frames,
                    peak_hold_frames: timing.peak_hold_frames->0,
                    left: VuChannel::silent(blank),
                    right: VuChannel::silent(blank),
                    processed_frames: 0,
                    blank,
                }),
                Err(problem) => vu_problem(timing, max_block_frames) == Some(problem),
            },
    {
        if !timing.sample_rate_valid {
            return Err(VuConfigError::InvalidSampleRate);
        }
        if max_block_frames == 0 {
            return Err(VuConfigError::InvalidBlockSize);
        }
        if !timing.calibration_valid {
            return Err(VuConfigError::InvalidCalibration);
        }
        if !timing.ballistics_valid {
            return Err(VuConfigError::InvalidBallistics);
        }
        let peak_hold_frames: u64 = match timing.peak_hold_frames {
            Some(frames) => frames,
            None => {
                return Err(VuConfigError::InvalidPeakHold);
            },
        };
        let silent = VuChannel {
            detector: blank,
            peak_hold: blank,
            peak_hold_frames_remaining: 0,
        };
        Ok(
            VuMeter {
                mode,
                max_block_frames,
                peak_hold_frames,
                left: silent,
                right: silent,
                processed_frames: 0,
                blank,
            },
        )
    }

    /// Changes detector mode, clears incompatible detector state, and tells
    /// whether anything changed.
    pub fn set_mode(&mut self, mode: VuMode) -> (changed: bool)
        ensures
            changed == (old(self).mode != mode),
            !changed ==> *final(self) == *old(self),
            changed ==> *final(self) == (VuMeter {
                mode,
                left: VuChannel::silent(old(self).blank),
                right: VuChannel::silent(old(self).blank),
                ..*old(self)
            }),
    {
        if self.mode == mode {
            return false;
        }
        self.mode = mode;
        self.silence();
        true
    }

    /// Changes peak indicator hold duration, where it can be counted in frames.
    pub fn set_peak_hold(&mut self, peak_hold_frames: Option<u64>) -> (result: Result<
        (),
        VuConfigError,
    >)
        ensures
            match peak_hold_frames {
                Some(frames) => result is Ok && *final(self) == (VuMeter {
                    peak_hold_frames: frames,
                    ..*old(self)
                }),
                None => result == Err::<(), VuConfigError>(VuConfigError::InvalidPeakHold)
                    && *final(self) == *old(self),
            },
    {
        match peak_hold_frames {
            Some(frames) => {
                self.peak_hold_frames = frames;
                Ok(())
            },
            None => Err(VuConfigError::InvalidPeakHold),
        }
    }

    /// Checks the lengths of a stereo block before any of it is taken in.
    pub fn check_block(&self, left: usize, right: usize) -> (result: Result<(), VuProcessError>)
        ensures
            match result {
                Ok(()) => vu_block_problem(left, right, self.max_block_frames) is None,
                Err(problem) => vu_block_problem(left, right, self.max_block_frames) == Some(
                    problem,
                ),
            },
    {
        if left != right {
            return Err(VuProcessError::UnevenChannels);
        }
        if left > self.max_block_frames {
            return Err(
                VuProcessError::BlockTooLarge { maximum: self.max_block_frames, actual: left },
            );
        }
        Ok(())
    }

    /// Takes the readings of one frame in.
    pub fn take_frame(&mut self, left: &VuReading<D>, right: &VuReading<D>)
        ensures
            final(self).left.detector == left.detector,
            final(self).right.detector == right.detector,
            *final(self) == (VuMeter {
                left: old(self).left.after(*left, old(self).peak_hold_frames),
                right: old(self).right.after(*right, old(self).peak_hold_frames),
                ..*old(self)
            }),
    {
        self.left.take(left, self.peak_hold_frames);
        self.right.take(right, self.peak_hold_frames);
    }

    /// Counts the frames of a block that was taken in.
    pub fn finish_block(&mut self, frames: usize)
        ensures
            *final(self) == (VuMeter {
                processed_frames: if old(self).processed_frames + frames <= u64::MAX {
                    (old(self).processed_frames + frames) as u64
                } else {
                    u64::MAX
                },
                ..*old(self)
            }),
    {
        self.processed_frames = self.processed_frames.saturating_add(frames as u64);
    }

    /// Clears detector and peak-hold state without changing settings.
    pub fn reset(&mut self)
        ensures
            *final(self) == (VuMeter {
                left: VuChannel::silent(old(self).blank),
                right: VuChannel::silent(old(self).blank),
                processed_frames: 0,
                ..*old(self)
            }),
    {
        self.silence();
        self.processed_frames = 0;
    }

    /// Clears detector and peak-hold state.
    fn silence(&mut self)
        ensures
            *final(self) == (VuMeter {
                left: VuChannel::silent(old(self).blank),
                right: VuChannel::silent(old(self).blank),
                ..*old(self)
            }),
    {
        let silent = VuChannel {
            detector: self.blank,
            peak_hold: self.blank,
            peak_hold_frames_remaining: 0,
        };
        self.left = silent;
        self.right = silent;
    }
}

/// A meter is refused exactly where something is wrong with its settings, and what is
/// named is wrong.
pub proof fn settings_are_refused_for_what_is_wrong(timing: VuTiming, max_block_frames: usize)
    ensures
        vu_problem(timing, max_block_frames) is None <==> timing.sample_rate_valid
            && max_block_frames > 0 && timing.calibration_valid && timing.ballistics_valid
            && timing.peak_hold_frames is Some,
        match vu_problem(timing, max_block_frames) {
            None => true,
            Some(VuConfigError::InvalidSampleRate) => !timing.sample_rate_valid,
            Some(VuConfigError::InvalidBlockSize) => max_block_frames == 0,
            Some(VuConfigError::InvalidCalibration) => !timing.calibration_valid,
            Some(VuConfigError::InvalidBallistics) => !timing.ballistics_valid,
            Some(VuConfigError::InvalidPeakHold) => timing.peak_hold_frames is None,
        },
{
}

/// A block is refused exactly where its channels differ in length or are longer than
/// the maximum, and what is named is wrong.
pub proof fn blocks_are_refused_for_their_shape(left: usize, right: usize, maximum: usize)
    ensures
        vu_block_problem(left, right, maximum) is None <==> left == right && left <= maximum,
        vu_block_problem(left, right, maximum) == Some(VuProcessError::UnevenChannels) <==> left
            != right,
        vu_block_problem(left, right, maximum) matches Some(
            VuProcessError::BlockTooLarge { maximum: most, actual },
        ) ==> most == maximum && actual == left && left > maximum,
{
}

} // verus!
