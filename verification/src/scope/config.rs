//! The limits that a scope is built with, and which of them are refused.
use crate::text::{decimal_text, push_decimal};
use vstd::prelude::*;

verus! {

/// Frequency distribution used for display spectrum bands.
///
/// The FFT itself always remains linear-frequency. This only changes how its
/// fixed bins are grouped for display, so switching scale cannot allocate or
/// alter incoming audio.
#[derive(Clone, Copy, Debug, PartialEq, Eq, Structural)]
pub enum SpectrumScale {
    /// Equal-width bands in frequency.
    Linear,
    /// Equal-width bands in the perceptual Mel domain.
    Mel,
    /// Equal-width bands in logarithmic frequency.
    Log,
}

impl Default for SpectrumScale {
    fn default() -> (scale: Self)
        ensures
            scale == SpectrumScale::Log,
    {
        SpectrumScale::Log
    }
}

impl SpectrumScale {
    /// The place of the scale's band mapping among the three that are kept.
    pub open spec fn position(self) -> int {
        match self {
            SpectrumScale::Log => 0,
            SpectrumScale::Mel => 1,
            SpectrumScale::Linear => 2,
        }
    }

    /// The place of the scale's band mapping among the three that are kept.
    pub fn storage_index(self) -> (index: usize)
        ensures
            index == self.position(),
            index < 3,
    {
        match self {
            SpectrumScale::Log => 0,
            SpectrumScale::Mel => 1,
            SpectrumScale::Linear => 2,
        }
    }

    /// No two scales share a place.
    pub proof fn positions_are_distinct(self, other: SpectrumScale)
        ensures
            (self.position() == other.position()) == (self == other),
    {
    }
}

/// Trigger policy used for oscilloscope output.
#[derive(Clone, Copy, Debug, PartialEq, Eq, Structural)]
pub enum OscilloscopeMode {
    /// Align a stable rising zero crossing when one is available.
    Pitch,
    /// Return newest chronological audio without trigger alignment.
    Free,
}

impl Default for OscilloscopeMode {
    fn default() -> (mode: Self)
        ensures
            mode == OscilloscopeMode::Pitch,
    {
        OscilloscopeMode::Pitch
    }
}

/// Number of cycles presented by pitch-triggered oscilloscope output.
#[derive(Clone, Copy, Debug, PartialEq, Eq, Structural)]
pub enum OscilloscopeCycles {
    /// Present one estimated cycle.
    Single,
    /// Present up to three estimated cycles.
    Multi,
}

impl Default for OscilloscopeCycles {
    fn default() -> (cycles: Self)
        ensures
            cycles == OscilloscopeCycles::Multi,
    {
        OscilloscopeCycles::Multi
    }
}

/// Invalid scope configuration value.
#[derive(Clone, Copy, Debug, PartialEq, Eq, Structural)]
pub enum ScopeConfigError {
    /// Sample rate is non-finite or below 8 kHz.
    InvalidSampleRate,
    /// Maximum input block size is zero.
    InvalidBlockSize,
    /// Correlation/M/S window duration is invalid or cannot fit memory.
    InvalidCorrelationWindow,
    /// Waveform bucket count is zero.
    InvalidWaveformBuckets,
    /// Waveform duration is invalid or cannot fit memory.
    InvalidWaveformDuration,
    /// Goniometer point count is zero.
    InvalidGoniometerPoints,
    /// Goniometer decimation is zero.
    InvalidGoniometerDecimation,
    /// Oscilloscope sample capacity is zero.
    InvalidOscilloscopeFrames,
    /// FFT size is not a power of two of at least sixteen frames.
    InvalidFftSize,
    /// FFT hop is zero or larger than FFT size.
    InvalidFftHop,
    /// Spectrum band count is zero.
    InvalidSpectrumBands,
    /// Spectrogram row count is zero.
    InvalidSpectrogramRows,
    /// Spectrum range is non-finite, empty, or exceeds Nyquist.
    InvalidSpectrumRange,
    /// Attack or release duration is non-finite or negative.
    InvalidBallistics,
    /// Fixed spectrogram storage cannot be represented.
    StorageTooLarge,
}

impl ScopeConfigError {
    /// The sentence for a log.
    pub open spec fn sentence(self) -> Seq<char> {
        match self {
            ScopeConfigError::InvalidSampleRate => "sample rate must be finite and at least 8 kHz"@,
            ScopeConfigError::InvalidBlockSize => "maximum block size must be greater than zero"@,
            ScopeConfigError::InvalidCorrelationWindow => "correlation window must be positive and fit addressable memory"@,
            ScopeConfigError::InvalidWaveformBuckets => "waveform bucket count must be greater than zero"@,
            ScopeConfigError::InvalidWaveformDuration => "waveform duration must be positive and fit addressable memory"@,
            ScopeConfigError::InvalidGoniometerPoints => "goniometer point count must be greater than zero"@,
            ScopeConfigError::InvalidGoniometerDecimation => "goniometer decimation must be greater than zero"@,
            ScopeConfigError::InvalidOscilloscopeFrames => "oscilloscope frame capacity must be greater than zero"@,
            ScopeConfigError::InvalidFftSize => "FFT size must be a power of two of at least sixteen"@,
            ScopeConfigError::InvalidFftHop => "FFT hop must be between one frame and FFT size"@,
            ScopeConfigError::InvalidSpectrumBands => "spectrum band count must be greater than zero"@,
            ScopeConfigError::InvalidSpectrogramRows => "spectrogram row count must be greater than zero"@,
            ScopeConfigError::InvalidSpectrumRange => "spectrum range must be finite, non-empty, and no higher than Nyquist"@,
            ScopeConfigError::InvalidBallistics => "spectrum attack and release must be finite and non-negative"@,
            ScopeConfigError::StorageTooLarge => "fixed scope storage is too large to represent"@,
        }
    }

    /// The sentence for a log.
    pub fn message(&self) -> (message: String)
        ensures
            message@ == self.sentence(),
    {
        let message = match self {
            ScopeConfigError::InvalidSampleRate => "sample rate must be finite and at least 8 kHz",
            ScopeConfigError::InvalidBlockSize => "maximum block size must be greater than zero",
            ScopeConfigError::InvalidCorrelationWindow => "correlation window must be positive and fit addressable memory",
            ScopeConfigError::InvalidWaveformBuckets => "waveform bucket count must be greater than zero",
            ScopeConfigError::InvalidWaveformDuration => "waveform duration must be positive and fit addressable memory",
            ScopeConfigError::InvalidGoniometerPoints => "goniometer point count must be greater than zero",
            ScopeConfigError::InvalidGoniometerDecimation => "goniometer decimation must be greater than zero",
            ScopeConfigError::InvalidOscilloscopeFrames => "oscilloscope frame capacity must be greater than zero",
            ScopeConfigError::InvalidFftSize => "FFT size must be a power of two of at least sixteen",
            ScopeConfigError::InvalidFftHop => "FFT hop must be between one frame and FFT size",
            ScopeConfigError::InvalidSpectrumBands => "spectrum band count must be greater than zero",
            ScopeConfigError::InvalidSpectrogramRows => "spectrogram row count must be greater than zero",
            ScopeConfigError::InvalidSpectrumRange => "spectrum range must be finite, non-empty, and no higher than Nyquist",
            ScopeConfigError::InvalidBallistics => "spectrum attack and release must be finite and non-negative",
            ScopeConfigError::StorageTooLarge => "fixed scope storage is too large to represent",
        };
        String::from_str(message)
    }
}

/// Input block rejected by the scope.
#[derive(Clone, Copy, Debug, PartialEq, Eq, Structural)]
pub enum ScopeProcessError {
    /// Left and right slices do not have equal frame counts.
    UnevenChannels,
    /// Input exceeds maximum block size declared at construction.
    BlockTooLarge {
        /// Configured maximum frame count.
        maximum: usize,
        /// Received frame count.
        actual: usize,
    },
}

impl ScopeProcessError {
    /// The sentence for a log.
    pub open spec fn sentence(self) -> Seq<char> {
        match self {
            ScopeProcessError::UnevenChannels => "left and right slices must have equal length"@,
            ScopeProcessError::BlockTooLarge { maximum, actual } => "block has "@ + decimal_text(
                actual as nat,
            ) + " frames; configured maximum is "@ + decimal_text(maximum as nat),
        }
    }

    /// The sentence for a log.
    pub fn message(&self) -> (message: String)
        ensures
            message@ == self.sentence(),
    {
        match self {
            ScopeProcessError::UnevenChannels => String::from_str(
                "left and right slices must have equal length",
            ),
            ScopeProcessError::BlockTooLarge { maximum, actual } => {
                let mut message = String::from_str("block has ");
                push_decimal(&mut message, *actual as u64);
                message.append(" frames; configured maximum is ");
                push_decimal(&mut message, *maximum as u64);
                message
            },
        }
    }
}

/// Why a block of these lengths is refused.
pub open spec fn block_problem(left: nat, right: nat, maximum: usize) -> Option<ScopeProcessError> {
    if left != right {
        Some(ScopeProcessError::UnevenChannels)
    } else if left > maximum {
        Some(ScopeProcessError::BlockTooLarge { maximum, actual: left as usize })
    } else {
        None
    }
}

/// Checks the lengths of a stereo block.
pub fn validate_block(left: usize, right: usize, maximum: usize) -> (result: Result<
    (),
    ScopeProcessError,
>)
    ensures
        match result {
            Ok(()) => block_problem(left as nat, right as nat, maximum) is None,
            Err(problem) => block_problem(left as nat, right as nat, maximum) == Some(problem),
        },
{
    if left != right {
        return Err(ScopeProcessError::UnevenChannels);
    }
    if left > maximum {
        return Err(ScopeProcessError::BlockTooLarge { maximum, actual: left });
    }
    Ok(())
}

/// The counts that a scope is built with. Every buffer size is fixed when the
/// scope is made.
#[derive(Clone, Copy, Debug, PartialEq, Eq)]
pub struct ScopeConfig {
    /// Largest planar input block accepted by the analyzer.
    pub max_block_frames: usize,
    /// Number of chronological min/max waveform buckets retained.
    pub waveform_buckets: usize,
    /// Number of recent goniometer points retained.
    pub goniometer_points: usize,
    /// Number of input frames between retained goniometer points.
    pub goniometer_decimation_frames: usize,
    /// Number of original stereo frames retained for oscilloscope output.
    pub oscilloscope_frames: usize,
    /// Power-of-two FFT size used for spectrum analysis.
    pub fft_size: usize,
    /// Number of fresh frames required before another FFT is run.
    pub fft_hop_frames: usize,
    /// Number of display spectrum bands.
    pub spectrum_bands: usize,
    /// Initial distribution used for display spectrum bands.
    pub spectrum_scale: SpectrumScale,
    /// Number of chronological spectrum rows retained for spectrogram output.
    pub spectrogram_rows: usize,
}

/// What the durations and frequencies of a configuration come to.
#[derive(Clone, Copy, Debug, PartialEq, Eq)]
pub struct ScopeTiming {
    /// Whether the sample rate is finite and at least 8 kHz.
    pub sample_rate_valid: bool,
    /// Frames in the correlation window, where there is at least one and they
    /// can be counted.
    pub correlation_frames: Option<usize>,
    /// Frames in the waveform's duration, where there is at least one and they
    /// can be counted.
    pub waveform_frames: Option<usize>,
    /// Whether the spectrum's range is finite, not empty and below Nyquist.
    pub spectrum_range_valid: bool,
    /// Whether attack and release are finite and not negative.
    pub ballistics_valid: bool,
}

/// The counts that follow from a configuration.
#[derive(Clone, Copy, Debug, PartialEq, Eq)]
pub struct DerivedConfig {
    /// Frames in the correlation window.
    pub correlation_frames: usize,
    /// Frames in one waveform bucket.
    pub waveform_frames_per_bucket: usize,
}

impl ScopeConfig {
    /// Why no scope can be built with this configuration.
    pub open spec fn problem(self, timing: ScopeTiming) -> Option<ScopeConfigError> {
        if !timing.sample_rate_valid {
            Some(ScopeConfigError::InvalidSampleRate)
        } else if self.max_block_frames == 0 {
            Some(ScopeConfigError::InvalidBlockSize)
        } else if timing.correlation_frames is None {
            Some(ScopeConfigError::InvalidCorrelationWindow)
        } else if self.waveform_buckets == 0 {
            Some(ScopeConfigError::InvalidWaveformBuckets)
        } else if timing.waveform_frames is None {
            Some(ScopeConfigError::InvalidWaveformDuration)
        } else if timing.waveform_frames->0 + self.waveform_buckets - 1 > usize::MAX {
            Some(ScopeConfigError::StorageTooLarge)
        } else if self.goniometer_points == 0 {
            Some(ScopeConfigError::InvalidGoniometerPoints)
        } else if self.goniometer_decimation_frames == 0 {
            Some(ScopeConfigError::InvalidGoniometerDecimation)
        } else if self.oscilloscope_frames == 0 {
            Some(ScopeConfigError::InvalidOscilloscopeFrames)
        } else if self.fft_size < 16 || !vstd::arithmetic::power2::is_pow2(self.fft_size as int) {
            Some(ScopeConfigError::InvalidFftSize)
        } else if self.fft_hop_frames == 0 || self.fft_hop_frames > self.fft_size {
            Some(ScopeConfigError::InvalidFftHop)
        } else if self.spectrum_bands == 0 {
            Some(ScopeConfigError::InvalidSpectrumBands)
        } else if self.spectrogram_rows == 0 {
            Some(ScopeConfigError::InvalidSpectrogramRows)
        } else if !timing.spectrum_range_valid {
            Some(ScopeConfigError::InvalidSpectrumRange)
        } else if !timing.ballistics_valid {
            Some(ScopeConfigError::InvalidBallistics)
        } else if self.spectrogram_rows * self.spectrum_bands > usize::MAX {
            Some(ScopeConfigError::StorageTooLarge)
        } else {
            None
        }
    }

    /// A practical stereo-scope configuration.
    pub fn recommended(sample_rate_valid: bool, max_block_frames: usize) -> (result: Result<
        Self,
        ScopeConfigError,
    >)
        ensures
            match result {
                Ok(config) => sample_rate_valid && max_block_frames > 0 && config == (ScopeConfig {
                    max_block_frames,
                    waveform_buckets: 256,
                    goniometer_points: 1_024,
                    goniometer_decimation_frames: 8,
                    oscilloscope_frames: 16_384,
                    fft_size: 2_048,
                    fft_hop_frames: 1_024,
                    spectrum_bands: 96,
                    spectrum_scale: SpectrumScale::Log,
                    spectrogram_rows: 256,
                }),
                Err(problem) => problem == (if !sample_rate_valid {
                    ScopeConfigError::InvalidSampleRate
                } else {
                    ScopeConfigError::InvalidBlockSize
                }) && (!sample_rate_valid || max_block_frames == 0),
            },
    {
        if !sample_rate_valid {
            return Err(ScopeConfigError::InvalidSampleRate);
        }
        if max_block_frames == 0 {
            return Err(ScopeConfigError::InvalidBlockSize);
        }
        Ok(
            ScopeConfig {
                max_block_frames,
                waveform_buckets: 256,
                goniometer_points: 1_024,
                goniometer_decimation_frames: 8,
                // 0.34 s at 48 kHz: enough for several low-frequency cycles,
                // while stereo raw storage stays below 128 KiB.
                oscilloscope_frames: 16_384,
                fft_size: 2_048,
                fft_hop_frames: 1_024,
                spectrum_bands: 96,
                spectrum_scale: SpectrumScale::Log,
                spectrogram_rows: 256,
            },
        )
    }

    /// Checks the configuration and counts what follows from it. A bucket is
    /// rounded up to whole frames.
    pub fn validate(self, timing: ScopeTiming) -> (result: Result<DerivedConfig, ScopeConfigError>)
        ensures
            match result {
                Ok(derived) => {
                    &&& self.problem(timing) is None
                    &&& Some(derived.correlation_frames) == timing.correlation_frames
                    &&& derived.waveform_frames_per_bucket == (timing.waveform_frames->0
                        + self.waveform_buckets - 1) / self.waveform_buckets as int
                    // The buckets hold the whole duration, and with a frame less each
                    // they would not.
                    &&& derived.waveform_frames_per_bucket * self.waveform_buckets
                        >= timing.waveform_frames->0
                    &&& (derived.waveform_frames_per_bucket - 1) * self.waveform_buckets
                        < timing.waveform_frames->0 || timing.waveform_frames->0 == 0
                },
                Err(problem) => self.problem(timing) == Some(problem),
            },
    {
        if !timing.sample_rate_valid {
            return Err(ScopeConfigError::InvalidSampleRate);
        }
        if self.max_block_frames == 0 {
            return Err(ScopeConfigError::InvalidBlockSize);
        }
        let correlation_frames: usize = match timing.correlation_frames {
            Some(frames) => frames,
            None => {
                return Err(ScopeConfigError::InvalidCorrelationWindow);
            },
        };
        if self.waveform_buckets == 0 {
            return Err(ScopeConfigError::InvalidWaveformBuckets);
        }
        let waveform_frames: usize = match timing.waveform_frames {
            Some(frames) => frames,
            None => {
                return Err(ScopeConfigError::InvalidWaveformDuration);
            },
        };
        let rounded_up: usize = match waveform_frames.checked_add(self.waveform_buckets - 1) {
            Some(frames) => frames,
            None => {
                return Err(ScopeConfigError::StorageTooLarge);
            },
        };
        let waveform_frames_per_bucket: usize = rounded_up / self.waveform_buckets;
        proof {
            let buckets = self.waveform_buckets as int;
            let width = waveform_frames_per_bucket as int;
            vstd::arithmetic::div_mod::lemma_fundamental_div_mod(rounded_up as int, buckets);
            vstd::arithmetic::div_mod::lemma_mod_bound(rounded_up as int, buckets);
            assert(width * buckets == buckets * width) by (nonlinear_arith);
            assert((width - 1) * buckets == width * buckets - buckets) by (nonlinear_arith);
        }
        if self.goniometer_points == 0 {
            return Err(ScopeConfigError::InvalidGoniometerPoints);
        }
        if self.goniometer_decimation_frames == 0 {
            return Err(ScopeConfigError::InvalidGoniometerDecimation);
        }
        if self.oscilloscope_frames == 0 {
            return Err(ScopeConfigError::InvalidOscilloscopeFrames);
        }
        if self.fft_size < 16 || binary_logarithm(self.fft_size).is_none() {
            return Err(ScopeConfigError::InvalidFftSize);
        }
        if self.fft_hop_frames == 0 || self.fft_hop_frames > self.fft_size {
            return Err(ScopeConfigError::InvalidFftHop);
        }
        if self.spectrum_bands == 0 {
            return Err(ScopeConfigError::InvalidSpectrumBands);
        }
        if self.spectrogram_rows == 0 {
            return Err(ScopeConfigError::InvalidSpectrogramRows);
        }
        if !timing.spectrum_range_valid {
            return Err(ScopeConfigError::InvalidSpectrumRange);
        }
        if !timing.ballistics_valid {
            return Err(ScopeConfigError::InvalidBallistics);
        }
        if self.spectrogram_rows.checked_mul(self.spectrum_bands).is_none() {
            return Err(ScopeConfigError::StorageTooLarge);
        }
        Ok(DerivedConfig { correlation_frames, waveform_frames_per_bucket })
    }
}

/// The exponent of a power of two.
pub fn binary_logarithm(number: usize) -> (exponent: Option<u32>)
    ensures
        match exponent {
            Some(exponent) => {
                &&& vstd::arithmetic::power2::is_pow2(number as int)
                &&& vstd::arithmetic::power2::pow2(exponent as nat) == number
                &&& exponent < 64
            },
            None => !vstd::arithmetic::power2::is_pow2(number as int),
        },
{
    proof {
        reveal(vstd::arithmetic::power2::is_pow2);
    }
    if number == 0 {
        return None;
    }
    let mut rest: usize = number;
    let mut exponent: u32 = 0;
    proof {
        vstd::arithmetic::power2::lemma2_to64();
        assert(number == rest * vstd::arithmetic::power2::pow2(0));
    }
    while rest > 1
        invariant
            1 <= rest,
            exponent < 64,
            number == rest * vstd::arithmetic::power2::pow2(exponent as nat),
            vstd::arithmetic::power2::is_pow2(number as int)
                == vstd::arithmetic::power2::is_pow2(rest as int),
        decreases rest,
    {
        proof {
            reveal(vstd::arithmetic::power2::is_pow2);
        }
        if rest % 2 == 1 {
            return None;
        }
        proof {
            vstd::arithmetic::power2::lemma_pow2_unfold((exponent + 1) as nat);
            let power = vstd::arithmetic::power2::pow2(exponent as nat);
            let half = (rest / 2) as int;
            assert(rest == half * 2);
            assert((half * 2) * power == half * (2 * power)) by (nonlinear_arith);
            if exponent == 63 {
                vstd::arithmetic::power2::lemma2_to64_rest();
                assert(rest * power >= 2 * power) by (nonlinear_arith)
                    requires
                        rest >= 2,
                        power >= 0,
                ;
            }
        }
        rest = rest / 2;
        exponent = exponent + 1;
    }
    Some(exponent)
}

impl ScopeConfig {
    /// A configuration is refused exactly where something is wrong with it, and what is
    /// named is wrong.
    pub proof fn what_is_named_is_wrong(self, timing: ScopeTiming)
        ensures
            self.problem(timing) is None <==> {
                &&& timing.sample_rate_valid
                &&& self.max_block_frames > 0
                &&& timing.correlation_frames is Some
                &&& self.waveform_buckets > 0
                &&& timing.waveform_frames is Some
                &&& timing.waveform_frames->0 + self.waveform_buckets - 1 <= usize::MAX
                &&& self.goniometer_points > 0
                &&& self.goniometer_decimation_frames > 0
                &&& self.oscilloscope_frames > 0
                &&& self.fft_size >= 16
                &&& vstd::arithmetic::power2::is_pow2(self.fft_size as int)
                &&& 1 <= self.fft_hop_frames <= self.fft_size
                &&& self.spectrum_bands > 0
                &&& self.spectrogram_rows > 0
                &&& timing.spectrum_range_valid
                &&& timing.ballistics_valid
                &&& self.spectrogram_rows * self.spectrum_bands <= usize::MAX
            },
            match self.problem(timing) {
                None => true,
                Some(ScopeConfigError::InvalidSampleRate) => !timing.sample_rate_valid,
                Some(ScopeConfigError::InvalidBlockSize) => self.max_block_frames == 0,
                Some(ScopeConfigError::InvalidCorrelationWindow) => timing.correlation_frames is None,
                Some(ScopeConfigError::InvalidWaveformBuckets) => self.waveform_buckets == 0,
                Some(ScopeConfigError::InvalidWaveformDuration) => timing.waveform_frames is None,
                Some(ScopeConfigError::InvalidGoniometerPoints) => self.goniometer_points == 0,
                Some(ScopeConfigError::InvalidGoniometerDecimation) => {
                    self.goniometer_decimation_frames == 0
                },
                Some(ScopeConfigError::InvalidOscilloscopeFrames) => self.oscilloscope_frames == 0,
                Some(ScopeConfigError::InvalidFftSize) => self.fft_size < 16
                    || !vstd::arithmetic::power2::is_pow2(self.fft_size as int),
                Some(ScopeConfigError::InvalidFftHop) => self.fft_hop_frames == 0
                    || self.fft_hop_frames > self.fft_size,
                Some(ScopeConfigError::InvalidSpectrumBands) => self.spectrum_bands == 0,
                Some(ScopeConfigError::InvalidSpectrogramRows) => self.spectrogram_rows == 0,
                Some(ScopeConfigError::InvalidSpectrumRange) => !timing.spectrum_range_valid,
                Some(ScopeConfigError::InvalidBallistics) => !timing.ballistics_valid,
                Some(ScopeConfigError::StorageTooLarge) => {
                    ||| timing.waveform_frames->0 + self.waveform_buckets - 1 > usize::MAX
                    ||| self.spectrogram_rows * self.spectrum_bands > usize::MAX
                },
            },
    {
    }
}

/// A block is refused exactly where its channels differ in length or are longer than
/// the maximum, and what is named is wrong.
pub proof fn blocks_are_refused_for_their_shape(left: nat, right: nat, maximum: usize)
    requires
        left <= usize::MAX,
    ensures
        block_problem(left, right, maximum) is None <==> left == right && left <= maximum,
        block_problem(left, right, maximum) == Some(ScopeProcessError::UnevenChannels) <==> left
            != right,
        block_problem(left, right, maximum) matches Some(
            ScopeProcessError::BlockTooLarge { maximum: most, actual },
        ) ==> most == maximum && actual == left && left > maximum,
{
}

} // verus!
