//! What a meter refuses, and the sentence for each refusal.
use crate::text::{decimal_text, push_decimal};
use vstd::prelude::*;

verus! {

/// Meter construction failure.
#[derive(Clone, Copy, Debug, PartialEq, Eq, Structural)]
pub enum ConfigError {
    /// Sample rate is non-finite, non-positive, or too low for this meter.
    InvalidSampleRate,
    /// No channels were configured.
    NoChannels,
    /// A channel weight is non-finite or negative.
    InvalidChannelWeight,
    /// Maximum block size is zero.
    InvalidBlockSize,
    /// Requested history duration is zero or cannot be represented.
    InvalidHistoryDuration,
}

impl ConfigError {
    /// The sentence for a log.
    pub open spec fn sentence(self) -> Seq<char> {
        match self {
            ConfigError::InvalidSampleRate => "sample rate must be finite and at least 8 kHz"@,
            ConfigError::NoChannels => "at least one channel is required"@,
            ConfigError::InvalidChannelWeight => "channel weights must be finite and non-negative"@,
            ConfigError::InvalidBlockSize => "maximum block size must be greater than zero"@,
            ConfigError::InvalidHistoryDuration => "history duration must be positive and fit addressable memory"@,
        }
    }

    /// The sentence for a log.
    pub fn message(&self) -> (message: String)
        ensures
            message@ == self.sentence(),
    {
        let message = match self {
            ConfigError::InvalidSampleRate => "sample rate must be finite and at least 8 kHz",
            ConfigError::NoChannels => "at least one channel is required",
            ConfigError::InvalidChannelWeight => "channel weights must be finite and non-negative",
            ConfigError::InvalidBlockSize => "maximum block size must be greater than zero",
            ConfigError::InvalidHistoryDuration => "history duration must be positive and fit addressable memory",
        };
        String::from_str(message)
    }
}

/// The sentence for a block that is longer than the configured maximum.
pub open spec fn too_large_sentence(maximum: usize, actual: usize) -> Seq<char> {
    "block has "@ + decimal_text(actual as nat) + " frames; configured maximum is "@
        + decimal_text(maximum as nat)
}

/// The sentence for a block that is longer than the configured maximum.
fn too_large_message(maximum: usize, actual: usize) -> (message: String)
    ensures
        message@ == too_large_sentence(maximum, actual),
{
    let mut message = String::from_str("block has ");
    push_decimal(&mut message, actual as u64);
    message.append(" frames; configured maximum is ");
    push_decimal(&mut message, maximum as u64);
    message
}

/// Audio block rejected by the configured meter.
#[derive(Clone, Copy, Debug, PartialEq, Eq, Structural)]
pub enum ProcessError {
    /// Input channel count differs from configured channel count.
    ChannelCount {
        /// Expected channel count.
        expected: usize,
        /// Received channel count.
        actual: usize,
    },
    /// Input block exceeds maximum size declared at construction.
    BlockTooLarge {
        /// Configured maximum.
        maximum: usize,
        /// Received frame count.
        actual: usize,
    },
    /// Channel slices do not all contain the same number of frames.
    UnevenChannels,
}

impl ProcessError {
    /// The sentence for a log.
    pub open spec fn sentence(self) -> Seq<char> {
        match self {
            ProcessError::ChannelCount { expected, actual } => "expected "@ + decimal_text(
                expected as nat,
            ) + " channels, received "@ + decimal_text(actual as nat),
            ProcessError::BlockTooLarge { maximum, actual } => too_large_sentence(maximum, actual),
            ProcessError::UnevenChannels => "all channel slices must have equal length"@,
        }
    }

    /// The sentence for a log.
    pub fn message(&self) -> (message: String)
        ensures
            message@ == self.sentence(),
    {
        match self {
            ProcessError::ChannelCount { expected, actual } => {
                let mut message = String::from_str("expected ");
                push_decimal(&mut message, *expected as u64);
                message.append(" channels, received ");
                push_decimal(&mut message, *actual as u64);
                message
            },
            ProcessError::BlockTooLarge { maximum, actual } => too_large_message(*maximum, *actual),
            ProcessError::UnevenChannels => String::from_str(
                "all channel slices must have equal length",
            ),
        }
    }
}

/// Invalid VU meter setting.
#[derive(Clone, Copy, Debug, PartialEq, Eq, Structural)]
pub enum VuConfigError {
    /// Sample rate is non-finite or below 8 kHz.
    InvalidSampleRate,
    /// Maximum input block size is zero.
    InvalidBlockSize,
    /// Calibration reference is not finite.
    InvalidCalibration,
    /// Attack or release is non-finite or negative.
    InvalidBallistics,
    /// Peak hold duration is non-finite, negative, or cannot fit a frame count.
    InvalidPeakHold,
}

impl VuConfigError {
    /// The sentence for a log.
    pub open spec fn sentence(self) -> Seq<char> {
        match self {
            VuConfigError::InvalidSampleRate => "sample rate must be finite and at least 8 kHz"@,
            VuConfigError::InvalidBlockSize => "maximum block size must be greater than zero"@,
            VuConfigError::InvalidCalibration => "VU calibration must be finite"@,
            VuConfigError::InvalidBallistics => "VU attack and release must be finite and non-negative"@,
            VuConfigError::InvalidPeakHold => "VU peak hold must be finite, non-negative, and representable"@,
        }
    }

    /// The sentence for a log.
    pub fn message(&self) -> (message: String)
        ensures
            message@ == self.sentence(),
    {
        let message = match self {
            VuConfigError::InvalidSampleRate => "sample rate must be finite and at least 8 kHz",
            VuConfigError::InvalidBlockSize => "maximum block size must be greater than zero",
            VuConfigError::InvalidCalibration => "VU calibration must be finite",
            VuConfigError::InvalidBallistics => "VU attack and release must be finite and non-negative",
            VuConfigError::InvalidPeakHold => "VU peak hold must be finite, non-negative, and representable",
        };
        String::from_str(message)
    }
}

/// Input block rejected by the VU meter.
#[derive(Clone, Copy, Debug, PartialEq, Eq, Structural)]
pub enum VuProcessError {
    /// Left and right slices do not have equal frame counts.
    UnevenChannels,
    /// Input exceeds maximum block size declared at construction.
    BlockTooLarge {
        /// Configured maximum frame count.
        maximum: usize,
        /// Received frame count.
        actual: usize,
    },
}

impl VuProcessError {
    /// The sentence for a log.
    pub open spec fn sentence(self) -> Seq<char> {
        match self {
            VuProcessError::UnevenChannels => "left and right slices must have equal length"@,
            VuProcessError::BlockTooLarge { maximum, actual } => too_large_sentence(
                maximum,
                actual,
            ),
        }
    }

    /// The sentence for a log.
    pub fn message(&self) -> (message: String)
        ensures
            message@ == self.sentence(),
    {
        match self {
            VuProcessError::UnevenChannels => String::from_str(
                "left and right slices must have equal length",
            ),
            VuProcessError::BlockTooLarge { maximum, actual } => too_large_message(
                *maximum,
                *actual,
            ),
        }
    }
}

} // verus!
