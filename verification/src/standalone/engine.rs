//! What the standalone engine is built with.
use crate::text::{decimal_text, push_decimal};
use vstd::prelude::*;

verus! {

/// The rate of the demo programme.
pub const SAMPLE_RATE: u32 = 48_000;

/// The lowest rate that the instrument measures.
pub const LOWEST_SAMPLE_RATE: u32 = 8_000;

/// The point cloud is driven by the 1024 non-Nyquist bins of a 2048-point FFT.
pub const DALIA_FFT_SIZE: usize = 2_048;

pub const DALIA_BIN_COUNT: usize = 1_024;

/// Points of each view.
pub const WAVEFORM_POINTS: usize = 256;

pub const GONIOMETER_POINTS: usize = 1_024;

pub const SPECTRUM_POINTS: usize = 96;

pub const SPECTROGRAM_ROWS: usize = 64;

pub const SPECTROGRAM_BANDS: usize = 48;

/// Blocks in the ring between capture and window, and the channels of each.
pub const RING_BLOCKS: usize = 8;

pub const RING_CHANNELS: usize = 2;

/// Why no engine can be built.
#[derive(Clone, Copy, Debug, PartialEq, Eq, Structural)]
pub enum EngineError {
    /// The input is too slow to be measured.
    RateTooLow { sample_rate: u32 },
    /// The scope's FFT does not have the bins that the point cloud reads.
    FftMismatch { fft_size: usize },
}

impl EngineError {
    /// The sentence for the terminal.
    pub open spec fn sentence(self) -> Seq<char> {
        match self {
            EngineError::RateTooLow { sample_rate } => "input sample rate "@ + decimal_text(
                sample_rate as nat,
            ) + " Hz is too low for Neta"@,
            EngineError::FftMismatch { fft_size } => "Neta scope FFT is "@ + decimal_text(
                fft_size as nat,
            ) + "; Dalia adapter requires "@ + decimal_text(DALIA_FFT_SIZE as nat),
        }
    }

    /// The sentence for the terminal.
    pub fn message(&self) -> (message: String)
        ensures
            message@ == self.sentence(),
    {
        match self {
            EngineError::RateTooLow { sample_rate } => {
                let mut message = String::from_str("input sample rate ");
                push_decimal(&mut message, *sample_rate as u64);
                message.append(" Hz is too low for Neta");
                message
            },
            EngineError::FftMismatch { fft_size } => {
                let mut message = String::from_str("Neta scope FFT is ");
                push_decimal(&mut message, *fft_size as u64);
                message.append("; Dalia adapter requires ");
                push_decimal(&mut message, DALIA_FFT_SIZE as u64);
                message
            },
        }
    }
}

/// Checks the rate before anything is built.
pub fn check_rate(sample_rate: u32) -> (result: Result<(), EngineError>)
    ensures
        result == (if sample_rate < LOWEST_SAMPLE_RATE {
            Err::<(), EngineError>(EngineError::RateTooLow { sample_rate })
        } else {
            Ok(())
        }),
{
    if sample_rate < LOWEST_SAMPLE_RATE {
        Err(EngineError::RateTooLow { sample_rate })
    } else {
        Ok(())
    }
}

/// Checks that the scope has the bins that the point cloud reads.
pub fn check_fft(fft_size: usize) -> (result: Result<(), EngineError>)
    ensures
        result == (if fft_size != DALIA_FFT_SIZE {
            Err::<(), EngineError>(EngineError::FftMismatch { fft_size })
        } else {
            Ok(())
        }),
{
    if fft_size != DALIA_FFT_SIZE {
        Err(EngineError::FftMismatch { fft_size })
    } else {
        Ok(())
    }
}

} // verus!
