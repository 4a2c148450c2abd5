//! What the display scope and the spectrum banks are built with.
use crate::editor::slots::SPECTRUM_POINTS;
use crate::plugin::banks::{ScopeBanks, BANK_COUNT};
use crate::scope::config::{ScopeConfig, ScopeTiming};
use vstd::prelude::*;

verus! {

/// The FFT size of a bank.
pub open spec fn fft_frames(bank: int) -> usize {
    if bank == 0 {
        1_024
    } else if bank == 1 {
        2_048
    } else if bank == 2 {
        4_096
    } else if bank == 3 {
        8_192
    } else {
        16_384
    }
}

/// The FFT size of a bank. An index beyond the banks stands for the last one.
pub fn fft_size(index: usize) -> (frames: usize)
    ensures
        frames == fft_frames(ScopeBanks::bank_at(index)),
{
    if index == 0 {
        1_024
    } else if index == 1 {
        2_048
    } else if index == 2 {
        4_096
    } else if index == 3 {
        8_192
    } else {
        16_384
    }
}

/// The visible waveform/stereo/scope analyzer never receives FFT work. Its
/// unused spectrum storage is tiny while the raw-scope history is kept whole
/// for safe pitch triggering.
pub open spec fn for_display(config: ScopeConfig) -> ScopeConfig {
    ScopeConfig {
        fft_size: 16,
        fft_hop_frames: 16,
        spectrum_bands: 1,
        spectrogram_rows: 1,
        ..config
    }
}

/// The display scope's configuration.
pub fn display_config(config: ScopeConfig) -> (result: ScopeConfig)
    ensures
        result == for_display(config),
{
    ScopeConfig {
        max_block_frames: config.max_block_frames,
        waveform_buckets: config.waveform_buckets,
        goniometer_points: config.goniometer_points,
        goniometer_decimation_frames: config.goniometer_decimation_frames,
        oscilloscope_frames: config.oscilloscope_frames,
        fft_size: 16,
        fft_hop_frames: 16,
        spectrum_bands: 1,
        spectrum_scale: config.spectrum_scale,
        spectrogram_rows: 1,
    }
}

/// Spectrum banks never process correlation, waveform, goniometer, or raw
/// scope data. Their dormant representations have the smallest valid capacity.
pub open spec fn for_bank(config: ScopeConfig, bank: int) -> ScopeConfig {
    ScopeConfig {
        waveform_buckets: 1,
        goniometer_points: 1,
        goniometer_decimation_frames: 1,
        oscilloscope_frames: 1,
        fft_size: fft_frames(bank),
        fft_hop_frames: fft_frames(bank) / 2,
        spectrum_bands: SPECTRUM_POINTS,
        ..config
    }
}

/// The configuration of a spectrum bank.
pub fn fft_scope_config(config: ScopeConfig, bank: usize) -> (result: ScopeConfig)
    requires
        bank < BANK_COUNT,
    ensures
        result == for_bank(config, bank as int),
{
    let frames: usize = fft_size(bank);
    ScopeConfig {
        max_block_frames: config.max_block_frames,
        waveform_buckets: 1,
        goniometer_points: 1,
        goniometer_decimation_frames: 1,
        oscilloscope_frames: 1,
        fft_size: frames,
        fft_hop_frames: frames / 2,
        spectrum_bands: SPECTRUM_POINTS,
        spectrum_scale: config.spectrum_scale,
        spectrogram_rows: config.spectrogram_rows,
    }
}

/// Where a scope can be built as recommended, the display scope and every bank
/// can be built too.
pub proof fn display_and_banks_can_be_built(
    config: ScopeConfig,
    timing: ScopeTiming,
    one_frame: ScopeTiming,
    bank: int,
)
    requires
        config.problem(timing) is None,
        config.spectrogram_rows <= 256,
        one_frame == (ScopeTiming {
            correlation_frames: Some(1usize),
            waveform_frames: Some(1usize),
            ..timing
        }),
        0 <= bank < BANK_COUNT,
    ensures
        for_display(config).problem(timing) is None,
        for_bank(config, bank).problem(one_frame) is None,
{
    reveal_with_fuel(vstd::arithmetic::power2::is_pow2, 16);
    assert(vstd::arithmetic::power2::is_pow2(16));
    assert(vstd::arithmetic::power2::is_pow2(fft_frames(bank) as int));
    assert(config.spectrogram_rows * SPECTRUM_POINTS <= 256 * 96) by (nonlinear_arith)
        requires
            config.spectrogram_rows <= 256,
            SPECTRUM_POINTS == 96,
    ;
}

/// Each bank has twice the FFT size of the one in front of it, the first 1024 frames,
/// and looks at its input again after half of it. What the settings choose of the
/// spectrum stays.
pub proof fn banks_double_in_size(config: ScopeConfig, bank: int)
    requires
        0 <= bank < BANK_COUNT,
    ensures
        fft_frames(0) == 1_024,
        bank + 1 < BANK_COUNT ==> fft_frames(bank + 1) == 2 * fft_frames(bank),
        for_bank(config, bank).fft_size == fft_frames(bank),
        2 * for_bank(config, bank).fft_hop_frames == fft_frames(bank),
        for_bank(config, bank).spectrum_scale == config.spectrum_scale,
        for_bank(config, bank).spectrogram_rows == config.spectrogram_rows,
        for_bank(config, bank).spectrum_bands == SPECTRUM_POINTS,
        for_bank(config, bank).max_block_frames == config.max_block_frames,
{
}

/// The display scope keeps everything of a configuration that it shows.
pub proof fn display_keeps_what_it_shows(config: ScopeConfig)
    ensures
        for_display(config).waveform_buckets == config.waveform_buckets,
        for_display(config).goniometer_points == config.goniometer_points,
        for_display(config).goniometer_decimation_frames == config.goniometer_decimation_frames,
        for_display(config).oscilloscope_frames == config.oscilloscope_frames,
        for_display(config).max_block_frames == config.max_block_frames,
        for_display(config).fft_size <= config.fft_size || config.fft_size < 16,
{
}

} // verus!
