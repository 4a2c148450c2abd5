use neta::meter::errors::{ConfigError, ProcessError, VuConfigError, VuProcessError};
use neta::meter::gating::{key_bits, loudness_key, loudness_range as gated_range};
use neta::meter::histogram::{
    percentile_rank, HistogramSpan, LoudnessHistogram, LoudnessHistogramKind, HISTOGRAM_BINS,
};
use neta::meter::loudness::{Filing, LoudnessMeter, MeterTiming, DEFAULT_HISTORY_SECONDS};
use neta::meter::vu::{VuMeter, VuMode, VuReading, VuTiming};
use neta::meter::window::EnergyWindow;

const SAMPLE_RATE: f64 = 48_000.0;
const BLOCK: usize = 512;
const LOUDNESS_OFFSET: f64 = -0.691;
const ABSOLUTE_GATE_LUFS: f64 = -70.0;
const BIN_LU: f64 = 0.1;

fn timing() -> MeterTiming {
    MeterTiming {
        sample_rate_valid: true,
        weights_valid: true,
        momentary_frames: Some(19_200),
        short_term_frames: Some(144_000),
        step_frames: Some(4_800),
    }
}

fn loudness_from_energy(energy: f64) -> f64 {
    if energy > 0.0 {
        LOUDNESS_OFFSET + 10.0 * energy.log10()
    } else {
        f64::NEG_INFINITY
    }
}

fn energy_at_loudness(loudness: f64) -> f64 {
    10.0_f64.powf((loudness - LOUDNESS_OFFSET) / 10.0)
}

fn filing(meter: &LoudnessMeter<f64>, kind: LoudnessHistogramKind, energy: f64) -> Option<Filing<f64>> {
    let loudness = loudness_from_energy(energy);
    if loudness > ABSOLUTE_GATE_LUFS {
        let offset = (loudness - ABSOLUTE_GATE_LUFS) / BIN_LU;
        let slot = LoudnessHistogram::<f64>::slot(offset as usize);
        let histogram = meter.histogram(kind);
        Some(Filing {
            slot,
            bin_energy: histogram.bin(slot).energy + energy,
            absolute_sum: histogram.absolute_sum() + energy,
        })
    } else {
        None
    }
}

/// A meter with the running sums of its two windows.
struct Level {
    meter: LoudnessMeter<f64>,
    momentary: f64,
    short_term: f64,
    max_momentary: f64,
    max_short_term: f64,
}

impl Level {
    fn new(history_seconds: usize) -> Self {
        Level {
            meter: LoudnessMeter::with_history(timing(), 2, BLOCK, history_seconds, 0.0).unwrap(),
            momentary: 0.0,
            short_term: 0.0,
            max_momentary: 0.0,
            max_short_term: 0.0,
        }
    }

    fn record(&mut self, kind: LoudnessHistogramKind, energy: f64) {
        let filing = filing(&self.meter, kind, energy);
        self.meter.record_block(kind, energy, filing);
    }

    fn push(&mut self, energy: f64) {
        let step = self.meter.push_energy(energy);
        self.momentary += energy - step.leaving_momentary.unwrap_or(0.0);
        self.short_term += energy - step.leaving_short_term.unwrap_or(0.0);
        let momentary = self.momentary / 19_200.0;
        let short_term = self.short_term / 144_000.0;
        if step.momentary_full {
            self.max_momentary = self.max_momentary.max(momentary);
        }
        if step.short_term_full {
            self.max_short_term = self.max_short_term.max(short_term);
        }
        if step.integrated_due {
            self.record(LoudnessHistogramKind::Integrated, momentary);
        }
        if step.short_term_due {
            self.record(LoudnessHistogramKind::ShortTerm, short_term);
        }
    }

    fn push_level(&mut self, seconds: f64, loudness: Option<f64>) {
        let frames = (seconds * SAMPLE_RATE).round() as usize;
        let energy = loudness.map_or(0.0, energy_at_loudness);
        for _ in 0..frames {
            self.push(energy);
        }
    }

    fn momentary_lufs(&self) -> f64 {
        assert!(self.meter.window().momentary_full());
        loudness_from_energy(self.momentary / 19_200.0)
    }

    fn short_term_lufs(&self) -> f64 {
        assert!(self.meter.window().short_term_full());
        loudness_from_energy(self.short_term / 144_000.0)
    }
}

fn assert_close(actual: f64, expected: f64, tolerance: f64) {
    assert!(
        (actual - expected).abs() <= tolerance,
        "expected {expected} +/- {tolerance}, got {actual}"
    );
}

#[test]
fn tech_3341_test_9_short_term_rectangular_window() {
    let mut meter = Level::new(20);
    for _ in 0..5 {
        meter.push_level(1.34, Some(-20.0));
        meter.push_level(1.66, Some(-30.0));
    }
    assert_close(meter.short_term_lufs(), -23.0, 0.1);
}

#[test]
fn tech_3341_test_10_max_short_term_ignores_leading_silence() {
    for index in 0..20 {
        let mut meter = Level::new(10);
        meter.push_level(index as f64 * 0.15, None);
        meter.push_level(3.0, Some(-23.0));
        meter.push_level(1.0, None);
        assert_close(loudness_from_energy(meter.max_short_term), -23.0, 0.1);
    }
}

#[test]
fn tech_3341_test_11_live_max_short_term_sequence() {
    let mut meter = Level::new(130);
    for index in 0..20 {
        let leading = index as f64 * 0.15;
        let level = -38.0 + index as f64;
        meter.push_level(leading, None);
        meter.push_level(3.0, Some(level));
        meter.push_level(3.0 - leading, None);
        assert_close(loudness_from_energy(meter.max_short_term), level, 0.1);
    }
}

#[test]
fn tech_3341_test_12_momentary_rectangular_window() {
    let mut meter = Level::new(20);
    for _ in 0..25 {
        meter.push_level(0.18, Some(-20.0));
        meter.push_level(0.22, Some(-30.0));
    }
    assert_close(meter.momentary_lufs(), -23.0, 0.1);
}

#[test]
fn tech_3341_test_13_max_momentary_ignores_leading_silence() {
    for index in 0..20 {
        let mut meter = Level::new(3);
        meter.push_level(index as f64 * 0.02, None);
        meter.push_level(0.4, Some(-23.0));
        meter.push_level(1.0, None);
        assert_close(loudness_from_energy(meter.max_momentary), -23.0, 0.1);
    }
}

#[test]
fn tech_3341_test_14_live_max_momentary_sequence() {
    let mut meter = Level::new(20);
    for index in 0..20 {
        let leading = index as f64 * 0.02;
        let level = -38.0 + index as f64;
        meter.push_level(leading, None);
        meter.push_level(0.4, Some(level));
        meter.push_level(0.4 - leading, None);
        assert_close(loudness_from_energy(meter.max_momentary), level, 0.1);
    }
}

#[test]
fn process_rejects_wrong_shape_before_audio_work() {
    let meter = LoudnessMeter::with_history(timing(), 2, 16, 1, 0.0_f64).unwrap();
    let mono = [0.0_f32; 16];
    assert_eq!(
        meter.check_block(&[&mono[..]]),
        Err(ProcessError::ChannelCount {
            expected: 2,
            actual: 1
        })
    );
    let large = [0.0_f32; 17];
    assert_eq!(
        meter.check_block(&[&large[..], &large[..]]),
        Err(ProcessError::BlockTooLarge {
            maximum: 16,
            actual: 17
        })
    );
}

#[test]
fn blocks_of_the_right_shape_are_counted() {
    let meter = LoudnessMeter::with_history(timing(), 2, 16, 1, 0.0_f64).unwrap();
    let left = [0.75_f32; 16];
    let right = [0.75_f32; 15];
    assert_eq!(
        meter.check_block(&[&left[..], &right[..]]),
        Err(ProcessError::UnevenChannels)
    );
    assert_eq!(meter.check_block(&[&left[..], &left[..]]), Ok(16));
    assert_eq!(meter.check_block::<f32>(&[&[], &[]]), Ok(0));
    assert_eq!(meter.channel_count(), 2);
    assert_eq!(
        ProcessError::ChannelCount {
            expected: 2,
            actual: 1
        }
        .message(),
        "expected 2 channels, received 1"
    );
    assert_eq!(
        ProcessError::BlockTooLarge {
            maximum: 16,
            actual: 17
        }
        .message(),
        "block has 17 frames; configured maximum is 16"
    );
    assert_eq!(
        ProcessError::UnevenChannels.message(),
        "all channel slices must have equal length"
    );
}

#[test]
fn every_construction_problem_is_named() {
    let build = |timing: MeterTiming, channels: usize, block: usize, seconds: usize| {
        LoudnessMeter::with_history(timing, channels, block, seconds, 0_u8).map(|_| ())
    };
    let slow = MeterTiming {
        sample_rate_valid: false,
        ..timing()
    };
    let heavy = MeterTiming {
        weights_valid: false,
        ..timing()
    };
    let endless = MeterTiming {
        short_term_frames: None,
        ..timing()
    };
    assert_eq!(build(slow, 0, 0, 0), Err(ConfigError::InvalidSampleRate));
    assert_eq!(build(heavy, 0, 0, 0), Err(ConfigError::NoChannels));
    assert_eq!(build(heavy, 1, 0, 0), Err(ConfigError::InvalidChannelWeight));
    assert_eq!(build(endless, 1, 0, 0), Err(ConfigError::InvalidBlockSize));
    assert_eq!(
        build(endless, 1, 8, 0),
        Err(ConfigError::InvalidHistoryDuration)
    );
    assert_eq!(build(endless, 1, 8, 1), Err(ConfigError::InvalidSampleRate));
    assert_eq!(
        build(timing(), 1, 8, usize::MAX / 10 + 1),
        Err(ConfigError::InvalidHistoryDuration)
    );
    assert_eq!(build(timing(), 1, 8, 1), Ok(()));
    assert_eq!(DEFAULT_HISTORY_SECONDS, 12 * 60 * 60);
    assert_eq!(
        LoudnessMeter::new(timing(), 0, 8, 0_u8).unwrap_err(),
        ConfigError::NoChannels
    );
    assert_eq!(
        ConfigError::NoChannels.message(),
        "at least one channel is required"
    );
    assert_eq!(
        ConfigError::InvalidHistoryDuration.message(),
        "history duration must be positive and fit addressable memory"
    );
}

#[test]
fn realtime_gating_outlives_bounded_history() {
    let mut level = Level::new(8);
    level.push_level(12.0, Some(-12.0));
    assert!(
        !level.meter.history_complete(),
        "test premise: history should overflow"
    );
    // 12 s of 400 ms blocks every 100 ms: 117 blocks, of which 81 fit.
    let kind = LoudnessHistogramKind::Integrated;
    assert_eq!(level.meter.blocks(kind).len(), 81);
    assert_eq!(level.meter.histogram(kind).absolute_count(), 117);
}

#[test]
fn reset_preserves_capacity_and_clears_measurement() {
    let mut level = Level::new(10);
    level.push_level(1.0, Some(-18.0));
    let kind = LoudnessHistogramKind::Integrated;
    assert_eq!(level.meter.blocks(kind).len(), 7);
    assert_eq!(level.meter.histogram(kind).absolute_count(), 7);
    level.meter.reset();
    assert_eq!(level.meter.window().short_term_frames(), 144_000);
    assert_eq!(level.meter.window().momentary_frames(), 19_200);
    assert_eq!(level.meter.blocks(kind).len(), 0);
    assert_eq!(level.meter.histogram(kind).absolute_count(), 0);
    assert_eq!(level.meter.histogram(kind).absolute_sum(), 0.0);
    assert_eq!(level.meter.window().processed(), 0);
    assert!(level.meter.history_complete());
}

#[test]
fn loudness_histogram_resamples_fixed_storage_without_history_scan() {
    let mut meter = LoudnessMeter::with_history(timing(), 2, BLOCK, 1, 0.0_f64).unwrap();
    let kind = LoudnessHistogramKind::Integrated;
    for loudness in [-32.0, -20.0, -20.0] {
        let energy = energy_at_loudness(loudness);
        let filing = filing(&meter, kind, energy);
        meter.record_block(kind, energy, filing);
    }
    let mut output = [HistogramSpan {
        first: 0,
        end: 0,
        count: 0,
    }; 4];

    assert_eq!(meter.copy_loudness_histogram(kind, &mut output), 4);
    assert_eq!(output.iter().map(|bin| bin.count).sum::<u64>(), 3);
    assert_eq!(ABSOLUTE_GATE_LUFS + output[0].first as f64 * BIN_LU, -70.0);
    assert_close(
        ABSOLUTE_GATE_LUFS + output[3].end as f64 * BIN_LU,
        10.0 + BIN_LU,
        0.000_001,
    );
    let mean = |span: &HistogramSpan| {
        let energy: f64 = (span.first..span.end)
            .map(|index| meter.histogram(kind).bin(index).energy)
            .sum();
        loudness_from_energy(energy / span.count as f64)
    };
    assert!(output
        .iter()
        .filter(|span| span.count > 0)
        .map(mean)
        .any(|mean| mean > -21.0));
}

#[test]
fn buckets_share_out_every_bin_once() {
    let mut histogram = LoudnessHistogram::new(0_u64);
    for offset in 0..900_usize {
        let slot = LoudnessHistogram::<u64>::slot(offset);
        let energy = histogram.bin(slot).energy + 1;
        let sum = histogram.absolute_sum() + 1;
        histogram.push(slot, energy, sum);
    }
    assert_eq!(LoudnessHistogram::<u64>::slot(5_000), 800);
    assert_eq!(histogram.bin(800).count, 100);
    assert_eq!(histogram.bin(799).count, 1);
    let blank = HistogramSpan {
        first: 9,
        end: 9,
        count: 9,
    };
    for length in [1_usize, 2, 7, 64, 800, 801, 803] {
        let mut spans = vec![blank; length];
        let amount = histogram.copy_resampled(&mut spans);
        assert_eq!(amount, length.min(HISTOGRAM_BINS));
        assert_eq!(spans[0].first, 0);
        assert_eq!(spans[amount - 1].end, HISTOGRAM_BINS);
        for pair in spans[..amount].windows(2) {
            assert_eq!(pair[0].end, pair[1].first);
            assert!(pair[0].first < pair[0].end);
        }
        assert_eq!(
            spans[..amount].iter().map(|span| span.count).sum::<u64>(),
            900
        );
        assert!(spans[amount..].iter().all(|span| *span == blank));
    }
    assert_eq!(histogram.copy_resampled(&mut []), 0);
    assert_eq!(histogram.count_between(10, 20), 10);
}

#[test]
fn percentiles_round_to_the_nearest_rank() {
    for total in 1..2_000_u64 {
        for (percent, probability) in [(10, 0.10_f64), (95, 0.95)] {
            let expected = ((total - 1) as f64 * probability).round() as u64;
            assert_eq!(percentile_rank(total, percent), expected, "{total} {percent}");
        }
    }
    assert_eq!(percentile_rank(u64::MAX, 100), u64::MAX - 1);
}

#[test]
fn loudness_range_spans_the_percentiles_above_the_gate() {
    let mut histogram = LoudnessHistogram::new(0_u8);
    for (slot, count) in [(100, 50), (200, 10), (300, 80), (400, 10)] {
        for _ in 0..count {
            histogram.push(slot, 0, 0);
        }
    }
    // All 150: ranks 15 and 142.
    assert_eq!(histogram.range(0), Some((100, 400)));
    // Above the first 50: ranks 10 and 94 of 100.
    assert_eq!(histogram.range(150), Some((300, 400)));
    // Above the first 60: ranks 9 and 85 of 90.
    assert_eq!(histogram.range(201), Some((300, 400)));
    assert_eq!(histogram.range(301), Some((400, 400)));
    assert_eq!(histogram.range(401), None);
    assert_eq!(histogram.bin_of_rank(0, 49), 100);
    assert_eq!(histogram.bin_of_rank(0, 50), 200);
    histogram.clear();
    assert_eq!(histogram.range(0), None);
    assert_eq!(histogram.absolute_count(), 0);
}

#[test]
fn windows_let_go_of_what_is_too_old() {
    let mut window = EnergyWindow::new(2, 4, 2, 0_i64);
    let mut sums = (0, 0);
    let mut due = Vec::new();
    for energy in 1..=9_i64 {
        let step = window.push(energy);
        sums.0 += energy - step.leaving_momentary.unwrap_or(0);
        sums.1 += energy - step.leaving_short_term.unwrap_or(0);
        assert_eq!(sums.0, (energy - 1).max(0) + energy);
        assert_eq!(sums.1, (1..=energy).rev().take(4).sum::<i64>());
        assert_eq!(step.momentary_full, energy >= 2);
        assert_eq!(step.short_term_full, energy >= 4);
        due.push((step.integrated_due, step.short_term_due));
    }
    let integrated: Vec<usize> = (0..9).filter(|i| due[*i].0).map(|i| i + 1).collect();
    let short_term: Vec<usize> = (0..9).filter(|i| due[*i].1).map(|i| i + 1).collect();
    assert_eq!(integrated, vec![2, 4, 6, 8]);
    assert_eq!(short_term, vec![4, 6, 8]);
    assert_eq!(window.processed(), 9);
}

/// A VU meter with its ballistics, as floats.
struct Needle {
    meter: VuMeter<f64>,
    attack: f64,
    release: f64,
}

fn vu_timing(peak_hold_frames: Option<u64>) -> VuTiming {
    VuTiming {
        sample_rate_valid: true,
        calibration_valid: true,
        ballistics_valid: true,
        peak_hold_frames,
    }
}

fn coefficient(seconds: f64) -> f64 {
    if seconds == 0.0 {
        0.0
    } else {
        (-1.0 / (seconds * SAMPLE_RATE)).exp()
    }
}

impl Needle {
    fn new(mode: VuMode, block: usize, attack: f64, release: f64, hold: f64) -> Self {
        let hold = (hold * SAMPLE_RATE).round() as u64;
        Needle {
            meter: VuMeter::new(mode, block, vu_timing(Some(hold)), 0.0).unwrap(),
            attack: coefficient(attack),
            release: coefficient(release),
        }
    }

    fn amplitude(mode: VuMode, detector: f64) -> f64 {
        match mode {
            VuMode::Peak => detector.max(0.0),
            _ => detector.max(0.0).sqrt(),
        }
    }

    fn reading(&self, detector: f64, peak: f64, sample: f32) -> VuReading<f64> {
        let mode = self.meter.mode;
        let sample = f64::from(sample);
        let target = match mode {
            VuMode::Peak => sample.abs(),
            _ => sample * sample,
        };
        let coefficient = if target > detector {
            self.attack
        } else {
            self.release
        };
        let detector = target + (detector - target) * coefficient;
        VuReading {
            detector,
            reaches_peak: Self::amplitude(mode, detector) >= Self::amplitude(mode, peak),
            fallen_peak: target + (peak - target) * self.release,
        }
    }

    fn process(&mut self, left: &[f32], right: &[f32]) -> Result<(), VuProcessError> {
        self.meter.check_block(left.len(), right.len())?;
        for (l, r) in left.iter().zip(right) {
            let channels = (self.meter.left, self.meter.right);
            let one = self.reading(channels.0.detector, channels.0.peak_hold, *l);
            let two = self.reading(channels.1.detector, channels.1.peak_hold, *r);
            self.meter.take_frame(&one, &two);
        }
        self.meter.finish_block(left.len());
        Ok(())
    }

    fn level(&self, detector: f64) -> Option<f64> {
        let amplitude = Self::amplitude(self.meter.mode, detector);
        (amplitude > 0.0).then(|| 20.0 * amplitude.log10())
    }
}

#[test]
fn vu_meter_reports_calibrated_rms_and_holds_peak() {
    let mut needle = Needle::new(VuMode::Rms, BLOCK, 0.0, 0.3, 0.2);
    let samples = [10.0_f32.powf(-18.0 / 20.0); BLOCK];
    needle.process(&samples, &samples).unwrap();
    let level = needle.level(needle.meter.left.detector).unwrap();
    assert_close(level, -18.0, 0.01);
    assert_close(level - -18.0, 0.0, 0.01);

    needle.process(&[0.0; BLOCK], &[0.0; BLOCK]).unwrap();
    let held = needle.level(needle.meter.left.peak_hold).unwrap();
    assert_close(held, -18.0, 0.01);
    assert!(needle.meter.set_mode(VuMode::Peak));
    assert_eq!(needle.level(needle.meter.left.detector), None);
}

#[test]
fn vu_meter_peak_mode_is_instant_and_rejects_bad_blocks() {
    let mut needle = Needle::new(VuMode::Vu, 8, 0.3, 0.3, 1.5);
    needle.meter.set_mode(VuMode::Peak);
    needle.attack = coefficient(0.0);
    needle.release = coefficient(0.0);
    needle.process(&[0.5; 8], &[0.25; 8]).unwrap();
    assert_close(needle.level(needle.meter.left.detector).unwrap(), -6.0206, 0.001);
    assert_close(
        needle.level(needle.meter.right.detector).unwrap(),
        -12.0412,
        0.001,
    );
    assert_eq!(
        needle.process(&[0.0; 8], &[0.0; 7]),
        Err(VuProcessError::UnevenChannels)
    );
    assert_eq!(needle.meter.processed_frames, 8);
}

#[test]
fn peak_is_pinned_for_its_hold_time() {
    let mut meter = VuMeter::new(VuMode::Vu, 4, vu_timing(Some(3)), 0_u32).unwrap();
    let peak = VuReading {
        detector: 9,
        reaches_peak: true,
        fallen_peak: 0,
    };
    let quiet = VuReading {
        detector: 2,
        reaches_peak: false,
        fallen_peak: 5,
    };
    meter.take_frame(&peak, &quiet);
    // Nothing was pinned on the right, so its peak falls at once.
    assert_eq!(meter.right.peak_hold, 5);
    for _ in 0..3 {
        meter.take_frame(&quiet, &quiet);
        assert_eq!(meter.left.peak_hold, 9);
        assert_eq!(meter.left.detector, 2);
    }
    meter.take_frame(&quiet, &quiet);
    assert_eq!(meter.left.peak_hold, 5);
    meter.finish_block(5);
    assert!(!meter.set_mode(VuMode::Vu));
    assert_eq!(meter.left.peak_hold, 5);
    meter.reset();
    assert_eq!((meter.left.peak_hold, meter.processed_frames), (0, 0));
    assert_eq!(meter.peak_hold_frames, 3);
    meter.processed_frames = u64::MAX - 1;
    meter.finish_block(4);
    assert_eq!(meter.processed_frames, u64::MAX);
}

#[test]
fn every_vu_problem_is_named() {
    let build = |timing: VuTiming, block: usize| {
        VuMeter::new(VuMode::Vu, block, timing, 0_u8).map(|_| ())
    };
    let good = vu_timing(Some(1));
    assert_eq!(
        build(
            VuTiming {
                sample_rate_valid: false,
                ..good
            },
            0
        ),
        Err(VuConfigError::InvalidSampleRate)
    );
    assert_eq!(build(good, 0), Err(VuConfigError::InvalidBlockSize));
    assert_eq!(
        build(
            VuTiming {
                calibration_valid: false,
                ..good
            },
            8
        ),
        Err(VuConfigError::InvalidCalibration)
    );
    assert_eq!(
        build(
            VuTiming {
                ballistics_valid: false,
                ..good
            },
            8
        ),
        Err(VuConfigError::InvalidBallistics)
    );
    assert_eq!(
        build(vu_timing(None), 8),
        Err(VuConfigError::InvalidPeakHold)
    );
    let mut meter = VuMeter::new(VuMode::default(), 8, good, 0_u8).unwrap();
    assert_eq!(meter.mode, VuMode::Vu);
    assert_eq!(meter.set_peak_hold(Some(7)), Ok(()));
    assert_eq!(
        meter.set_peak_hold(None),
        Err(VuConfigError::InvalidPeakHold)
    );
    assert_eq!(meter.peak_hold_frames, 7);
    assert_eq!(
        meter.check_block(9, 9),
        Err(VuProcessError::BlockTooLarge {
            maximum: 8,
            actual: 9
        })
    );
    assert_eq!(
        VuProcessError::BlockTooLarge {
            maximum: 8,
            actual: 9
        }
        .message(),
        "block has 9 frames; configured maximum is 8"
    );
    assert_eq!(
        VuProcessError::UnevenChannels.message(),
        "left and right slices must have equal length"
    );
    assert_eq!(
        VuConfigError::InvalidPeakHold.message(),
        "VU peak hold must be finite, non-negative, and representable"
    );
}

fn key(loudness: f64) -> i64 {
    loudness_key(loudness.to_bits())
}

fn value(key: i64) -> f64 {
    f64::from_bits(key_bits(key))
}

/// The loudness range of blocks above a gate that lies twenty LU under their mean.
fn loudness_range(blocks: &[f64], scratch: &mut Vec<i64>) -> Option<f64> {
    let loud: Vec<f64> = blocks
        .iter()
        .copied()
        .filter(|energy| loudness_from_energy(*energy) > ABSOLUTE_GATE_LUFS)
        .collect();
    let mean = loud.iter().sum::<f64>() / loud.len() as f64;
    let gate = loudness_from_energy(mean) - 20.0;
    let keys: Vec<i64> = blocks
        .iter()
        .map(|energy| key(loudness_from_energy(*energy)))
        .collect();
    let (low, high) = gated_range(&keys, key(ABSOLUTE_GATE_LUFS), key(gate), scratch)?;
    Some(value(high) - value(low))
}

#[test]
fn tech_3342_test_1_ten_lu_range() {
    let loud = energy_at_loudness(-20.0);
    let quiet = energy_at_loudness(-30.0);
    let mut blocks = vec![loud; 200];
    blocks.extend(vec![quiet; 200]);
    let mut scratch = Vec::with_capacity(blocks.len());
    assert_close(loudness_range(&blocks, &mut scratch).unwrap(), 10.0, 0.01);
}

#[test]
fn tech_3342_test_2_five_lu_range() {
    let mut blocks = vec![energy_at_loudness(-20.0); 200];
    blocks.extend(vec![energy_at_loudness(-15.0); 200]);
    let mut scratch = Vec::with_capacity(blocks.len());
    assert_close(loudness_range(&blocks, &mut scratch).unwrap(), 5.0, 0.01);
}

#[test]
fn tech_3342_test_3_twenty_lu_range() {
    let mut blocks = vec![energy_at_loudness(-40.0); 200];
    blocks.extend(vec![energy_at_loudness(-20.0); 200]);
    let mut scratch = Vec::with_capacity(blocks.len());
    assert_close(loudness_range(&blocks, &mut scratch).unwrap(), 20.0, 0.01);
}

#[test]
fn tech_3342_test_4_relative_gate_yields_fifteen_lu() {
    let mut blocks = vec![energy_at_loudness(-50.0); 200];
    blocks.extend(vec![energy_at_loudness(-35.0); 200]);
    blocks.extend(vec![energy_at_loudness(-20.0); 200]);
    blocks.extend(vec![energy_at_loudness(-35.0); 200]);
    blocks.extend(vec![energy_at_loudness(-50.0); 200]);
    let mut scratch = Vec::with_capacity(blocks.len());
    assert_close(loudness_range(&blocks, &mut scratch).unwrap(), 15.0, 0.01);
}

#[test]
fn keys_order_loudness_like_the_numbers_do() {
    let numbers = [
        f64::NEG_INFINITY,
        -70.0,
        -0.5,
        0.0,
        1.0e-300,
        12.0,
        f64::INFINITY,
    ];
    for pair in numbers.windows(2) {
        assert!(key(pair[0]) < key(pair[1]));
    }
    for number in numbers {
        assert_eq!(value(key(number)), number);
    }
    assert_eq!(key(-0.0), key(0.0));
    assert!(key(f64::NAN) < key(f64::NEG_INFINITY));
}

#[test]
fn the_range_is_that_of_the_sorted_blocks_between_the_gates() {
    let mut scratch = vec![1, 2, 3];
    assert_eq!(gated_range(&[], -70, -30, &mut scratch), None);
    assert!(scratch.is_empty());
    assert_eq!(gated_range(&[-80, -40, -30], -70, -30, &mut scratch), None);
    assert_eq!(
        gated_range(&[5, -80, 3, 9, -29, 7], -70, -30, &mut scratch),
        Some((-29, 9))
    );
    assert_eq!(scratch, vec![-29, 3, 5, 7, 9]);
    // The order of the blocks makes no difference.
    let mut shuffled = Vec::new();
    assert_eq!(
        gated_range(&[9, -29, 7, 3, 5], -70, -30, &mut shuffled),
        Some((-29, 9))
    );
    assert_eq!(shuffled, scratch);
}

/// Takes a block in: its energies, and the peak of each channel.
fn process_block(
    meter: &mut LoudnessMeter<f64>,
    peaks: &mut [Option<f32>; 2],
    channels: &[&[f32]],
) -> Result<(), ProcessError> {
    let frames = meter.check_block(channels)?;
    for frame in 0..frames {
        let energy = channels
            .iter()
            .map(|channel| f64::from(channel[frame] * channel[frame]))
            .sum();
        meter.push_energy(energy);
    }
    for (peak, channel) in peaks.iter_mut().zip(channels) {
        for sample in channel.iter() {
            *peak = Some(peak.unwrap_or(0.0).max(sample.abs()));
        }
    }
    Ok(())
}

#[test]
fn uneven_block_does_not_mutate_meter_state() {
    let mut meter = LoudnessMeter::with_history(timing(), 2, 16, 1, 0.0).unwrap();
    let mut peaks = [None; 2];
    let left = [0.75_f32; 16];
    let right = [0.75_f32; 15];

    assert_eq!(
        process_block(&mut meter, &mut peaks, &[&left[..], &right[..]]),
        Err(ProcessError::UnevenChannels)
    );

    assert_eq!(meter.window().processed(), 0);
    assert_eq!(peaks[0], None);
    assert_eq!(peaks[1], None);
}

#[test]
fn a_block_advances_the_meter_by_its_frames() {
    let mut meter = LoudnessMeter::with_history(timing(), 2, 16, 1, 0.0).unwrap();
    let mut peaks = [None; 2];
    for frames in [16_usize, 3, 0, 7] {
        let before = meter.window().processed();
        let channel = vec![0.5_f32; frames];
        process_block(&mut meter, &mut peaks, &[&channel[..], &channel[..]]).unwrap();
        assert_eq!(meter.window().processed(), before + frames as u64);
    }
    assert_eq!(peaks, [Some(0.5); 2]);
}
