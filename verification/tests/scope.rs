use neta::scope::analyzer::{Blanks, Frame, ScopeAnalyzer};
use neta::scope::config::{
    binary_logarithm, OscilloscopeCycles, OscilloscopeMode, ScopeConfig, ScopeConfigError,
    ScopeProcessError, ScopeTiming, SpectrumScale,
};
use neta::scope::fft::{band_bins, bit_reversal, butterfly, reverse_low_bits, scatter};
use neta::scope::history::History;
use neta::scope::rows::RowHistory;
use neta::scope::tracks::{Decimated, Envelope, SpectrumInput};
use neta::scope::trigger::{
    neighbours, oscilloscope_window, pitch_oscilloscope_window, TriggerLevel,
};
use neta::scope::work::ScopeWork;

/// Lowest and highest sample of both channels, and how many frames there were.
#[derive(Clone, Copy, Debug, PartialEq)]
struct Bucket {
    left: (f32, f32),
    right: (f32, f32),
    frames: usize,
}

const EMPTY: Bucket = Bucket {
    left: (0.0, 0.0),
    right: (0.0, 0.0),
    frames: 0,
};

type Energy = (f64, f64);
type Point = (f32, f32);
type Scope = ScopeAnalyzer<Energy, Bucket, Point, Point, f64, f32>;

fn config() -> ScopeConfig {
    ScopeConfig {
        max_block_frames: 128,
        waveform_buckets: 4,
        goniometer_points: 3,
        goniometer_decimation_frames: 2,
        oscilloscope_frames: 16,
        fft_size: 64,
        fft_hop_frames: 32,
        spectrum_bands: 16,
        spectrum_scale: SpectrumScale::Log,
        spectrogram_rows: 2,
    }
}

/// Eight frames of correlation and eight frames of waveform, every range valid.
fn timing() -> ScopeTiming {
    ScopeTiming {
        sample_rate_valid: true,
        correlation_frames: Some(8),
        waveform_frames: Some(8),
        spectrum_range_valid: true,
        ballistics_valid: true,
    }
}

fn build(config: ScopeConfig) -> Result<Scope, ScopeConfigError> {
    build_with(config, timing())
}

fn build_with(config: ScopeConfig, timing: ScopeTiming) -> Result<Scope, ScopeConfigError> {
    ScopeAnalyzer::new(
        config,
        timing,
        Blanks {
            energy: (0.0, 0.0),
            bucket: EMPTY,
            point: (0.0, 0.0),
            sample: (0.0, 0.0),
            input: 0.0,
            level: -120.0,
        },
    )
}

/// Takes a stereo block in, and keeps a flat row for each spectrum that is due.
fn process(
    scope: &mut Scope,
    left: &[f32],
    right: &[f32],
    work: ScopeWork,
) -> Result<(), ScopeProcessError> {
    scope.check_block(left.len(), right.len())?;
    for (&left, &right) in left.iter().zip(right) {
        let mut bucket = scope.waveform.current().unwrap_or(EMPTY);
        bucket = if bucket.frames == 0 {
            Bucket {
                left: (left, left),
                right: (right, right),
                frames: 1,
            }
        } else {
            Bucket {
                left: (bucket.left.0.min(left), bucket.left.1.max(left)),
                right: (bucket.right.0.min(right), bucket.right.1.max(right)),
                frames: bucket.frames + 1,
            }
        };
        let frame = Frame {
            energy: (f64::from(left * left), f64::from(right * right)),
            bucket,
            point: ((left + right) * 0.5, (left - right) * 0.5),
            sample: (left, right),
            input: f64::from((left + right) * 0.5),
        };
        if scope.push_frame(&frame, work).spectrum_due {
            let levels = vec![-20.0_f32; scope.config.spectrum_bands];
            scope.finish_spectrum(&levels);
        }
    }
    Ok(())
}

fn mono(scope: &mut Scope, samples: &[f32], work: ScopeWork) {
    process(scope, samples, samples, work).unwrap();
}

/// What an oscilloscope of so many points shows.
fn copy_oscilloscope(
    scope: &Scope,
    amount: usize,
    mode: OscilloscopeMode,
    cycles: OscilloscopeCycles,
) -> Vec<Point> {
    let samples: Vec<Point> = (0..scope.oscilloscope_frame_count())
        .map(|index| scope.oscilloscope.get(index).unwrap())
        .collect();
    let peak = samples
        .iter()
        .fold(0.0_f32, |peak, sample| peak.max(sample.0.abs()));
    let threshold = (peak * 0.05).max(0.000_01);
    let levels: Vec<TriggerLevel> = samples
        .iter()
        .map(|sample| {
            if sample.0 <= -threshold {
                TriggerLevel::Low
            } else if sample.0 >= threshold {
                TriggerLevel::High
            } else {
                TriggerLevel::Middle
            }
        })
        .collect();
    let mut pairs = vec![((0.0, 0.0), (0.0, 0.0)); amount];
    let (amount, frames) = scope.copy_oscilloscope(&mut pairs, Some(&levels), mode, cycles);
    pairs[..amount]
        .iter()
        .enumerate()
        .map(|(index, &(a, b))| {
            let position = index as f64 * (frames - 1) as f64 / (amount - 1) as f64;
            let fraction = position.fract() as f32;
            (
                a.0 + (b.0 - a.0) * fraction,
                a.1 + (b.1 - a.1) * fraction,
            )
        })
        .collect()
}

#[test]
fn constructor_rejects_invalid_fixed_storage() {
    let mut invalid = config();
    invalid.fft_size = 63;
    assert_eq!(
        build(invalid).unwrap_err(),
        ScopeConfigError::InvalidFftSize
    );

    invalid = config();
    invalid.spectrogram_rows = 0;
    assert_eq!(
        build(invalid).unwrap_err(),
        ScopeConfigError::InvalidSpectrogramRows
    );

    // A range up to the sample rate itself is beyond Nyquist.
    let beyond = ScopeTiming {
        spectrum_range_valid: false,
        ..timing()
    };
    assert_eq!(
        build_with(config(), beyond).unwrap_err(),
        ScopeConfigError::InvalidSpectrumRange
    );

    invalid = config();
    invalid.oscilloscope_frames = 0;
    assert_eq!(
        build(invalid).unwrap_err(),
        ScopeConfigError::InvalidOscilloscopeFrames
    );
}

#[test]
fn every_configuration_problem_is_named() {
    let problem = |change: fn(&mut ScopeConfig, &mut ScopeTiming)| {
        let (mut config, mut timing) = (config(), timing());
        change(&mut config, &mut timing);
        build_with(config, timing).unwrap_err()
    };
    assert_eq!(
        problem(|_, t| t.sample_rate_valid = false).message(),
        "sample rate must be finite and at least 8 kHz"
    );
    assert_eq!(
        problem(|c, _| c.max_block_frames = 0),
        ScopeConfigError::InvalidBlockSize
    );
    assert_eq!(
        problem(|_, t| t.correlation_frames = None),
        ScopeConfigError::InvalidCorrelationWindow
    );
    assert_eq!(
        problem(|c, _| c.waveform_buckets = 0),
        ScopeConfigError::InvalidWaveformBuckets
    );
    assert_eq!(
        problem(|_, t| t.waveform_frames = None),
        ScopeConfigError::InvalidWaveformDuration
    );
    assert_eq!(
        problem(|c, t| {
            c.waveform_buckets = 2;
            t.waveform_frames = Some(usize::MAX);
        }),
        ScopeConfigError::StorageTooLarge
    );
    assert_eq!(
        problem(|c, _| c.goniometer_points = 0),
        ScopeConfigError::InvalidGoniometerPoints
    );
    assert_eq!(
        problem(|c, _| c.goniometer_decimation_frames = 0),
        ScopeConfigError::InvalidGoniometerDecimation
    );
    assert_eq!(
        problem(|c, _| c.fft_size = 8),
        ScopeConfigError::InvalidFftSize
    );
    assert_eq!(
        problem(|c, _| c.fft_hop_frames = 65),
        ScopeConfigError::InvalidFftHop
    );
    assert_eq!(
        problem(|c, _| c.fft_hop_frames = 0),
        ScopeConfigError::InvalidFftHop
    );
    assert_eq!(
        problem(|c, _| c.spectrum_bands = 0),
        ScopeConfigError::InvalidSpectrumBands
    );
    assert_eq!(
        problem(|_, t| t.ballistics_valid = false),
        ScopeConfigError::InvalidBallistics
    );
    assert_eq!(
        problem(|c, _| c.spectrogram_rows = usize::MAX).message(),
        "fixed scope storage is too large to represent"
    );
}

#[test]
fn recommended_configuration_needs_a_rate_and_a_block() {
    let config = ScopeConfig::recommended(true, 64).unwrap();
    assert_eq!(config.max_block_frames, 64);
    assert_eq!(config.waveform_buckets, 256);
    assert_eq!(config.goniometer_points, 1_024);
    assert_eq!(config.goniometer_decimation_frames, 8);
    assert_eq!(config.oscilloscope_frames, 16_384);
    assert_eq!((config.fft_size, config.fft_hop_frames), (2_048, 1_024));
    assert_eq!((config.spectrum_bands, config.spectrogram_rows), (96, 256));
    assert_eq!(config.spectrum_scale, SpectrumScale::Log);
    assert_eq!(
        ScopeConfig::recommended(false, 64),
        Err(ScopeConfigError::InvalidSampleRate)
    );
    assert_eq!(
        ScopeConfig::recommended(true, 0),
        Err(ScopeConfigError::InvalidBlockSize)
    );
}

#[test]
fn process_rejects_bad_shape_before_mutating() {
    let mut analyzer = build(config()).unwrap();
    assert_eq!(
        process(&mut analyzer, &[0.0, 1.0], &[0.0], ScopeWork::all()),
        Err(ScopeProcessError::UnevenChannels)
    );
    assert_eq!(analyzer.processed_frames, 0);

    let samples = [0.0_f32; 129];
    assert_eq!(
        process(&mut analyzer, &samples, &samples, ScopeWork::all()),
        Err(ScopeProcessError::BlockTooLarge {
            maximum: 128,
            actual: 129,
        })
    );
    assert_eq!(analyzer.processed_frames, 0);
    assert_eq!(
        ScopeProcessError::BlockTooLarge {
            maximum: 128,
            actual: 129
        }
        .message(),
        "block has 129 frames; configured maximum is 128"
    );
    assert_eq!(
        ScopeProcessError::UnevenChannels.message(),
        "left and right slices must have equal length"
    );
}

#[test]
fn waveform_buckets_keep_chronological_min_max_after_wrap() {
    let mut analyzer = build(config()).unwrap();
    let left = [-1.0, 0.5, -0.5, 0.25, 0.75, -0.25, 0.4, -0.8, 0.8, -0.4];
    let right = left.map(|sample| sample * 0.5);
    process(&mut analyzer, &left, &right, ScopeWork::all()).unwrap();

    assert_eq!(analyzer.waveform.len(), 4);
    let mut buckets = [EMPTY; 4];
    assert_eq!(analyzer.waveform.copy_newest(&mut buckets), 4);
    assert_eq!(buckets[0].frames, 2);
    assert_eq!(buckets[0].left, (-0.5, 0.25));
    assert_eq!(buckets[2].left, (-0.8, 0.4));
    assert_eq!(buckets[3].left, (-0.4, 0.8));
}

#[test]
fn goniometer_decimates_and_wraps_in_chronological_order() {
    let mut analyzer = build(config()).unwrap();
    let left = [0.0, 1.0, 2.0, 3.0, 4.0, 5.0, 6.0, 7.0];
    let right = [0.0; 8];
    process(&mut analyzer, &left, &right, ScopeWork::all()).unwrap();

    let mut points = [(0.0, 0.0); 3];
    assert_eq!(analyzer.goniometer.copy_newest(&mut points), 3);
    assert_eq!(points[0], (1.0, 1.0));
    assert_eq!(points[1].0, 2.0);
    assert_eq!(points[2].0, 3.0);
}

#[test]
fn masked_processing_skips_fft_but_retains_requested_oscilloscope_samples() {
    let mut analyzer = build(config()).unwrap();
    mono(&mut analyzer, &[0.25; 64], ScopeWork::oscilloscope());
    assert_eq!(analyzer.spectrum_frames, 0);
    assert_eq!(analyzer.correlation.len(), 0);
    assert_eq!(analyzer.oscilloscope.len(), 16);
    let output = copy_oscilloscope(
        &analyzer,
        4,
        OscilloscopeMode::Free,
        OscilloscopeCycles::Multi,
    );
    assert_eq!(output.len(), 4);
    assert!(output.iter().all(|sample| *sample == (0.25, 0.25)));
}

#[test]
fn oscilloscope_free_copy_keeps_newest_chronological_samples_after_wrap() {
    let mut analyzer = build(config()).unwrap();
    let left: Vec<f32> = (0..20).map(|index| index as f32).collect();
    mono(&mut analyzer, &left, ScopeWork::oscilloscope());
    let output = copy_oscilloscope(
        &analyzer,
        4,
        OscilloscopeMode::Free,
        OscilloscopeCycles::Single,
    );
    assert_eq!(output.len(), 4);
    for (index, sample) in output.iter().enumerate() {
        assert!((sample.0 - (16.0 + index as f32)).abs() <= 0.000_01);
        assert!((sample.1 - (16.0 + index as f32)).abs() <= 0.000_01);
    }
}

#[test]
fn pitch_oscilloscope_aligns_complete_cycles_without_mutating_raw_history() {
    let mut pitch_config = config();
    pitch_config.oscilloscope_frames = 128;
    let mut analyzer = build(pitch_config).unwrap();
    let mut samples = [0.0_f32; 128];
    for (index, sample) in samples.iter_mut().enumerate() {
        *sample = (2.0 * std::f64::consts::PI * 6_000.0 * index as f64 / 48_000.0).sin() as f32;
    }
    mono(&mut analyzer, &samples, ScopeWork::oscilloscope());
    let output = copy_oscilloscope(
        &analyzer,
        32,
        OscilloscopeMode::Pitch,
        OscilloscopeCycles::Single,
    );
    assert_eq!(output.len(), 32);
    let low = output
        .iter()
        .map(|sample| sample.0)
        .fold(f32::INFINITY, f32::min);
    let high = output
        .iter()
        .map(|sample| sample.0)
        .fold(f32::NEG_INFINITY, f32::max);
    assert!(low < -0.8, "triggered trace lost negative half: {low}");
    assert!(high > 0.8, "triggered trace lost positive half: {high}");
    assert_eq!(analyzer.oscilloscope.len(), 128);
}

#[test]
fn spectrogram_is_circular_and_keeps_newest_rows() {
    let mut analyzer = build(config()).unwrap();
    mono(&mut analyzer, &[0.5; 128], ScopeWork::all());
    assert_eq!(analyzer.spectrum_frames, 3);
    assert_eq!(analyzer.spectrogram.len(), 2);
    assert!(analyzer
        .spectrogram
        .row(0)
        .unwrap()
        .iter()
        .all(|level| level.is_finite()));
    assert!(analyzer.spectrogram.row(2).is_none());
}

#[test]
fn reset_keeps_fixed_buffers_and_forgets_measurement() {
    let mut analyzer = build(config()).unwrap();
    mono(&mut analyzer, &[0.5; 64], ScopeWork::all());
    assert!(analyzer.spectrum_ready);
    let capacity = analyzer.oscilloscope.capacity();
    analyzer.reset();
    assert_eq!(analyzer.oscilloscope.capacity(), capacity);
    assert_eq!(analyzer.processed_frames, 0);
    assert_eq!(analyzer.waveform.len(), 0);
    assert_eq!(analyzer.spectrogram.len(), 0);
    assert_eq!(analyzer.goniometer.len(), 0);
    assert_eq!(analyzer.correlation.len(), 0);
    assert!(!analyzer.spectrum_ready);
}

#[test]
fn another_scale_clears_the_display_and_keeps_the_input() {
    let mut analyzer = build(config()).unwrap();
    mono(&mut analyzer, &[0.5; 64], ScopeWork::all());
    assert_eq!(analyzer.spectrum_frames, 1);
    assert!(!analyzer.set_spectrum_scale(SpectrumScale::Log));
    assert_eq!(analyzer.spectrum_frames, 1);
    assert!(analyzer.set_spectrum_scale(SpectrumScale::Linear));
    assert_eq!(analyzer.config.spectrum_scale, SpectrumScale::Linear);
    assert_eq!(analyzer.spectrum_frames, 0);
    assert_eq!(analyzer.spectrogram.len(), 0);
    // The next hop of 32 frames is enough for a fresh row.
    mono(&mut analyzer, &[0.5; 31], ScopeWork::spectrum());
    assert_eq!(analyzer.spectrum_frames, 0);
    mono(&mut analyzer, &[0.5], ScopeWork::spectrum());
    assert_eq!(analyzer.spectrum_frames, 1);
    let places = [
        SpectrumScale::Log.storage_index(),
        SpectrumScale::Mel.storage_index(),
        SpectrumScale::Linear.storage_index(),
    ];
    assert_eq!(places, [0, 1, 2]);
}

#[test]
fn selected_work_is_reset_alone() {
    let mut analyzer = build(config()).unwrap();
    mono(&mut analyzer, &[0.5; 64], ScopeWork::all());
    analyzer.reset_work(ScopeWork::waveform().with(ScopeWork::goniometer()));
    assert_eq!(analyzer.waveform.len(), 0);
    assert_eq!(analyzer.goniometer.len(), 0);
    assert_eq!(analyzer.oscilloscope.len(), 16);
    assert_eq!(analyzer.correlation.len(), 8);
    assert_eq!(analyzer.spectrum_frames, 1);
    assert_eq!(analyzer.processed_frames, 64);
}

#[test]
fn work_sets_combine() {
    let both = ScopeWork::correlation().with(ScopeWork::spectrum());
    assert!(both.contains(ScopeWork::correlation()));
    assert!(both.contains(ScopeWork::none()));
    assert!(!both.contains(ScopeWork::waveform()));
    assert!(!ScopeWork::correlation().contains(both));
    assert_eq!(both.without(ScopeWork::spectrum()), ScopeWork::correlation());
    assert_eq!(ScopeWork::all().without(ScopeWork::all()), ScopeWork::none());
    assert!(ScopeWork::none().is_empty());
    assert!(!both.is_empty());
    assert!(both.does(0) && both.does(4) && !both.does(1));
    assert_eq!(ScopeWork::default(), ScopeWork::none());
}

#[test]
fn history_hands_back_what_leaves() {
    let mut history = History::new(3, 0_u8);
    assert_eq!((history.len(), history.capacity()), (0, 3));
    assert_eq!(history.get(0), None);
    assert_eq!(history.push(1), 0);
    assert_eq!(history.push(2), 0);
    assert_eq!(history.push(3), 0);
    assert_eq!(history.push(4), 1);
    assert_eq!(history.push(5), 2);
    history.replace_newest(9);
    let mut all = [7; 5];
    assert_eq!(history.copy_newest(&mut all), 3);
    assert_eq!(all, [3, 4, 9, 7, 7]);
    let mut two = [0; 2];
    assert_eq!(history.copy_newest(&mut two), 2);
    assert_eq!(two, [4, 9]);
    history.reset();
    history.replace_newest(1);
    assert_eq!(history.len(), 0);
    assert_eq!(history.push(6), 0);
}

#[test]
fn envelope_fills_each_bucket_before_the_next() {
    let mut envelope = Envelope::new(2, 3, 0_u32);
    assert_eq!(envelope.current(), None);
    for frame in 1..=7_u32 {
        let sum = envelope.current().unwrap_or(0) + frame;
        envelope.push(sum);
    }
    assert_eq!(envelope.len(), 2);
    assert_eq!(envelope.get(0), Some(4 + 5 + 6));
    assert_eq!(envelope.get(1), Some(7));
    assert_eq!(envelope.get(2), None);
    envelope.reset();
    assert_eq!(envelope.len(), 0);
}

#[test]
fn points_are_evenly_spaced() {
    let mut points = Decimated::new(10, 3, 0_u32);
    for frame in 0..10 {
        points.push(frame);
    }
    let kept: Vec<u32> = (0..points.len()).map(|i| points.get(i).unwrap()).collect();
    assert_eq!(kept, vec![0, 3, 6, 9]);
}

#[test]
fn spectra_come_at_every_hop() {
    let mut input = SpectrumInput::new(8, 3, 0_u32);
    let due: Vec<u32> = (1..=20).filter(|frame| input.push(*frame)).collect();
    assert_eq!(due, vec![8, 11, 14, 17, 20]);
    assert_eq!(input.get(0), Some(13));
    assert_eq!(input.get(7), Some(20));
    input.reset();
    assert_eq!(input.get(0), None);
}

#[test]
fn rows_keep_the_newest() {
    let mut rows = RowHistory::new(2, 3, 0_u8);
    assert_eq!((rows.len(), rows.width()), (0, 3));
    for row in 1..=3_u8 {
        rows.push(&[row, row + 10, row + 20]);
    }
    assert_eq!(rows.len(), 2);
    assert_eq!(rows.row(0), Some(&[2, 12, 22][..]));
    assert_eq!(rows.row(1), Some(&[3, 13, 23][..]));
    assert_eq!(rows.row(2), None);
}

#[test]
fn reversal_undoes_itself() {
    assert_eq!(reverse_low_bits(0b0011, 4), 0b1100);
    assert_eq!(reverse_low_bits(6, 3), 3);
    assert_eq!(reverse_low_bits(0b1011, 0), 0);
    for value in [0_usize, 1, 6, 12_345, usize::MAX - 1, usize::MAX] {
        assert_eq!(reverse_low_bits(value, usize::BITS), value.reverse_bits());
    }
    let places = bit_reversal(16, 4);
    for index in 0..16 {
        assert_eq!(places[places[index]], index);
    }
    assert_eq!(places[1], 8);
}

#[test]
fn a_transform_touches_every_value_once_in_each_stage() {
    for half in [1_usize, 2, 4] {
        let mut seen = [0; 8];
        for index in 0..4 {
            let step = butterfly(8, half, index);
            assert_eq!(step.upper, step.lower + half);
            assert!(step.twiddle < 4);
            seen[step.lower] += 1;
            seen[step.upper] += 1;
        }
        assert_eq!(seen, [1; 8]);
    }
    assert_eq!(butterfly(8, 2, 1).twiddle, 2);
}

#[test]
fn bands_have_at_least_one_bin() {
    let (first, last) = band_bins(3, 3, 64);
    assert!(first >= 1 && last >= first);
    let (_, top) = band_bins(30, 90, 64);
    assert!(top <= 32);
    assert_eq!(binary_logarithm(64), Some(6));
    assert_eq!(binary_logarithm(63), None);
    assert_eq!(binary_logarithm(0), None);
    assert_eq!(binary_logarithm(1), Some(0));
}

#[test]
fn trigger_finds_whole_periods() {
    let (low, middle, high) = (TriggerLevel::Low, TriggerLevel::Middle, TriggerLevel::High);
    let wave = [low, high, low, low, high, low, low, high, middle];
    assert_eq!(
        pitch_oscilloscope_window(&wave, OscilloscopeCycles::Single),
        Some((4, 3))
    );
    assert_eq!(
        pitch_oscilloscope_window(&wave, OscilloscopeCycles::Multi),
        Some((0, 7))
    );
    assert_eq!(
        pitch_oscilloscope_window(&[low, high, low], OscilloscopeCycles::Single),
        None
    );
    assert_eq!(
        pitch_oscilloscope_window(&[low, middle, high, low, high], OscilloscopeCycles::Single),
        None
    );
    assert_eq!(
        oscilloscope_window(OscilloscopeMode::Free, 10, 4, Some((1, 2))),
        (6, 4)
    );
    assert_eq!(
        oscilloscope_window(OscilloscopeMode::Pitch, 10, 4, Some((1, 2))),
        (1, 2)
    );
    assert_eq!(
        oscilloscope_window(OscilloscopeMode::Pitch, 10, 4, None),
        (6, 4)
    );
    assert_eq!(neighbours(0, 5, 9), (0, 1));
    assert_eq!(neighbours(1, 5, 9), (2, 3));
    assert_eq!(neighbours(4, 5, 9), (8, 8));
}

#[test]
fn transform_input_is_put_in_bit_reversed_order() {
    let places = bit_reversal(8, 3);
    assert_eq!(places, vec![0, 4, 2, 6, 1, 5, 3, 7]);
    let mut arranged = [0; 8];
    scatter(&[10, 11, 12, 13, 14, 15, 16, 17], &places, &mut arranged);
    assert_eq!(arranged, [10, 14, 12, 16, 11, 15, 13, 17]);

    let scope = build(config()).unwrap();
    let windowed: Vec<usize> = (0..64).collect();
    let mut work = vec![0; 64];
    scope.arrange_input(&windowed, &mut work);
    assert_eq!(work[1], 32);
    assert_eq!(work[63], 63);
    let mut back = vec![0; 64];
    scope.arrange_input(&work, &mut back);
    assert_eq!(back, windowed);
}

#[test]
fn what_is_kept_is_read_back_oldest_first() {
    let mut scope = build(config()).unwrap();
    assert_eq!(scope.max_block_frames(), 128);
    assert_eq!(scope.fft_size(), 64);
    assert_eq!(scope.spectrum_scale(), SpectrumScale::Log);
    assert_eq!(scope.waveform_bucket(0), None);
    assert_eq!(scope.spectrogram_row(0), None);
    let samples: Vec<f32> = (0..128).map(|index| index as f32).collect();
    mono(&mut scope, &samples, ScopeWork::all());

    // Two frames to a bucket, four buckets.
    assert_eq!(scope.waveform_bucket_count(), 4);
    assert_eq!(scope.waveform_bucket(0).unwrap().left, (120.0, 121.0));
    assert_eq!(scope.waveform_bucket(3).unwrap().left, (126.0, 127.0));
    assert_eq!(scope.waveform_bucket(4), None);
    let mut buckets = [EMPTY; 2];
    assert_eq!(scope.copy_waveform_buckets(&mut buckets), 2);
    assert_eq!(buckets[0].left, (124.0, 125.0));
    assert_eq!(buckets[1].left, (126.0, 127.0));

    // Every second frame, three points.
    assert_eq!(scope.goniometer_point_count(), 3);
    assert_eq!(scope.goniometer_point(0), Some((122.0, 0.0)));
    assert_eq!(scope.goniometer_point(3), None);
    let mut points = [(9.0, 9.0); 4];
    assert_eq!(scope.copy_goniometer_points(&mut points), 3);
    assert_eq!(
        points,
        [(122.0, 0.0), (124.0, 0.0), (126.0, 0.0), (9.0, 9.0)]
    );

    // A spectrum after the first 64 frames and after every 32 from there on.
    assert_eq!(scope.spectrum_frame_count(), 3);
    assert_eq!(scope.spectrogram_row_count(), 2);
    assert_eq!(scope.spectrogram_band_count(), 16);
    assert_eq!(scope.spectrogram_row(1), Some(&[-20.0_f32; 16][..]));
    assert_eq!(scope.spectrogram_row(2), None);
    assert_eq!(scope.oscilloscope_frame_count(), 16);
}

#[test]
fn an_oscilloscope_without_levels_shows_the_newest_frames() {
    let mut scope = build(config()).unwrap();
    let mut pairs = [((9.0, 9.0), (9.0, 9.0)); 4];
    let free = OscilloscopeMode::Free;
    let pitch = OscilloscopeMode::Pitch;
    let single = OscilloscopeCycles::Single;
    assert_eq!(scope.copy_oscilloscope(&mut pairs, None, free, single), (0, 0));
    assert_eq!(pairs[0], ((9.0, 9.0), (9.0, 9.0)));
    let samples: Vec<f32> = (0..20).map(|index| index as f32).collect();
    mono(&mut scope, &samples, ScopeWork::all());
    for mode in [free, pitch] {
        assert_eq!(scope.copy_oscilloscope(&mut pairs, None, mode, single), (4, 4));
        assert_eq!(
            pairs,
            [
                ((16.0, 16.0), (17.0, 17.0)),
                ((17.0, 17.0), (18.0, 18.0)),
                ((18.0, 18.0), (19.0, 19.0)),
                ((19.0, 19.0), (19.0, 19.0)),
            ]
        );
    }
    assert_eq!(
        scope.copy_oscilloscope(&mut pairs[..1], None, free, single),
        (1, 1)
    );
    assert_eq!(pairs[0], ((19.0, 19.0), (19.0, 19.0)));
}

/// The recommended limits, and the highest frequency at a rate.
fn recommended(sample_rate: f64, max_block_frames: usize) -> Result<(ScopeConfig, f64), ScopeConfigError> {
    let valid = sample_rate.is_finite() && sample_rate >= 8_000.0;
    let config = ScopeConfig::recommended(valid, max_block_frames)?;
    Ok((config, 20_000.0_f64.min(sample_rate * 0.5)))
}

#[test]
fn recommended_config_tracks_sample_rate_and_nyquist() {
    let (config, max_spectrum_hz) = recommended(8_000.0, 64).unwrap();
    assert_eq!(max_spectrum_hz, 4_000.0);
    assert_eq!(config.max_block_frames, 64);
}

/// The edges of the first of the bands between 100 Hz and 20 kHz.
fn first_band(config: &ScopeConfig) -> (f64, f64) {
    let (low, high) = (100.0_f64, 20_000.0_f64);
    let share = 1.0 / config.spectrum_bands as f64;
    let mel = |hz: f64| 2_595.0 * (1.0 + hz / 700.0).log10();
    let edge = match config.spectrum_scale {
        SpectrumScale::Log => low * (high / low).powf(share),
        SpectrumScale::Mel => {
            let place = mel(low) + (mel(high) - mel(low)) * share;
            700.0 * (10.0_f64.powf(place / 2_595.0) - 1.0)
        }
        SpectrumScale::Linear => low + (high - low) * share,
    };
    (low, edge)
}

#[test]
fn spectrum_scale_swaps_preallocated_mappings_and_clears_display_history() {
    let mut scope = build(config()).unwrap();
    mono(&mut scope, &[0.5; 64], ScopeWork::all());
    assert_eq!(scope.spectrum_frame_count(), 1);
    let storage = scope.spectrogram_row(0).unwrap().as_ptr();
    let log_first = first_band(&scope.config);

    scope.set_spectrum_scale(SpectrumScale::Linear);
    assert_eq!(scope.spectrum_scale(), SpectrumScale::Linear);
    assert_eq!(scope.spectrum_frame_count(), 0);
    assert_eq!(scope.spectrogram_row_count(), 0);
    let linear_first = first_band(&scope.config);
    assert_eq!(linear_first.0, 100.0);
    assert!(linear_first.1 > log_first.1);

    scope.set_spectrum_scale(SpectrumScale::Mel);
    assert_eq!(scope.spectrum_scale(), SpectrumScale::Mel);
    assert!(first_band(&scope.config).1 < linear_first.1);

    // The next row stands where the first one stood.
    mono(&mut scope, &[0.5; 32], ScopeWork::all());
    assert_eq!(scope.spectrum_frame_count(), 1);
    assert_eq!(scope.spectrogram_row(0).unwrap().as_ptr(), storage);
}

#[test]
fn a_block_advances_the_scope_by_its_frames_and_leaves_the_rest() {
    let mut scope = build(config()).unwrap();
    mono(&mut scope, &[0.5; 70], ScopeWork::all());
    let waveform: Vec<_> = (0..4).map(|index| scope.waveform_bucket(index)).collect();
    let spectra = scope.spectrum_frame_count();
    mono(&mut scope, &[0.25; 50], ScopeWork::oscilloscope());
    assert_eq!(scope.processed_frames, 120);
    assert_eq!(scope.spectrum_frame_count(), spectra);
    for (index, bucket) in waveform.iter().enumerate() {
        assert_eq!(scope.waveform_bucket(index), *bucket);
    }
    assert_eq!(scope.oscilloscope.get(15), Some((0.25, 0.25)));
}
