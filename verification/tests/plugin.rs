use neta::editor::slots::{
    GONIOMETER, GONIOMETER_POINTS, HISTOGRAM, METRICS_END, OSCILLOSCOPE, SCOPE_SLOTS, SPECTRUM,
    TIMELINE_INTEGRATED, TIMELINE_MOMENTARY, TIMELINE_POINTS, TIMELINE_SHORT, WAVE_MAX, WAVE_MIN,
};
use neta::meter::loudness::{LoudnessMeter, MeterTiming};
use neta::meter::vu::{VuMeter, VuMode, VuReading, VuTiming};
use neta::plugin::banks::{BankAction, ScopeBanks};
use neta::plugin::cadence::interval_due;
use neta::plugin::configs::{display_config, fft_scope_config, fft_size};
use neta::plugin::modules::{
    measures_right, module_mask, module_scope_work, oscilloscope_cycles, oscilloscope_mode, route,
    scope_work, source_id, MODULE_LOUDNESS, MODULE_OBJECT, MODULE_SPECTROGRAM, MODULE_STEREO,
};
use neta::plugin::neta::{Counters, Neta, RuntimePlan};
use neta::plugin::picture::{
    tallest_bar, MeterReadings, NeedleReadings, Pair, PictureSource, StereoReadings,
};
use neta::plugin::retained::{Capture, LoudnessReadings, LoudnessTimeline, TimelineSeries};
use neta::plugin::views::{views, Analyzers, Views};
use neta::scope::analyzer::{Blanks, Frame, ScopeAnalyzer};
use neta::scope::config as analysis;
use neta::scope::work::ScopeWork;
use neta::settings::options::{
    AnalysisSource, OscilloscopeCycles, OscilloscopeMode, SpectrumScale,
};
use neta::settings::runtime::RuntimeSettings;

const UNMEASURED: f32 = -200.0;

fn counters(reset: u16, capture_a: u16, capture_b: u16) -> Counters {
    Counters {
        reset,
        capture_a,
        capture_b,
    }
}

fn momentary(value: f32) -> LoudnessReadings<f32> {
    LoudnessReadings {
        momentary: Some(value),
        short_term: None,
        integrated: None,
        true_peak: None,
    }
}

fn active() -> Neta<f32> {
    let mut plugin = Neta::new(0.0, UNMEASURED);
    plugin.activate(4_800, 800, true);
    plugin
}

fn apply(plugin: &mut Neta<f32>, state: &[u8]) -> RuntimePlan {
    plugin.apply_state(RuntimeSettings::parse(state));
    assert!(plugin.runtime_dirty);
    let plan = plugin.apply_runtime();
    assert!(!plugin.runtime_dirty);
    plan
}

#[test]
fn scope_vocabulary_is_exactly_the_declared_neta_picture() {
    assert_eq!(SCOPE_SLOTS, 896);
    assert_eq!(METRICS_END, 32);
    assert_eq!(TIMELINE_MOMENTARY, 32);
    assert_eq!(HISTOGRAM, 224);
    assert_eq!(WAVE_MIN, 288);
    assert_eq!(WAVE_MAX, 352);
    assert_eq!(OSCILLOSCOPE, 416);
    assert_eq!(SPECTRUM, 672);
    assert_eq!(GONIOMETER, 768);
    assert_eq!(GONIOMETER + GONIOMETER_POINTS * 2, SCOPE_SLOTS);
}

#[test]
fn cadence_carries_block_overshoot() {
    let mut remaining = 1;
    let mut published = 0;
    for _ in 0..150 {
        if interval_due(&mut remaining, 800, 512) {
            published += 1;
        }
    }
    // 150 * 512 / 800 = 96: first immediate picture adds one only when
    // the loop begins, so tolerance keeps this a cadence test not a
    // policy test about initial display.
    assert!((95..=97).contains(&published), "published {published}");
}

#[test]
fn ticks_stay_on_the_grid() {
    let mut remaining = 100;
    let mut now = 0;
    let mut ticks = Vec::new();
    for frames in [64_usize, 64, 300, 1, 99, 0, 100] {
        let due = interval_due(&mut remaining, 100, frames);
        now += frames;
        assert!((1..=100).contains(&remaining));
        assert_eq!((now + remaining) % 100, 0);
        ticks.push(due);
    }
    assert_eq!(ticks, vec![false, true, true, false, true, false, true]);
    let mut every = 0;
    assert!(interval_due(&mut every, 0, 0));
    assert_eq!(every, 1);
}

#[test]
fn timeline_keeps_chronological_newest_values() {
    let mut timeline = LoudnessTimeline::new(UNMEASURED);
    for value in 0..(TIMELINE_POINTS + 2) {
        timeline.push(&momentary(value as f32));
    }
    assert_eq!(timeline.value(TimelineSeries::Momentary, 0), 2.0);
    assert_eq!(
        timeline.value(TimelineSeries::Momentary, TIMELINE_POINTS - 1),
        (TIMELINE_POINTS + 1) as f32
    );
    assert_eq!(
        timeline.value(TimelineSeries::Momentary, TIMELINE_POINTS),
        UNMEASURED
    );
    assert_eq!(timeline.value(TimelineSeries::ShortTerm, 0), UNMEASURED);
    timeline.reset();
    assert_eq!(timeline.value(TimelineSeries::Momentary, 0), UNMEASURED);
}

#[test]
fn object_does_not_keep_fft_work_alive() {
    let runtime = RuntimeSettings::parse(b"v=2;m=000001000");
    assert_eq!(scope_work(&runtime), ScopeWork::none());

    let runtime = RuntimeSettings::parse(b"v=2;m=010000000;hold=0");
    assert_eq!(scope_work(&runtime), ScopeWork::spectrum());
    let runtime = RuntimeSettings::parse(b"v=2;m=010000000;hold=1");
    assert_eq!(scope_work(&runtime), ScopeWork::none());
}

#[test]
fn modules_name_their_work() {
    assert_eq!(module_scope_work(MODULE_OBJECT), None);
    assert_eq!(module_scope_work(MODULE_LOUDNESS), None);
    assert_eq!(module_scope_work(99), None);
    assert_eq!(
        module_scope_work(MODULE_SPECTROGRAM),
        Some(ScopeWork::spectrum())
    );
    assert_eq!(
        module_scope_work(MODULE_STEREO),
        Some(ScopeWork::correlation().with(ScopeWork::goniometer()))
    );
    assert_eq!(
        scope_work(&RuntimeSettings::default()),
        ScopeWork::all()
    );
    assert_eq!(module_mask(&RuntimeSettings::parse(b"v=2;m=101000001")), 0b1_0000_0101);
    assert_eq!(module_mask(&RuntimeSettings::parse(b"v=2;m=111111111")), 511);
    assert_eq!(module_mask(&RuntimeSettings::parse(b"v=2;m=000000000")), 0);
}

#[test]
fn sources_are_routed_and_numbered() {
    let pairs = [
        (AnalysisSource::Stereo, 0, ('l', 'r')),
        (AnalysisSource::Left, 1, ('l', 'l')),
        (AnalysisSource::Right, 2, ('r', 'r')),
        (AnalysisSource::Mid, 3, ('m', 'm')),
        (AnalysisSource::Side, 4, ('s', 's')),
    ];
    for (source, id, pair) in pairs {
        assert_eq!(source_id(source), id);
        assert_eq!(route(source, 'l', 'r', 'm', 's'), pair);
        assert_eq!(measures_right(source), id == 0);
    }
    assert_eq!(
        oscilloscope_mode(OscilloscopeMode::Free),
        analysis::OscilloscopeMode::Free
    );
    assert_eq!(
        oscilloscope_mode(OscilloscopeMode::Pitch),
        analysis::OscilloscopeMode::Pitch
    );
    assert_eq!(
        oscilloscope_cycles(OscilloscopeCycles::Single),
        analysis::OscilloscopeCycles::Single
    );
    assert_eq!(
        oscilloscope_cycles(OscilloscopeCycles::Multi),
        analysis::OscilloscopeCycles::Multi
    );
}

#[test]
fn fft_switch_keeps_non_fft_display_history() {
    let timing = analysis::ScopeTiming {
        sample_rate_valid: true,
        correlation_frames: Some(2_400),
        waveform_frames: Some(48_000),
        spectrum_range_valid: true,
        ballistics_valid: true,
    };
    let recommended = analysis::ScopeConfig::recommended(true, 512).unwrap();
    let blanks = Blanks {
        energy: 0.0_f32,
        bucket: 0.0_f32,
        point: 0.0_f32,
        sample: 0.0_f32,
        input: 0.0_f32,
        level: 0.0_f32,
    };
    let mut display = ScopeAnalyzer::new(display_config(recommended), timing, blanks).unwrap();
    let meter_timing = MeterTiming {
        sample_rate_valid: true,
        weights_valid: true,
        momentary_frames: Some(19_200),
        short_term_frames: Some(144_000),
        step_frames: Some(4_800),
    };
    let mut meter = LoudnessMeter::new(meter_timing, 2, 512, 0.0_f32).unwrap();

    let mut plugin = active();
    let first = apply(&mut plugin, b"v=2;fft=2048");
    assert!(first.reset_analysis);
    let plan = plugin.plan_block(512, 512).unwrap();
    assert!(plan.loudness && plan.vu && plan.spectrum);
    let frame = Frame {
        energy: 0.1,
        bucket: 0.2,
        point: 0.3,
        sample: 0.4,
        input: 0.5,
    };
    for _ in 0..plan.frames {
        display.push_frame(&frame, plan.display);
        meter.push_energy(0.1);
    }
    let frames = display.processed_frames;
    let oscilloscope_frames = display.oscilloscope.len();
    assert!(frames > 0);
    assert!(oscilloscope_frames > 0);

    let plan = apply(&mut plugin, b"v=2;fft=4096");
    assert!(!plan.reset_analysis && !plan.reset_meter && !plan.reset_vu && !plan.reset_spectrum);
    plan.apply_to_display(&mut display);
    plan.apply_to_meter(&mut meter);
    assert_eq!(plan.bank, BankAction::ClearAll);
    assert_eq!(plugin.scopes.unwrap().active(), 2);

    assert_eq!(display.processed_frames, frames);
    assert_eq!(display.oscilloscope.len(), oscilloscope_frames);
    assert_eq!(meter.window().processed(), frames);

    // Another source is another signal: everything starts anew.
    let plan = apply(&mut plugin, b"v=2;fft=4096;route=mid");
    plan.apply_to_display(&mut display);
    plan.apply_to_meter(&mut meter);
    assert_eq!(display.processed_frames, 0);
    assert_eq!(display.oscilloscope.len(), 0);
    assert_eq!(meter.window().processed(), 0);
}

#[test]
fn persisted_action_counters_seed_without_replaying() {
    let mut plugin = active();
    let plan = plugin.handle_actions(counters(41, 17, 9));
    assert!(!plan.reset && !plan.capture_a && !plan.capture_b);
    assert_eq!(plugin.counters, Some(counters(41, 17, 9)));
    assert!(!plugin.capture_a.valid);
    assert!(!plugin.capture_b.valid);
}

#[test]
fn counters_act_once_for_each_change() {
    let mut plugin = active();
    plugin.handle_actions(counters(1, 1, 1));
    let plan = plugin.handle_actions(counters(1, 2, 1));
    assert!(!plan.reset && plan.capture_a && !plan.capture_b);
    plugin.capture_as_a(&LoudnessReadings {
        momentary: None,
        short_term: Some(-20.0),
        integrated: None,
        true_peak: Some(-1.0),
    });
    assert_eq!(
        plugin.capture_a,
        Capture {
            valid: true,
            short_term: -20.0,
            integrated: UNMEASURED,
            true_peak: -1.0
        }
    );
    let plan = plugin.handle_actions(counters(1, 2, 1));
    assert!(!plan.reset && !plan.capture_a && !plan.capture_b);
    let plan = plugin.handle_actions(counters(0, 2, 7));
    assert!(plan.reset && !plan.capture_a && plan.capture_b);
    assert!(!plugin.capture_a.valid);
    plugin.capture_as_b(&momentary(-3.0));
    assert!(plugin.capture_b.valid);
    assert_eq!(plugin.capture_b.short_term, UNMEASURED);
}

#[test]
fn disabled_loudness_skips_meter_and_capture_work() {
    let mut plugin = active();
    apply(&mut plugin, b"v=2;m=000000010");
    plugin.handle_actions(counters(0, 0, 0));
    // VU stays live, so this proves the loudness gate rather than an
    // all-modules-disabled early return.
    let plan = plugin.plan_block(32, 32).unwrap();
    assert!(!plan.loudness);
    assert!(plan.vu);
    assert_eq!(plan.frames, 32);
    assert_eq!(plan.display, ScopeWork::none());
    assert!(!plan.spectrum);
    let actions = plugin.handle_actions(counters(0, 1, 0));
    assert!(!actions.capture_a);
    assert!(!plugin.capture_a.valid);
}

#[test]
fn nothing_is_analysed_where_nothing_is_shown_or_heard() {
    let mut plugin = active();
    apply(&mut plugin, b"v=2;m=000001100");
    assert!(plugin.plan_block(64, 64).is_none());
    apply(&mut plugin, b"v=2;m=000100000");
    assert!(plugin.plan_block(0, 64).is_none());
    assert!(plugin.plan_block(64, 0).is_none());
    let plan = plugin.plan_block(64, 48).unwrap();
    assert_eq!(plan.frames, 48);
    assert_eq!(plan.display, ScopeWork::waveform());
    assert!(!plan.loudness && !plan.vu && !plan.spectrum);
}

#[test]
fn settings_change_only_what_they_concern() {
    let mut plugin = active();
    let plan = apply(&mut plugin, b"v=2");
    assert_eq!(plan.scale, Some(analysis::SpectrumScale::Log));
    assert_eq!(plan.smoothing, Some(90));
    assert_eq!(plan.vu_mode, Some(VuMode::Vu));
    assert_eq!(plan.vu_calibration, Some(-18));
    assert!(plan.reset_meter && plan.reset_vu && plan.reset_spectrum);
    assert_eq!(
        plan.reset_display,
        ScopeWork::all().without(ScopeWork::spectrum())
    );
    // The same settings again change nothing.
    let plan = apply(&mut plugin, b"v=2");
    assert!(!plan.reset_analysis && !plan.reset_meter && !plan.reset_vu && !plan.reset_spectrum);
    assert_eq!(plan.reset_display, ScopeWork::none());
    assert_eq!(plan.bank, BankAction::Keep);
    assert_eq!((plan.scale, plan.smoothing), (None, None));
    assert_eq!((plan.vu_mode, plan.vu_calibration), (None, None));
    // One setting at a time.
    let plan = apply(&mut plugin, b"v=2;scale=mel");
    assert_eq!(plan.scale, Some(analysis::SpectrumScale::Mel));
    assert_eq!(plan.smoothing, None);
    let plan = apply(&mut plugin, b"v=2;scale=mel;smooth=40;vu=rms;cal=-20");
    assert_eq!((plan.scale, plan.smoothing), (None, Some(40)));
    assert_eq!((plan.vu_mode, plan.vu_calibration), (Some(VuMode::Rms), Some(-20)));
    let plan = apply(&mut plugin, b"v=2;scale=mel;smooth=40;trim=3");
    assert!(plan.reset_analysis);
    let plan = apply(&mut plugin, b"v=2;scale=mel;smooth=40;trim=3;route=mid");
    assert!(plan.reset_analysis);
}

#[test]
fn a_module_that_returns_starts_clean() {
    let mut plugin = active();
    apply(&mut plugin, b"v=2");
    apply(&mut plugin, b"v=2;m=001011011");
    plugin.timeline.push(&momentary(-9.0));
    plugin.capture_as_a(&momentary(-9.0));
    let plan = apply(&mut plugin, b"v=2;m=111111011");
    assert!(!plan.reset_analysis);
    assert!(plan.reset_meter && plan.reset_spectrum && !plan.reset_vu);
    assert_eq!(plan.reset_display, ScopeWork::waveform());
    assert_eq!(plugin.timeline.value(TimelineSeries::Momentary, 0), UNMEASURED);
    assert!(!plugin.capture_a.valid);
}

#[test]
fn a_histogram_that_returns_starts_a_clean_distribution() {
    let mut plugin = active();
    apply(&mut plugin, b"v=2");
    plugin.capture_as_b(&momentary(-9.0));
    let plan = apply(&mut plugin, b"v=2;hist=0");
    assert!(!plan.reset_meter);
    assert!(plugin.capture_b.valid);
    let plan = apply(&mut plugin, b"v=2;hist=1");
    assert!(plan.reset_meter && !plan.reset_analysis);
    assert!(!plugin.capture_b.valid);
    // The timeline starts anew whenever it is switched.
    plugin.timeline.push(&momentary(-9.0));
    let plan = apply(&mut plugin, b"v=2;timeline=0");
    assert!(!plan.reset_meter);
    assert_eq!(plugin.timeline.value(TimelineSeries::Momentary, 0), UNMEASURED);
    assert_eq!(plugin.pacing.frames_until_timeline, 1);
}

#[test]
fn timeline_and_pictures_follow_the_clock() {
    let mut plugin = active();
    apply(&mut plugin, b"v=2");
    plugin.advance_timeline(4_799, Some(momentary(-1.0)));
    assert_eq!(plugin.timeline.value(TimelineSeries::Momentary, 0), -1.0);
    // The tick came with the first frame, so 4798 frames of the next
    // interval have passed.
    assert_eq!(plugin.pacing.frames_until_timeline, 2);
    plugin.advance_timeline(1, Some(momentary(-2.0)));
    plugin.advance_timeline(1, Some(momentary(-3.0)));
    assert_eq!(plugin.timeline.value(TimelineSeries::Momentary, 1), -3.0);
    plugin.advance_timeline(100_000, None);
    assert_eq!(plugin.timeline.value(TimelineSeries::Momentary, 2), UNMEASURED);
    assert!(plugin.publish_due(512));
    assert_eq!(plugin.pacing.frames_until_publish, 289);
    assert!(!plugin.publish_due(288));
    assert!(plugin.publish_due(1));
}

#[test]
fn a_bank_is_cleared_once_after_a_reset() {
    let mut banks = ScopeBanks::new();
    assert_eq!(banks.active(), 1);
    banks.reset();
    assert_eq!(banks.select(1), BankAction::Keep);
    assert_eq!(banks.select(3), BankAction::ClearAll);
    assert_eq!(banks.select(1), BankAction::ClearSpectrum);
    assert_eq!(banks.select(3), BankAction::ClearSpectrum);
    banks.reset();
    assert_eq!(banks.active(), 3);
    assert_eq!(banks.select(1), BankAction::ClearAll);
    assert_eq!(banks.select(9), BankAction::ClearAll);
    assert_eq!(banks.active(), 4);
    assert_eq!(banks.select(3), BankAction::ClearSpectrum);
}

#[test]
fn banks_and_display_are_built_small() {
    let recommended = analysis::ScopeConfig::recommended(true, 64).unwrap();
    let display = display_config(recommended);
    assert_eq!((display.fft_size, display.fft_hop_frames), (16, 16));
    assert_eq!((display.spectrum_bands, display.spectrogram_rows), (1, 1));
    assert_eq!(display.oscilloscope_frames, 16_384);
    let sizes = [1_024, 2_048, 4_096, 8_192, 16_384];
    for (bank, size) in sizes.into_iter().enumerate() {
        let config = fft_scope_config(recommended, bank);
        assert_eq!((config.fft_size, config.fft_hop_frames), (size, size / 2));
        assert_eq!((config.spectrum_bands, config.spectrogram_rows), (96, 256));
        assert_eq!((config.waveform_buckets, config.oscilloscope_frames), (1, 1));
        assert_eq!(fft_size(bank), size);
    }
    assert_eq!(fft_size(17), 16_384);
    assert_eq!(
        neta::plugin::modules::spectrum_scale(SpectrumScale::Linear),
        analysis::SpectrumScale::Linear
    );
}

fn blank_source() -> PictureSource<'static, f32> {
    PictureSource {
        zero: 0.0,
        unmeasured: UNMEASURED,
        meter: None,
        overs: true,
        stereo: None,
        left_needle: None,
        right_needle: None,
        source: 3.0,
        spectrum_frames: None,
        fft_frames: 2_048.0,
        module_mask: 447.0,
        target: -14.0,
        loudness: true,
        capture_a: Capture::empty(0.0),
        capture_b: Capture::empty(0.0),
        timeline: None,
        histogram: None,
        waveform: None,
        oscilloscope: None,
        goniometer: None,
        spectrum: None,
    }
}

#[test]
fn an_empty_picture_shows_nothing_measured() {
    let mut picture = vec![7.0_f32; SCOPE_SLOTS];
    blank_source().publish_picture(&mut picture);
    for (slot, value) in picture.iter().enumerate() {
        let expected = match slot {
            3 | 4 | 20 => 0.0,
            19 => 3.0,
            21 => 2_048.0,
            22 => 447.0,
            29 => -14.0,
            _ if slot < HISTOGRAM => UNMEASURED,
            _ => 0.0,
        };
        assert_eq!(*value, expected, "slot {slot}");
    }
}

#[test]
fn a_full_picture_has_every_reading_in_its_slot() {
    let mut timeline = LoudnessTimeline::new(UNMEASURED);
    timeline.push(&LoudnessReadings {
        momentary: Some(-1.0),
        short_term: Some(-2.0),
        integrated: Some(-3.0),
        true_peak: None,
    });
    let pair = |first: f32, second: f32| Pair { first, second };
    let waveform: Vec<Pair<f32>> = (0..128).map(|i| pair(-(i as f32), i as f32)).collect();
    let oscilloscope = [pair(0.1, 0.2), pair(0.3, 0.4)];
    let goniometer: Vec<Pair<f32>> = (0..32).map(|i| pair(i as f32, -(i as f32))).collect();
    let spectrum: Vec<f32> = (0..96).map(|i| i as f32 / 96.0).collect();
    let histogram = [0.25_f32, 1.0];
    let needle = |base: f32| {
        Some(NeedleReadings {
            level: Some(base),
            calibrated: Some(base + 1.0),
            peak_hold: Some(base + 2.0),
        })
    };
    let source = PictureSource {
        meter: Some(MeterReadings {
            momentary: Some(100.0),
            short_term: Some(101.0),
            true_peak: Some(102.0),
            psr: Some(109.0),
            integrated: Some(110.0),
            range: Some(111.0),
            plr: None,
            left_peak: Some(117.0),
            right_peak: Some(118.0),
        }),
        stereo: Some(StereoReadings {
            correlation: Some(103.0),
            width: Some(104.0),
            left_rms: Some(105.0),
            right_rms: Some(106.0),
            mid_rms: None,
            side_rms: Some(108.0),
        }),
        left_needle: needle(130.0),
        right_needle: needle(140.0),
        spectrum_frames: Some(12.0),
        capture_a: Capture {
            valid: true,
            short_term: 125.0,
            integrated: 123.0,
            true_peak: 127.0,
        },
        timeline: Some(&timeline),
        histogram: Some(&histogram),
        waveform: Some(&waveform),
        oscilloscope: Some(&oscilloscope),
        goniometer: Some(&goniometer),
        spectrum: Some(&spectrum),
        ..blank_source()
    };
    let mut picture = vec![7.0_f32; SCOPE_SLOTS];
    source.publish_picture(&mut picture);
    assert_eq!(
        picture[..19],
        [
            100.0, 101.0, 102.0, 103.0, 104.0, 105.0, 106.0, UNMEASURED, 108.0, 109.0, 110.0,
            111.0, UNMEASURED, 131.0, 141.0, 132.0, 142.0, 117.0, 118.0
        ]
    );
    assert_eq!(picture[20], 12.0);
    assert_eq!(
        picture[23..29],
        [123.0, UNMEASURED, 125.0, UNMEASURED, 127.0, UNMEASURED]
    );
    assert_eq!(picture[30..32], [130.0, 140.0]);
    assert_eq!(picture[TIMELINE_MOMENTARY..TIMELINE_MOMENTARY + 2], [-1.0, UNMEASURED]);
    assert_eq!(picture[TIMELINE_SHORT], -2.0);
    assert_eq!(picture[TIMELINE_INTEGRATED], -3.0);
    assert_eq!(picture[HISTOGRAM..HISTOGRAM + 3], [0.25, 1.0, 0.0]);
    // 128 buckets on 64 points: every second one.
    assert_eq!(picture[WAVE_MIN + 5], -10.0);
    assert_eq!(picture[WAVE_MAX + 63], 126.0);
    assert_eq!(picture[OSCILLOSCOPE..OSCILLOSCOPE + 5], [0.1, 0.2, 0.3, 0.4, 0.0]);
    assert_eq!(picture[SPECTRUM + 48], 0.5);
    // 32 points on 64: each one twice.
    assert_eq!(picture[GONIOMETER + 2..GONIOMETER + 6], [0.0, 0.0, 1.0, -1.0]);

    // Hidden loudness hides its captures, hidden overs its peaks.
    let mut hidden = source;
    hidden.loudness = false;
    hidden.publish_picture(&mut picture);
    assert_eq!((picture[2], picture[23]), (UNMEASURED, UNMEASURED));
    hidden.loudness = true;
    hidden.overs = false;
    hidden.publish_picture(&mut picture);
    assert_eq!((picture[2], picture[23], picture[27]), (UNMEASURED, 123.0, UNMEASURED));
}

#[test]
fn a_full_bar_is_the_tallest_one() {
    assert_eq!(tallest_bar(&[]), 1);
    assert_eq!(tallest_bar(&[0, 0]), 1);
    assert_eq!(tallest_bar(&[3, 9, 4]), 9);
}

#[test]
fn each_part_is_shown_for_its_switch_and_its_analyzer() {
    let all = Analyzers {
        meter: true,
        vu: true,
        display: true,
        bank: true,
    };
    let none = Analyzers {
        meter: false,
        vu: false,
        display: false,
        bank: false,
    };
    let everything = Views {
        loudness: true,
        meter: true,
        overs: true,
        timeline: true,
        histogram: true,
        needles: true,
        waveform: true,
        oscilloscope: true,
        stereo: true,
        spectrum: true,
    };
    let shown = |block: &[u8], analyzers| views(&RuntimeSettings::parse(block), analyzers);
    assert_eq!(shown(b"v=2", all), everything);
    assert_eq!(
        shown(b"v=2", none),
        Views {
            meter: false,
            histogram: false,
            needles: false,
            waveform: false,
            oscilloscope: false,
            stereo: false,
            spectrum: false,
            ..everything
        }
    );
    assert_eq!(
        shown(b"v=2;m=011111111", all),
        Views {
            loudness: false,
            meter: false,
            overs: false,
            timeline: false,
            histogram: false,
            ..everything
        }
    );
    let timeline = shown(b"v=2;timeline=0", all);
    assert_eq!(timeline, Views { timeline: false, ..everything });
    let histogram = shown(b"v=2;hist=0", all);
    assert_eq!(histogram, Views { histogram: false, ..everything });
    let overs = shown(b"v=2;overs=0", all);
    assert_eq!(overs, Views { overs: false, ..everything });
    // Either spectrum module shows the spectrum.
    assert!(shown(b"v=2;m=101111111", all).spectrum);
    assert!(shown(b"v=2;m=110111111", all).spectrum);
    assert!(!shown(b"v=2;m=100111111", all).spectrum);
    assert!(!shown(b"v=2;m=111011111", all).waveform);
    assert!(!shown(b"v=2;m=111101111", all).stereo);
    assert!(!shown(b"v=2;m=111111101", all).needles);
    assert!(!shown(b"v=2;m=111111110", all).oscilloscope);
}

#[test]
fn a_part_that_is_not_shown_is_blank() {
    let wave = [Pair {
        first: 0.5_f32,
        second: 0.75,
    }];
    let bands = [0.25_f32];
    let bars = [1.0_f32];
    let source = PictureSource {
        waveform: Some(&wave),
        spectrum: Some(&bands),
        spectrum_frames: Some(12.0),
        histogram: Some(&bars),
        ..blank_source()
    };
    let runtime = RuntimeSettings::parse(b"v=2;m=100111111;hist=0");
    let shown = views(
        &runtime,
        Analyzers {
            meter: true,
            vu: true,
            display: true,
            bank: true,
        },
    );
    let mut picture = vec![7.0_f32; SCOPE_SLOTS];
    source.limit_to(shown).publish_picture(&mut picture);
    assert_eq!(picture[20], 0.0);
    assert_eq!((picture[WAVE_MIN], picture[WAVE_MAX]), (0.5, 0.75));
    assert_eq!(picture[SPECTRUM], 0.0);
    assert_eq!(picture[HISTOGRAM], 0.0);
}

#[test]
fn a_plan_is_carried_out_on_the_bank_and_the_needle() {
    let timing = analysis::ScopeTiming {
        sample_rate_valid: true,
        correlation_frames: Some(8),
        waveform_frames: Some(16),
        spectrum_range_valid: true,
        ballistics_valid: true,
    };
    let blanks = Blanks {
        energy: 0.0_f32,
        bucket: 0.0_f32,
        point: 0.0_f32,
        sample: 0.0_f32,
        input: 0.0_f32,
        level: 0.0_f32,
    };
    let recommended = analysis::ScopeConfig::recommended(true, 512).unwrap();
    let mut bank = ScopeAnalyzer::new(fft_scope_config(recommended, 1), timing, blanks).unwrap();
    let vu_timing = VuTiming {
        sample_rate_valid: true,
        calibration_valid: true,
        ballistics_valid: true,
        peak_hold_frames: Some(4),
    };
    let mut needle = VuMeter::new(VuMode::Vu, 512, vu_timing, 0.0_f32).unwrap();
    let reading = VuReading {
        detector: 0.5_f32,
        reaches_peak: true,
        fallen_peak: 0.25,
    };
    let frame = Frame {
        energy: 0.1,
        bucket: 0.2,
        point: 0.3,
        sample: 0.4,
        input: 0.5,
    };
    let levels = vec![1.0_f32; bank.config.spectrum_bands];

    let mut plugin = active();
    apply(&mut plugin, b"v=2");
    bank.push_frame(&frame, ScopeWork::all());
    bank.finish_spectrum(&levels);
    needle.take_frame(&reading, &reading);
    needle.finish_block(1);

    // Another grouping clears the display and keeps the input.
    let plan = apply(&mut plugin, b"v=2;scale=mel");
    plan.apply_to_bank(&mut bank);
    assert!(!plan.apply_to_needle(&mut needle));
    assert_eq!(bank.spectrum_scale(), analysis::SpectrumScale::Mel);
    assert_eq!((bank.spectrum_frame_count(), bank.input.get(0)), (0, Some(0.5)));
    assert_eq!(bank.processed_frames, 1);
    assert_eq!((needle.left.detector, needle.processed_frames), (0.5, 1));

    // Another mode silences the needle and goes on counting.
    let plan = apply(&mut plugin, b"v=2;scale=mel;vu=peak");
    plan.apply_to_bank(&mut bank);
    assert!(plan.apply_to_needle(&mut needle));
    assert_eq!((needle.left.detector, needle.processed_frames), (0.0, 1));
    assert_eq!(bank.input.get(0), Some(0.5));

    // A spectrum that comes back starts anew.
    apply(&mut plugin, b"v=2;scale=mel;vu=peak;m=100111111");
    let plan = apply(&mut plugin, b"v=2;scale=mel;vu=peak");
    plan.apply_to_bank(&mut bank);
    assert_eq!((bank.input.get(0), bank.processed_frames), (None, 1));
    assert_eq!(bank.oscilloscope.len(), 1);

    // Another signal clears everything.
    let plan = apply(&mut plugin, b"v=2;scale=mel;vu=peak;route=side");
    plan.apply_to_former_bank(&mut bank);
    plan.apply_to_needle(&mut needle);
    assert_eq!((bank.processed_frames, bank.oscilloscope.len()), (0, 0));
    assert_eq!(needle.processed_frames, 0);
}
