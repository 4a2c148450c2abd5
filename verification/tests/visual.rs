use neta::render::staging::{
    attribute_offset, valid_words, Staging, DEFAULT_MAX_PRIMITIVES, INSTANCE_BYTES, INSTANCE_WORDS,
};
use neta::render::surface::{first_size, surface_size, FrameResult, InitError, SurfaceState};
use neta::samples::{finite_sample, is_finite, sanitize};
use neta::visual::compose::{compose, Draw, SceneLimits, SceneShape};
use neta::visual::dalia::{by_id, preset, presets, Hue, Motif, PRESET_COUNT};
use neta::visual::obj::sample_points;
use neta::visual::shader::PRIMITIVE_WGSL;
use neta::visual::spacing::{bounded_count, bounded_index, evenly_spaced_index};

#[test]
fn shader_has_both_stages() {
    assert!(PRIMITIVE_WGSL.contains("@vertex"));
    assert!(PRIMITIVE_WGSL.contains("@fragment"));
}

#[test]
fn presets_have_stable_unique_ids() {
    let presets = presets();
    assert_eq!(presets.len(), 20);
    for (index, preset) in presets.iter().enumerate() {
        assert_eq!(by_id(preset.id), Some(*preset));
        assert!(presets[index + 1..].iter().all(|later| later.id != preset.id));
    }
}

#[test]
fn presets_keep_their_recipes() {
    let eco = by_id("neta-eco").unwrap();
    assert_eq!(eco.label, "Eco");
    assert_eq!(eco.motif, Motif::Spiral);
    assert_eq!((eco.base, eco.accent), (Hue::Cobalt, Hue::Mango));
    assert_eq!(
        (eco.loudness_gain, eco.width_gain, eco.spectral_gain),
        (16, 18, 41)
    );
    assert_eq!(preset(0).label, "L\u{ed}nea");
    assert_eq!(preset(PRESET_COUNT - 1).id, "neta-satelite");
    assert_eq!(by_id("neta"), None);
    assert_eq!(Hue::Guava.rgb(), (1_000, 270, 204));
    assert_eq!(Hue::Cobalt.rgb(), (102, 400, 980));
    assert_eq!(Hue::Violet.rgb(), (560, 310, 910));
    assert_eq!(Hue::Nickel.rgb(), (710, 780, 784));
    assert_eq!(Hue::Mango.rgb(), (1_000, 690, 160));
}

fn tally(plan: &[Draw]) -> (usize, usize, usize) {
    let (mut lines, mut quads, mut dots) = (0, 0, 0);
    for draw in plan {
        match draw {
            Draw::GridColumn { .. }
            | Draw::GridRow { .. }
            | Draw::MeterPeak { .. }
            | Draw::WaveTop { .. }
            | Draw::WaveBottom { .. }
            | Draw::Axis { .. } => lines += 1,
            Draw::Point { .. } => dots += 1,
            _ => quads += 1,
        }
    }
    (lines, quads, dots)
}

#[test]
fn composer_bounds_full_size_data_without_reallocating() {
    let limits = SceneLimits::new(256, 96, 1_024);
    let shape = SceneShape {
        momentary: true,
        short_term: true,
        integrated: true,
        range: true,
        waveform: 512,
        spectrum: 192,
        spectrogram: 96 * 128,
        spectrogram_rows: 128,
        spectrogram_bands: 96,
        goniometer: 2_048,
    };
    let mut plan = Vec::new();
    compose(&shape, &limits, &mut plan);
    let (lines, quads, dots) = tally(&plan);
    assert!(lines <= limits.line_capacity());
    assert!(quads <= limits.quad_capacity());
    assert!(dots <= limits.goniometer_points);
    assert_eq!(dots, 1_024);
    assert_eq!(lines, 8 + 4 + 2 * 255 + 2);
    assert_eq!(quads, 10 + 96 + 64 * 48);
    assert_eq!(limits.line_capacity(), 20 + 2 * 255);
    assert_eq!(limits.quad_capacity(), 10 + 96 + 64 * 48);
}

#[test]
fn an_empty_scene_has_its_rooms_and_runways() {
    let limits = SceneLimits {
        waveform_points: 0,
        spectrum_points: 0,
        goniometer_points: 0,
        spectrogram_rows: usize::MAX,
        spectrogram_bands: 2,
    };
    assert_eq!(limits.line_capacity(), 20);
    assert_eq!(limits.quad_capacity(), usize::MAX);
    let shape = SceneShape {
        momentary: false,
        short_term: true,
        integrated: false,
        range: false,
        waveform: 9,
        spectrum: 9,
        spectrogram: 9,
        spectrogram_rows: 9,
        spectrogram_bands: 0,
        goniometer: 9,
    };
    let mut plan = vec![Draw::RangeRail; 3];
    compose(&shape, &limits, &mut plan);
    assert_eq!(tally(&plan), (8 + 2 + 2, 4 + 2 + 1, 0));
    assert_eq!(plan[0], Draw::GridColumn { index: 0 });
    assert_eq!(plan[7], Draw::GridRow { index: 3 });
    assert_eq!(plan[8], Draw::MeterRail { meter: 0 });
    assert_eq!(plan[9], Draw::MeterRail { meter: 1 });
    assert_eq!(plan[11], Draw::MeterPeak { meter: 1 });
    assert_eq!(plan[plan.len() - 1], Draw::Axis { index: 1 });
}

#[test]
fn a_malformed_spectrogram_draws_its_whole_rows() {
    let limits = SceneLimits {
        waveform_points: 3,
        spectrum_points: 2,
        goniometer_points: 2,
        spectrogram_rows: 8,
        spectrogram_bands: 2,
    };
    let shape = SceneShape {
        momentary: false,
        short_term: false,
        integrated: false,
        range: false,
        waveform: 5,
        spectrum: 1,
        // Two rows of four, and a tail.
        spectrogram: 11,
        spectrogram_rows: 6,
        spectrogram_bands: 4,
        goniometer: 0,
    };
    let mut plan = Vec::new();
    compose(&shape, &limits, &mut plan);
    let cells: Vec<(usize, usize, usize)> = plan
        .iter()
        .filter_map(|draw| match draw {
            Draw::Cell {
                row, band, source, ..
            } => Some((*row, *band, *source)),
            _ => None,
        })
        .collect();
    assert_eq!(cells, vec![(0, 0, 0), (0, 1, 3), (1, 0, 4), (1, 1, 7)]);
    let edges: Vec<(usize, usize, usize)> = plan
        .iter()
        .filter_map(|draw| match draw {
            Draw::WaveTop {
                draw,
                previous,
                source,
                ..
            } => Some((*draw, *previous, *source)),
            _ => None,
        })
        .collect();
    assert_eq!(edges, vec![(1, 0, 2), (2, 2, 4)]);
}

#[test]
fn picks_are_in_order() {
    assert_eq!(bounded_count(5, 3), 3);
    assert_eq!(bounded_count(2, 3), 2);
    let picks: Vec<usize> = (0..4).map(|index| bounded_index(index, 4, 10)).collect();
    assert_eq!(picks, vec![0, 3, 6, 9]);
    assert_eq!(bounded_index(2, 3, 3), 2);
    assert_eq!(bounded_index(0, 1, 9), 0);
    let rows: Vec<usize> = (0..5).map(|index| evenly_spaced_index(index, 5, 3)).collect();
    assert_eq!(rows, vec![0, 0, 1, 1, 2]);
    assert_eq!(evenly_spaced_index(3, 4, 1), 0);
    assert_eq!(evenly_spaced_index(0, 1, 8), 0);
}

/// Normalises points into the unit cube and picks those that are drawn.
fn unit_point_cloud(positions: &[f32], budget: usize) -> Vec<f32> {
    let low = positions.iter().copied().fold(f32::INFINITY, f32::min);
    let high = positions.iter().copied().fold(f32::NEG_INFINITY, f32::max);
    sample_points(positions, budget)
        .into_iter()
        .map(|x| (x - (low + high) * 0.5) * (2.0 / (high - low)))
        .collect()
}

#[test]
fn the_cloud_never_exceeds_its_budget_and_spans_the_whole_model() {
    let positions: Vec<f32> = (0..1_000).map(|index| index as f32).collect();
    let cloud = unit_point_cloud(&positions, 64);
    assert!(cloud.len() <= 64, "budget exceeded: {}", cloud.len());
    // Sampled across the model, not truncated to its first 64 vertices.
    assert!(*cloud.first().unwrap() < -0.9);
    assert!(*cloud.last().unwrap() > 0.9);
}

#[test]
fn finite_bits_are_those_of_finite_floats() {
    let mut bits = 0_u32;
    for _ in 0..300_000 {
        assert_eq!(is_finite(bits), f32::from_bits(bits).is_finite(), "{bits:x}");
        bits = bits.wrapping_add(0x0001_2345);
    }
    for value in [
        f32::NAN,
        f32::INFINITY,
        f32::NEG_INFINITY,
        f32::MAX,
        f32::MIN,
        f32::MIN_POSITIVE,
        -0.0,
    ] {
        assert_eq!(is_finite(value.to_bits()), value.is_finite());
        let clean = if value.is_finite() { value.to_bits() } else { 0 };
        assert_eq!(sanitize(value.to_bits()), clean);
        assert_eq!(finite_sample(Some(value.to_bits())), clean);
    }
    assert_eq!(finite_sample(None), 0);
}

#[test]
fn invalid_geometry_is_rejected_before_gpu_upload() {
    assert!(!valid_words(&[f32::INFINITY.to_bits(), 0.0_f32.to_bits()]));
    assert!(!valid_words(&[
        f32::NAN.to_bits(),
        0.0_f32.to_bits(),
        0.0_f32.to_bits(),
        1.0_f32.to_bits()
    ]));
    assert!(valid_words(&[0.5_f32.to_bits(), (-0.5_f32).to_bits()]));
    assert!(valid_words(&[]));
}

#[test]
fn staging_takes_whole_instances_up_to_its_capacity() {
    let mut staging = Staging::with_capacity(2);
    assert_eq!(staging.capacity(), 2);
    let corners: [u32; 8] = std::array::from_fn(|index| (index as f32).to_bits());
    let color: [u32; 4] = std::array::from_fn(|index| (index as f32 * 0.25).to_bits());
    let mut broken = corners;
    broken[3] = f32::NAN.to_bits();
    assert!(!staging.push_polygon(&broken, &color));
    assert_eq!(staging.primitives(), 0);
    assert!(staging.push_polygon(&corners, &color));
    assert_eq!(staging.words()[..8], corners);
    assert_eq!(staging.words()[8..], color);
    let plan = staging.plan_cloud(31, 29);
    assert_eq!((plan.points, plan.drawn), (9, 1));
    assert_eq!(plan.source(0), 0);
    assert!(staging.push_polygon(&corners, &color));
    assert!(!staging.push_polygon(&corners, &color));
    assert_eq!(staging.primitives(), 2);
    assert_eq!(staging.plan_cloud(30, 30).drawn, 0);
    staging.clear();
    assert_eq!(staging.words().len(), 0);
    assert_eq!(Staging::with_capacity(0).capacity(), 1);
    let all = Staging::with_capacity(DEFAULT_MAX_PRIMITIVES).plan_cloud(30, 30);
    assert_eq!((all.points, all.drawn, all.source(7)), (10, 10, 7));
    assert_eq!(INSTANCE_BYTES as usize, INSTANCE_WORDS * 4);
    let offsets: Vec<u64> = (0..5).map(attribute_offset).collect();
    assert_eq!(offsets, vec![0, 8, 16, 24, 32]);
}

#[test]
fn a_surface_says_what_to_do() {
    let cases = [
        (SurfaceState::Success, true, false, FrameResult::Presented),
        (
            SurfaceState::Suboptimal,
            true,
            true,
            FrameResult::PresentedAndReconfigured,
        ),
        (SurfaceState::Timeout, false, false, FrameResult::Skipped),
        (SurfaceState::Occluded, false, false, FrameResult::Skipped),
        (
            SurfaceState::Outdated,
            false,
            true,
            FrameResult::Reconfigured,
        ),
        (SurfaceState::Lost, false, false, FrameResult::SurfaceLost),
        (
            SurfaceState::Validation,
            false,
            false,
            FrameResult::ValidationError,
        ),
    ];
    for (state, draws, reconfigures, result) in cases {
        assert_eq!(state.draws(), draws);
        assert_eq!(state.reconfigures(), reconfigures);
        assert_eq!(state.result(), result);
        let fatal = matches!(state, SurfaceState::Lost | SurfaceState::Validation);
        assert_eq!(result.needs_recovery(), fatal);
    }
    assert_eq!(surface_size(0, 9), None);
    assert_eq!(surface_size(9, 0), None);
    assert_eq!(surface_size(9, 8), Some((9, 8)));
    assert_eq!(first_size(0, 7), (1, 7));
    assert_eq!(first_size(6, 0), (6, 1));
}

#[test]
fn a_gpu_that_cannot_be_had_is_said_so() {
    let reason = || String::from("lost");
    assert_eq!(
        InitError::Surface(reason()).message(),
        "could not create Neta GPU surface: lost"
    );
    assert_eq!(
        InitError::Adapter(reason()).message(),
        "could not select Neta GPU adapter: lost"
    );
    assert_eq!(
        InitError::Device(reason()).message(),
        "could not create Neta GPU device: lost"
    );
    assert_eq!(
        InitError::UnsupportedSurface.message(),
        "selected GPU cannot present to this surface"
    );
}

#[test]
fn the_waterfall_resolution_can_be_chosen() {
    let limits = SceneLimits::with_spectrogram(1, 2, 3, 4, 5);
    assert_eq!(limits.quad_capacity(), 10 + 2 + 4 * 5);
    assert_eq!(
        (
            limits.waveform_points,
            limits.spectrum_points,
            limits.goniometer_points,
            limits.spectrogram_rows,
            limits.spectrogram_bands
        ),
        (1, 2, 3, 4, 5)
    );
}
