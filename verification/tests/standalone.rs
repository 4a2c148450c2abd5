use neta::bridge::blocks::{AudioBlockMeta, RingConfig};
use neta::bridge::ring::AudioBlockRing;
use neta::scope::rows::RowHistory;
use neta::standalone::clocks::{
    DemoTick, FrameClock, Idle, SlowRefresh, BLOCK_FRAMES, FRAME_INTERVAL, GPU_RECOVERY_INTERVAL,
    MAX_DEMO_BLOCKS_PER_TICK,
};
use neta::standalone::engine::{check_fft, check_rate, EngineError};
use neta::standalone::ingress::CaptureIngress;
use neta::standalone::launch::{
    input_title, launch_options, window_title, LaunchError, LaunchOptions, SourceMode,
};
use neta::standalone::object::{
    check_buffers, ensure_file_size, has_point_room, object_format, take_points, ObjectError,
    ObjectFormat, MAX_OBJECT_BYTES, MAX_OBJECT_POINTS,
};
use neta::standalone::waterfall::fill_waterfall;

#[test]
fn ingress_chunks_stereo_without_allocating_or_reordering() {
    let (producer, mut consumer) = AudioBlockRing::new(RingConfig::new(2, 2, BLOCK_FRAMES))
        .unwrap()
        .into_endpoints();
    let mut ingress = CaptureIngress::new(producer, 48_000, 2);
    let mut input = Vec::with_capacity(BLOCK_FRAMES * 2);
    for index in 0..BLOCK_FRAMES {
        let value = index as f32 / BLOCK_FRAMES as f32;
        input.extend([value.to_bits(), (-value).to_bits()]);
    }
    ingress.push_interleaved(&input);
    let mut left = [0_u32; BLOCK_FRAMES];
    let mut right = [0_u32; BLOCK_FRAMES];
    let mut output: [&mut [u32]; 2] = [&mut left, &mut right];
    let info = consumer.try_pop_into(&mut output).unwrap().unwrap();
    assert_eq!(info.frames, BLOCK_FRAMES);
    assert_eq!(f32::from_bits(left[0]), 0.0);
    assert!(f32::from_bits(right[BLOCK_FRAMES - 1]) < -0.99);
}

/// Pops every block that is ready, frame by frame.
fn received(channels: usize, callbacks: &[Vec<f32>]) -> Vec<(f32, f32, u64)> {
    let (producer, mut consumer) = AudioBlockRing::new(RingConfig::new(4, 2, BLOCK_FRAMES))
        .unwrap()
        .into_endpoints();
    let mut ingress = CaptureIngress::new(producer, 44_100, channels);
    for data in callbacks {
        let bits: Vec<u32> = data.iter().map(|value| value.to_bits()).collect();
        ingress.push_interleaved(&bits);
    }
    let mut frames = Vec::new();
    loop {
        let mut left = [0_u32; BLOCK_FRAMES];
        let mut right = [0_u32; BLOCK_FRAMES];
        let mut output: [&mut [u32]; 2] = [&mut left, &mut right];
        let Some(info) = consumer.try_pop_into(&mut output).unwrap() else {
            return frames;
        };
        assert_eq!(info.meta.sample_rate_hz, 44_100);
        for index in 0..info.frames {
            frames.push((
                f32::from_bits(left[index]),
                f32::from_bits(right[index]),
                info.meta.stream_frame,
            ));
        }
    }
}

#[test]
fn blocks_join_the_callbacks_they_come_from() {
    // Three channels, callbacks of uneven length with a partial frame.
    let first: Vec<f32> = (0..3 * 500 + 2).map(|index| index as f32).collect();
    let second: Vec<f32> = (0..3 * 1_100).map(|index| 10_000.0 + index as f32).collect();
    let frames = received(3, &[first, second]);
    assert_eq!(frames.len(), 2 * BLOCK_FRAMES);
    assert_eq!(frames[0], (0.0, 1.0, 0));
    assert_eq!(frames[499], (1_497.0, 1_498.0, 0));
    assert_eq!(frames[500], (10_000.0, 10_001.0, 0));
    assert_eq!(frames[800], (10_900.0, 10_901.0, 800));
    // One channel is heard on both sides, and what is no number is silent.
    let mut single = vec![0.5_f32; BLOCK_FRAMES];
    single[3] = f32::NAN;
    let frames = received(1, &[single]);
    assert_eq!(frames[2], (0.5, 0.5, 0));
    assert_eq!(frames[3], (0.0, 0.0, 0));
}

#[test]
fn a_full_ring_drops_the_newest_block() {
    let data: Vec<f32> = (0..6 * BLOCK_FRAMES).map(|index| index as f32).collect();
    let frames = received(1, &[data]);
    assert_eq!(frames.len(), 4 * BLOCK_FRAMES);
    assert_eq!(frames[frames.len() - 1].0, (4 * BLOCK_FRAMES - 1) as f32);
}

fn launch(arguments: &[&str]) -> Result<LaunchOptions, LaunchError> {
    let arguments: Vec<String> = arguments.iter().map(|word| word.to_string()).collect();
    launch_options(&arguments)
}

#[test]
fn arguments_are_read_in_order() {
    let options = launch(&[]).unwrap();
    assert_eq!(options.source, SourceMode::Demo);
    assert_eq!(options.object_path, None);
    let options = launch(&["--input", "--object", "a.obj", "--object", "--demo"]).unwrap();
    assert_eq!(options.source, SourceMode::Input);
    assert_eq!(options.object_path.as_deref(), Some("--demo"));
    let options = launch(&["--input", "--demo"]).unwrap();
    assert_eq!(options.source, SourceMode::Demo);
}

#[test]
fn refused_arguments_explain_themselves() {
    let refused = |arguments: &[&str]| launch(arguments).unwrap_err().message();
    assert_eq!(
        refused(&["--object"]),
        "--object needs a .obj, .gltf, or .glb path"
    );
    assert!(refused(&["--input", "--system-audio"]).starts_with("system-audio tap is not wired"));
    assert_eq!(
        refused(&["--help"]),
        "usage: neta-app [--demo | --input] [--object FILE.obj|FILE.gltf|FILE.glb]"
    );
    assert_eq!(refused(&["-h"]), refused(&["--help"]));
    assert_eq!(
        refused(&["--demo", "--loud", "--help"]),
        "unknown argument `--loud`; use --help"
    );
}

#[test]
fn titles_name_the_source_and_the_object() {
    assert_eq!(window_title(SourceMode::Demo, None), "Neta — demo source");
    assert_eq!(
        window_title(SourceMode::Input, Some("car")),
        "Neta — default input capture · object: car"
    );
    assert_eq!(input_title("BlackHole"), "Neta — input: BlackHole");
}

#[test]
fn frames_are_paced_while_the_window_is_seen() {
    let mut clock = FrameClock::new(5);
    assert_eq!(
        clock.idle(5),
        Idle::Until {
            moment: 5 + FRAME_INTERVAL,
            redraw: true
        }
    );
    assert_eq!(
        clock.idle(6),
        Idle::Until {
            moment: 5 + FRAME_INTERVAL,
            redraw: false
        }
    );
    assert!(!clock.set_occluded(true, 7));
    assert_eq!(clock.idle(u64::MAX), Idle::Wait);
    assert!(clock.set_occluded(false, 9));
    assert_eq!(
        clock.idle(9),
        Idle::Until {
            moment: 9 + FRAME_INTERVAL,
            redraw: true
        }
    );
    clock.start(3);
    assert_eq!(clock.next_frame, 3);
}

#[test]
fn a_lost_gpu_is_tried_again_once_a_second() {
    let mut clock = FrameClock::new(0);
    assert!(!clock.try_recovery(true, 10));
    clock.lose_renderer(10);
    assert!(!clock.try_recovery(false, 9));
    assert!(clock.try_recovery(false, 10));
    assert!(!clock.try_recovery(false, 10 + GPU_RECOVERY_INTERVAL - 1));
    assert!(clock.try_recovery(false, 10 + GPU_RECOVERY_INTERVAL));
}

/// How many blocks a tick of so many seconds makes at a rate.
fn demo_blocks(pending: &mut f32, rate: f32, delta_seconds: f32) -> usize {
    let block_seconds = BLOCK_FRAMES as f32 / rate;
    let maximum = block_seconds * MAX_DEMO_BLOCKS_PER_TICK as f32;
    *pending = (*pending + delta_seconds.clamp(0.0, 0.25)).min(maximum);
    let mut tick = DemoTick::new();
    let mut blocks = 0;
    while tick.another(*pending >= block_seconds) {
        *pending -= block_seconds;
        blocks += 1;
    }
    blocks
}

#[test]
fn a_demo_tick_makes_what_is_pending_up_to_its_limit() {
    let mut tick = DemoTick::new();
    assert!(!tick.another(false));
    for _ in 0..MAX_DEMO_BLOCKS_PER_TICK {
        assert!(tick.another(true));
    }
    assert!(!tick.another(true));
    assert!(!tick.another(false));

    // One block is due at once.
    let rate = 48_000.0;
    let mut pending = BLOCK_FRAMES as f32 / rate;
    assert_eq!(demo_blocks(&mut pending, rate, 0.0), 1);
    assert_eq!(demo_blocks(&mut pending, rate, 0.0), 0);
    // The block that is due and a quarter of a second are sixteen blocks; the
    // rounding of the sums leaves the last one for the next tick.
    let mut pending = BLOCK_FRAMES as f32 / rate;
    let made: usize = (0..16)
        .map(|_| demo_blocks(&mut pending, rate, 0.015_625))
        .sum();
    assert_eq!(made, 15);
    // A stall is made up for by eight blocks at most.
    assert_eq!(demo_blocks(&mut pending, rate, 10.0), 8);
}

#[test]
fn slow_readings_come_once_a_second_of_audio() {
    let mut refresh = SlowRefresh::new();
    assert!(refresh.due(800, 48_000));
    assert!(!refresh.due(48_799, 48_000));
    assert!(refresh.due(48_800, 48_000));
    assert_eq!(refresh.next_frame, 96_800);
    assert!(refresh.due(u64::MAX - 1, 48_000));
    assert_eq!(refresh.next_frame, u64::MAX);
}

#[test]
fn the_waterfall_samples_the_spectrogram() {
    let mut rows = RowHistory::new(5, 4, 0_u32);
    let mut shown = vec![9_u32; 3 * 2];
    assert_eq!(fill_waterfall(&rows, 2, 3, 7, &mut shown), 0);
    assert_eq!(shown, vec![7; 6]);
    for row in 0..6_u32 {
        rows.push(&[row * 10, row * 10 + 1, row * 10 + 2, row * 10 + 3]);
    }
    // Rows 1 to 5 are left: the first, the middle and the last are shown.
    assert_eq!(fill_waterfall(&rows, 2, 3, 7, &mut shown), 3);
    assert_eq!(shown, vec![10, 13, 30, 33, 50, 53]);
    let mut wide = vec![0_u32; 6 * 7];
    assert_eq!(fill_waterfall(&rows, 7, 6, 7, &mut wide), 5);
    assert_eq!(wide[..7], [10, 10, 11, 11, 12, 12, 13]);
    assert_eq!(wide[35..], [7; 7]);
}

#[test]
fn empty_object_is_rejected() {
    assert!(take_points::<[f32; 3]>(&[]).is_err());
}

#[test]
fn objects_are_limited() {
    assert_eq!(ensure_file_size(MAX_OBJECT_BYTES), Ok(()));
    assert_eq!(
        ensure_file_size(MAX_OBJECT_BYTES + 1).unwrap_err().message(),
        "object is 16777217 bytes; Neta object limit is 16777216"
    );
    assert_eq!(object_format(Some("OBJ")), Ok(ObjectFormat::Obj));
    assert_eq!(object_format(Some("glb")), Ok(ObjectFormat::Gltf));
    assert_eq!(object_format(Some("glTF")), Ok(ObjectFormat::Gltf));
    assert_eq!(object_format(None), Err(ObjectError::UnknownFormat));
    assert_eq!(
        object_format(Some("stl")).unwrap_err().message(),
        "supported object formats: .obj, .gltf, .glb"
    );
    assert_eq!(check_buffers(&[]), Ok(()));
    assert_eq!(check_buffers(&[MAX_OBJECT_BYTES - 1, 1]), Ok(()));
    assert_eq!(
        check_buffers(&[MAX_OBJECT_BYTES, 1]).unwrap_err().message(),
        "glTF declares 16777217 bytes; Neta object limit is 16777216"
    );
    assert_eq!(
        check_buffers(&[u64::MAX, 1, 1]).unwrap_err().message(),
        "glTF buffer size overflows Neta import limit"
    );
    assert_eq!(
        ObjectError::NoVertices.message(),
        "object contains no POSITION vertices"
    );
    let many: Vec<usize> = (0..MAX_OBJECT_POINTS + 5).collect();
    let taken = take_points(&many).unwrap();
    assert_eq!(taken[..], many[..MAX_OBJECT_POINTS]);
    assert_eq!(take_points(&[4, 5]), Ok(vec![4, 5]));
    assert!(has_point_room(MAX_OBJECT_POINTS - 1));
    assert!(!has_point_room(MAX_OBJECT_POINTS));
}

#[test]
fn an_engine_needs_a_rate_and_its_bins() {
    assert_eq!(check_rate(8_000), Ok(()));
    assert_eq!(
        check_rate(7_999).unwrap_err().message(),
        "input sample rate 7999 Hz is too low for Neta"
    );
    assert_eq!(check_fft(2_048), Ok(()));
    assert_eq!(
        check_fft(1_024),
        Err(EngineError::FftMismatch { fft_size: 1_024 })
    );
    assert_eq!(
        EngineError::FftMismatch { fft_size: 1_024 }.message(),
        "Neta scope FFT is 1024; Dalia adapter requires 2048"
    );
}

#[test]
fn captured_blocks_follow_what_the_ring_was_sent_before() {
    let config = RingConfig::new(4, 2, BLOCK_FRAMES);
    let (mut producer, mut consumer) = AudioBlockRing::new(config).ok().unwrap().into_endpoints();
    let (other, mut elsewhere) = AudioBlockRing::new(config).ok().unwrap().into_endpoints();
    assert_eq!(other.config(), config);
    let meta = AudioBlockMeta::new(77, 44_100);
    producer.try_push(meta, &[&[1_u32, 2]]).unwrap();
    let mut ingress = CaptureIngress::new(producer, 48_000, 1);
    let data: Vec<u32> = (0..2 * BLOCK_FRAMES as u32 + 5).collect();
    for chunk in data.chunks(301) {
        ingress.push_interleaved(chunk);
    }
    let mut left = [0_u32; BLOCK_FRAMES];
    let mut right = [0_u32; BLOCK_FRAMES];
    let mut frames = Vec::new();
    let mut starts = Vec::new();
    loop {
        let mut destination: [&mut [u32]; 2] = [&mut left, &mut right];
        match consumer.try_pop_into(&mut destination).unwrap() {
            Some(info) => {
                starts.push(info.meta.stream_frame);
                frames.extend_from_slice(&left[..info.frames]);
            }
            None => break,
        }
    }
    assert_eq!(starts, [77, 0, 800]);
    assert_eq!(frames[..2], [1, 2]);
    assert_eq!(frames[2..], data[..2 * BLOCK_FRAMES]);
    assert_eq!(elsewhere.peek_info(), None);
}
