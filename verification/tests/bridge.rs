use neta::bridge::blocks::{
    AudioBlockMeta, BlockInfo, PopError, PushError, RingConfig, RingConfigError,
};
use neta::bridge::owned::OwnedBlockRing;
use neta::bridge::ring::{push_newest, AudioBlockConsumer, AudioBlockProducer, AudioBlockRing};

fn endpoints() -> (AudioBlockProducer, AudioBlockConsumer) {
    AudioBlockRing::new(RingConfig::new(2, 2, 8))
        .ok()
        .expect("valid ring config")
        .into_endpoints()
}

fn bits(samples: &[f32]) -> Vec<u32> {
    samples.iter().map(|sample| sample.to_bits()).collect()
}

#[test]
fn config_rejects_zero_limits_and_overflow() {
    assert!(matches!(
        AudioBlockRing::new(RingConfig::new(0, 1, 1)),
        Err(RingConfigError::ZeroCapacity)
    ));
    assert!(matches!(
        AudioBlockRing::new(RingConfig::new(1, 0, 1)),
        Err(RingConfigError::ZeroMaxChannels)
    ));
    assert!(matches!(
        AudioBlockRing::new(RingConfig::new(1, 1, 0)),
        Err(RingConfigError::ZeroMaxFrames)
    ));
    assert!(matches!(
        AudioBlockRing::new(RingConfig::new(usize::MAX, 2, 1)),
        Err(RingConfigError::StorageSizeOverflow)
    ));
    assert!(matches!(
        AudioBlockRing::new(RingConfig::new(usize::MAX, 1, 1)),
        Err(RingConfigError::StorageSizeOverflow)
    ));
}

#[test]
fn transfers_planar_block_in_fifo_order() {
    let (mut producer, mut consumer) = endpoints();
    let left = bits(&[0.25, -0.5, 1.0, -1.0]);
    let right = bits(&[-0.25, 0.5, -1.0, 1.0]);
    let source: [&[u32]; 2] = [&left, &right];
    let meta = AudioBlockMeta::new(128, 48_000);

    producer.try_push(meta, &source).unwrap();
    assert_eq!(
        consumer.peek_info(),
        Some(BlockInfo {
            meta,
            channels: 2,
            frames: 4,
        })
    );

    let mut output_left = [99.0_f32.to_bits(); 8];
    let mut output_right = [99.0_f32.to_bits(); 8];
    let mut destination: [&mut [u32]; 2] = [&mut output_left, &mut output_right];
    let info = consumer.try_pop_into(&mut destination).unwrap();

    assert_eq!(info.unwrap().meta, meta);
    assert_eq!(&output_left[..4], left);
    assert_eq!(&output_right[..4], right);
    assert_eq!(&output_left[4..], &[99.0_f32.to_bits(); 4]);
    assert_eq!(&output_right[4..], &[99.0_f32.to_bits(); 4]);
    assert_eq!(consumer.peek_info(), None);
}

#[test]
fn full_queue_never_overwrites_oldest_block() {
    let (mut producer, mut consumer) = endpoints();
    let first = bits(&[1.0, 1.0]);
    let second = bits(&[2.0, 2.0]);
    let third = bits(&[3.0, 3.0]);

    producer
        .try_push(AudioBlockMeta::new(0, 48_000), &[&first])
        .unwrap();
    producer
        .try_push(AudioBlockMeta::new(2, 48_000), &[&second])
        .unwrap();
    assert_eq!(
        producer.try_push(AudioBlockMeta::new(4, 48_000), &[&third]),
        Err(PushError::Full)
    );

    let mut output = [0_u32; 8];
    let first_info = {
        let mut destination: [&mut [u32]; 1] = [&mut output];
        consumer.try_pop_into(&mut destination).unwrap().unwrap()
    };
    assert_eq!(first_info.meta.stream_frame, 0);
    assert_eq!(&output[..2], first);

    producer
        .try_push(AudioBlockMeta::new(4, 48_000), &[&third])
        .unwrap();
    let second_info = {
        let mut destination: [&mut [u32]; 1] = [&mut output];
        consumer.try_pop_into(&mut destination).unwrap().unwrap()
    };
    assert_eq!(second_info.meta.stream_frame, 2);
    assert_eq!(&output[..2], second);
    let third_info = {
        let mut destination: [&mut [u32]; 1] = [&mut output];
        consumer.try_pop_into(&mut destination).unwrap().unwrap()
    };
    assert_eq!(third_info.meta.stream_frame, 4);
    assert_eq!(&output[..2], third);
}

#[test]
fn input_validation_leaves_queue_untouched() {
    let (mut producer, mut consumer) = endpoints();
    let too_many_channels = [[0_u32; 2]; 3];
    let uneven_left = [0_u32; 2];
    let uneven_right = [0_u32; 3];

    assert_eq!(
        producer.try_push(AudioBlockMeta::new(0, 0), &[&[0]]),
        Err(PushError::ZeroSampleRate)
    );
    assert_eq!(
        producer.try_push(AudioBlockMeta::new(0, 48_000), &[]),
        Err(PushError::NoChannels)
    );
    assert_eq!(
        producer.try_push(AudioBlockMeta::new(0, 48_000), &[&[]]),
        Err(PushError::NoFrames)
    );
    assert_eq!(
        producer.try_push(
            AudioBlockMeta::new(0, 48_000),
            &[
                &too_many_channels[0],
                &too_many_channels[1],
                &too_many_channels[2]
            ],
        ),
        Err(PushError::TooManyChannels {
            provided: 3,
            maximum: 2,
        })
    );
    assert_eq!(
        producer.try_push(
            AudioBlockMeta::new(0, 48_000),
            &[&uneven_left, &uneven_right],
        ),
        Err(PushError::UnevenChannelFrames {
            channel: 1,
            expected: 2,
            actual: 3,
        })
    );
    assert_eq!(consumer.peek_info(), None);
}

#[test]
fn destination_error_keeps_pending_block_for_retry() {
    let (mut producer, mut consumer) = endpoints();
    let left = bits(&[0.25, 0.5]);
    let right = bits(&[0.75, 1.0]);
    let meta = AudioBlockMeta::new(64, 44_100);
    producer.try_push(meta, &[&left, &right]).unwrap();

    let mut only_channel = [0_u32; 2];
    let mut too_small_destination: [&mut [u32]; 1] = [&mut only_channel];
    assert_eq!(
        consumer.try_pop_into(&mut too_small_destination),
        Err(PopError::TooFewDestinationChannels {
            required: 2,
            provided: 1,
        })
    );
    assert_eq!(consumer.peek_info().unwrap().meta, meta);

    let mut output_left = [0_u32; 2];
    let mut output_right = [0_u32; 2];
    let mut valid_destination: [&mut [u32]; 2] = [&mut output_left, &mut output_right];
    assert_eq!(
        consumer
            .try_pop_into(&mut valid_destination)
            .unwrap()
            .unwrap()
            .meta,
        meta
    );
    assert_eq!(output_left.to_vec(), left);
    assert_eq!(output_right.to_vec(), right);
}

#[test]
fn preserves_all_f32_bits() {
    let (mut producer, mut consumer) = endpoints();
    let source = [
        f32::from_bits(0x7f80_0001).to_bits(),
        (-0.0_f32).to_bits(),
        f32::INFINITY.to_bits(),
        f32::NEG_INFINITY.to_bits(),
    ];
    producer
        .try_push(AudioBlockMeta::new(0, 48_000), &[&source])
        .unwrap();

    let mut output = [0_u32; 4];
    let mut destination: [&mut [u32]; 1] = [&mut output];
    consumer.try_pop_into(&mut destination).unwrap();
    for (actual, expected) in output.into_iter().zip(source) {
        assert_eq!(actual, expected);
    }
}

#[test]
fn one_slot_holds_one_block() {
    let (mut producer, mut consumer) = AudioBlockRing::new(RingConfig::new(1, 1, 2))
        .ok()
        .unwrap()
        .into_endpoints();
    for round in 0..5_u32 {
        producer
            .try_push(AudioBlockMeta::new(round as u64, 48_000), &[&[round]])
            .unwrap();
        assert_eq!(
            producer.try_push(AudioBlockMeta::new(99, 48_000), &[&[99]]),
            Err(PushError::Full)
        );
        let mut output = [0_u32; 1];
        let mut destination: [&mut [u32]; 1] = [&mut output];
        let info = consumer.try_pop_into(&mut destination).unwrap().unwrap();
        assert_eq!(info.meta.stream_frame, round as u64);
        assert_eq!(output, [round]);
    }
    assert_eq!(consumer.try_discard(), None);
}

#[test]
fn owned_ring_is_a_bounded_queue() {
    let mut ring = OwnedBlockRing::new(RingConfig::new(3, 2, 4)).ok().unwrap();
    assert_eq!(ring.config(), RingConfig::new(3, 2, 4));
    assert_eq!(ring.peek_info(), None);
    for round in 0..10_u32 {
        for block in 0..3_u32 {
            let sample = round * 10 + block;
            ring.try_push(
                AudioBlockMeta::new(sample as u64, 48_000),
                &[&[sample, sample + 1], &[sample + 2, sample + 3]],
            )
            .unwrap();
        }
        assert_eq!(
            ring.try_push(AudioBlockMeta::new(0, 48_000), &[&[1]]),
            Err(PushError::Full)
        );
        assert_eq!(ring.try_discard().unwrap().meta.stream_frame, (round * 10) as u64);
        for block in 1..3_u32 {
            let sample = round * 10 + block;
            let mut left = [7_u32; 3];
            let mut right = [7_u32; 2];
            let mut destination: [&mut [u32]; 2] = [&mut left, &mut right];
            ring.try_pop_into(&mut destination).unwrap().unwrap();
            assert_eq!(left, [sample, sample + 1, 7]);
            assert_eq!(right, [sample + 2, sample + 3]);
        }
        assert_eq!(ring.try_discard(), None);
    }
    ring.try_push(AudioBlockMeta::new(1, 48_000), &[&[1, 2, 3]]).unwrap();
    let mut short = [0_u32; 2];
    let mut destination: [&mut [u32]; 1] = [&mut short];
    assert_eq!(
        ring.try_pop_into(&mut destination),
        Err(PopError::DestinationChannelTooShort {
            channel: 0,
            required: 3,
            provided: 2,
        })
    );
    assert_eq!(ring.peek_info().unwrap().frames, 3);
    assert_eq!(
        ring.try_push(AudioBlockMeta::new(1, 48_000), &[&[0; 5]]),
        Err(PushError::TooManyFrames {
            provided: 5,
            maximum: 4,
        })
    );
}

#[test]
fn errors_explain_themselves() {
    assert_eq!(
        RingConfigError::ZeroCapacity.message(),
        "audio ring capacity must be greater than zero"
    );
    assert_eq!(
        PushError::UnevenChannelFrames {
            channel: 1,
            expected: 2,
            actual: 30,
        }
        .message(),
        "audio block channel 1 has 30 frames; expected 2"
    );
    assert_eq!(
        PopError::TooFewDestinationChannels {
            required: 2,
            provided: 1,
        }
        .message(),
        "audio destination has 1 channels; pending block needs 2"
    );
}

#[test]
fn every_error_has_its_sentence() {
    assert_eq!(
        RingConfigError::ZeroMaxChannels.message(),
        "audio ring maximum channel count must be greater than zero"
    );
    assert_eq!(
        RingConfigError::ZeroMaxFrames.message(),
        "audio ring maximum frame count must be greater than zero"
    );
    assert_eq!(
        RingConfigError::StorageSizeOverflow.message(),
        "audio ring backing storage size is not addressable"
    );
    assert_eq!(PushError::Full.message(), "audio ring is full");
    assert_eq!(PushError::NoChannels.message(), "audio block has no channels");
    assert_eq!(PushError::NoFrames.message(), "audio block has no frames");
    assert_eq!(
        PushError::ZeroSampleRate.message(),
        "audio block sample rate must be greater than zero"
    );
    assert_eq!(
        PushError::TooManyChannels {
            provided: 3,
            maximum: 2
        }
        .message(),
        "audio block has 3 channels; ring maximum is 2"
    );
    assert_eq!(
        PushError::TooManyFrames {
            provided: 9,
            maximum: 8
        }
        .message(),
        "audio block has 9 frames; ring maximum is 8"
    );
    assert_eq!(
        PopError::DestinationChannelTooShort {
            channel: 1,
            required: 8,
            provided: 7
        }
        .message(),
        "audio destination channel 1 has 7 frames; pending block needs 8"
    );
}

#[test]
fn the_newest_block_always_finds_room() {
    let mut ring = OwnedBlockRing::new(RingConfig::new(2, 1, 1)).ok().unwrap();
    let (mut producer, mut consumer) = AudioBlockRing::new(RingConfig::new(2, 1, 1))
        .ok()
        .unwrap()
        .into_endpoints();
    for sample in 1..=5_u32 {
        let meta = AudioBlockMeta::new(u64::from(sample), 48_000);
        ring.push_newest(meta, &[&[sample]]).unwrap();
        push_newest(&mut producer, &mut consumer, meta, &[&[sample]]).unwrap();
    }
    assert_eq!(
        ring.push_newest(AudioBlockMeta::new(6, 48_000), &[]),
        Err(PushError::NoChannels)
    );
    for sample in [4_u32, 5] {
        let mut one = [0_u32];
        let mut other = [0_u32];
        let mut destination: [&mut [u32]; 1] = [&mut one];
        let info = ring.try_pop_into(&mut destination).unwrap().unwrap();
        assert_eq!(info.meta.stream_frame, u64::from(sample));
        let mut destination: [&mut [u32]; 1] = [&mut other];
        consumer.try_pop_into(&mut destination).unwrap().unwrap();
        assert_eq!((one, other), ([sample], [sample]));
    }
    assert_eq!(ring.try_discard(), None);
    assert_eq!(consumer.try_discard(), None);
}

#[test]
fn blocks_arrive_in_order_while_the_ring_fills_and_empties() {
    let (mut producer, mut consumer) = endpoints();
    let mut sent = 0_u64;
    let mut received = 0_u64;
    let mut refused = 0;
    let mut empty = 0;
    for round in 0..200_u64 {
        for _ in 0..(round % 4) {
            let left = [sent as u32; 3];
            let right = [!(sent as u32); 3];
            match producer.try_push(AudioBlockMeta::new(sent, 48_000), &[&left, &right]) {
                Ok(()) => sent += 1,
                Err(problem) => {
                    assert_eq!(problem, PushError::Full);
                    assert_eq!(sent - received, 2);
                    refused += 1;
                }
            }
        }
        for _ in 0..(round % 3) {
            let mut left = [0; 3];
            let mut right = [0; 3];
            let mut destination: [&mut [u32]; 2] = [&mut left, &mut right];
            match consumer.try_pop_into(&mut destination).unwrap() {
                Some(info) => {
                    assert_eq!(info.meta.stream_frame, received);
                    assert_eq!(left, [received as u32; 3]);
                    assert_eq!(right, [!(received as u32); 3]);
                    received += 1;
                }
                None => {
                    assert_eq!(sent, received);
                    empty += 1;
                }
            }
        }
    }
    assert!(received > 100 && refused > 0 && empty > 0);
}

#[test]
fn a_block_that_was_seen_stays_until_it_is_taken() {
    let (mut producer, mut consumer) = AudioBlockRing::new(RingConfig::new(2, 1, 1))
        .ok()
        .unwrap()
        .into_endpoints();
    let sample = |value: f32| [value.to_bits()];
    for frame in 0..2 {
        let meta = AudioBlockMeta::new(frame, 48_000);
        producer.try_push(meta, &[&sample(frame as f32)]).unwrap();
    }
    let seen = consumer.peek_info().unwrap();
    assert_eq!(seen.meta, AudioBlockMeta::new(0, 48_000));
    let refused = AudioBlockMeta::new(2, 48_000);
    assert_eq!(
        producer.try_push(refused, &[&sample(2.0)]),
        Err(PushError::Full)
    );
    assert_eq!(consumer.peek_info(), Some(seen));
    let mut output = [0_u32; 1];
    let mut destination: [&mut [u32]; 1] = [&mut output];
    assert_eq!(consumer.try_pop_into(&mut destination), Ok(Some(seen)));
    assert_eq!(output, sample(0.0));
    assert_eq!(
        consumer.peek_info().unwrap().meta,
        AudioBlockMeta::new(1, 48_000)
    );
}

#[test]
fn a_ring_is_a_queue_while_only_one_end_is_called() {
    let (mut producer, mut consumer) = endpoints();
    assert_eq!(producer.config(), consumer.config());
    assert_eq!(consumer.peek_info(), None);
    assert_eq!(consumer.try_discard(), None);
    let samples = bits(&[0.5, -0.0, f32::NAN]);
    let push = |producer: &mut AudioBlockProducer, frame: u64| {
        producer.try_push(AudioBlockMeta::new(frame, 48_000), &[&samples])
    };
    assert_eq!(push(&mut producer, 0), Ok(()));
    assert_eq!(push(&mut producer, 1), Ok(()));
    assert_eq!(push(&mut producer, 2), Err(PushError::Full));
    let first = consumer.peek_info();
    assert_eq!(first.unwrap().meta.stream_frame, 0);
    assert_eq!(consumer.try_discard(), first);
    assert_eq!(push(&mut producer, 3), Ok(()));
    assert_eq!(push(&mut producer, 4), Err(PushError::Full));
    for frame in [1, 3] {
        let mut output = [7_u32; 4];
        let mut destination: [&mut [u32]; 1] = [&mut output];
        let info = consumer.try_pop_into(&mut destination).unwrap().unwrap();
        assert_eq!(info.meta.stream_frame, frame);
        assert_eq!(output[..3], samples[..]);
        assert_eq!(output[3], 7);
    }
    assert_eq!(consumer.peek_info(), None);
}
