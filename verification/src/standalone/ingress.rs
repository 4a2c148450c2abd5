//! From the interleaved samples of a capture callback to blocks in the ring.
use crate::bridge::blocks::{first_uneven, planes, shape_problem, AudioBlockMeta, BlockInfo};
use crate::bridge::calls::Session;
use crate::bridge::concurrent::{agrees, ends_of_a_ring_agree};
use crate::bridge::ring::AudioBlockProducer;
use crate::bridge::trace::{sent, taken_count, Offer};
use crate::samples::{numbers_lie_below_infinity, sanitize, sanitized};
use crate::scope::history::filled;
use crate::standalone::clocks::BLOCK_FRAMES;
use vstd::prelude::*;

verus! {

/// One stereo frame.
pub type StereoFrame = (u32, u32);

/// The frames of interleaved samples. A single channel is heard on both sides,
/// further channels are left out, and so is a partial frame at the end. What is
/// no number is silence.
pub open spec fn stereo_frames(data: Seq<u32>, channels: int) -> Seq<StereoFrame> {
    Seq::new(
        (data.len() as int / channels) as nat,
        |i: int|
            (
                sanitized(data[i * channels]),
                sanitized(
                    data[i * channels + (if channels > 1 {
                        1int
                    } else {
                        0int
                    })],
                ),
            ),
    )
}

/// The frames of a block that was offered to the ring.
pub open spec fn offer_frames(offer: Offer) -> Seq<StereoFrame> {
    Seq::new(
        offer.block.0.frames as nat,
        |i: int| (offer.block.1[0][i], offer.block.1[1][i]),
    )
}

/// The frames of blocks one after the other.
pub open spec fn joined(blocks: Seq<Offer>) -> Seq<StereoFrame>
    decreases blocks.len(),
{
    if blocks.len() == 0 {
        Seq::empty()
    } else {
        joined(blocks.drop_last()) + offer_frames(blocks.last())
    }
}

/// Where a block stands in the stream, as far as it can be counted.
pub open spec fn position_of(index: int) -> int {
    if index * BLOCK_FRAMES <= u64::MAX {
        index * BLOCK_FRAMES
    } else {
        u64::MAX as int
    }
}

/// One capture callback's handoff state. Storage is fixed; a full ring drops the
/// newest block rather than waiting.
pub struct CaptureIngress {
    producer: AudioBlockProducer,
    left: Vec<u32>,
    right: Vec<u32>,
    filled: usize,
    stream_frame: u64,
    sample_rate: u32,
    channels: usize,
    start: Ghost<int>,
}

impl CaptureIngress {
    /// Whether the ring can take stereo blocks and every block that was offered
    /// to it was whole and in its place.
    pub closed spec fn is_valid(self) -> bool {
        &&& self.producer.is_valid()
        &&& self.producer.limits().max_channels >= 2
        &&& self.producer.limits().max_frames >= BLOCK_FRAMES
        &&& 0 < self.sample_rate
        &&& self.left@.len() == BLOCK_FRAMES
        &&& self.right@.len() == BLOCK_FRAMES
        &&& self.filled < BLOCK_FRAMES
        &&& 0 < self.channels
        &&& 0 <= self.origin() <= self.producer.offers().len()
        &&& self.stream_frame == position_of(self.blocks().len() as int)
        &&& forall|i: int|
            0 <= i < self.blocks().len() ==> (#[trigger] self.blocks()[i]).block.0
                == self.description(i)
    }

    /// The description of the block with an index.
    pub open spec fn description(self, index: int) -> BlockInfo {
        BlockInfo {
            meta: AudioBlockMeta {
                stream_frame: position_of(index) as u64,
                sample_rate_hz: self.rate(),
            },
            channels: 2,
            frames: BLOCK_FRAMES,
        }
    }

    /// The rate of the capture.
    pub closed spec fn rate(self) -> u32 {
        self.sample_rate
    }

    /// The frames that wait for their block to fill.
    pub closed spec fn pending(self) -> Seq<StereoFrame> {
        Seq::new(self.filled as nat, |i: int| (self.left@[i], self.right@[i]))
    }

    /// The end of the ring that the frames go into.
    pub closed spec fn end(self) -> AudioBlockProducer {
        self.producer
    }

    /// How many blocks had been offered at that end before the capture began.
    pub closed spec fn origin(self) -> int {
        self.start@
    }

    /// The blocks of the capture that have been offered to the ring, in order, and
    /// whether the ring took each.
    pub open spec fn blocks(self) -> Seq<Offer> {
        self.end().offers().skip(self.origin())
    }

    /// Whether the same capture goes on into the same ring: what has been offered
    /// stays, and only further blocks of the capture come behind it.
    pub open spec fn goes_on_from(self, before: Self) -> bool {
        &&& self.rate() == before.rate()
        &&& self.channel_total() == before.channel_total()
        &&& self.origin() == before.origin()
        &&& self.end().limits() == before.end().limits()
        &&& self.end().home() == before.end().home()
        &&& before.blocks().is_prefix_of(self.blocks())
        &&& self.end().offers() == before.end().offers() + self.blocks().skip(
            before.blocks().len() as int,
        )
    }

    /// How many channels the capture has.
    pub closed spec fn channel_total(self) -> int {
        self.channels as int
    }

    /// Every frame that came, in order.
    pub open spec fn stream(self) -> Seq<StereoFrame> {
        joined(self.blocks()) + self.pending()
    }

    /// Every block that was offered is whole, stereo and labelled with its place
    /// in the stream; less than a block waits.
    pub proof fn blocks_are_whole(self)
        requires
            self.is_valid(),
        ensures
            self.pending().len() < BLOCK_FRAMES,
            self.channel_total() > 0,
            self.end().is_valid(),
            0 <= self.origin() <= self.end().offers().len(),
            forall|i: int|
                0 <= i < self.blocks().len() ==> (#[trigger] self.blocks()[i]).block.0
                    == self.description(i),
    {
    }

    /// Takes the producer of a ring for stereo blocks over.
    pub fn new(producer: AudioBlockProducer, sample_rate: u32, channels: usize) -> (ingress: Self)
        requires
            producer.is_valid(),
            producer.limits().max_channels >= 2,
            producer.limits().max_frames >= BLOCK_FRAMES,
            0 < sample_rate,
            0 < channels,
        ensures
            ingress.is_valid(),
            ingress.rate() == sample_rate,
            ingress.channel_total() == channels,
            ingress.end() == producer,
            ingress.origin() == producer.offers().len(),
            ingress.blocks() == Seq::<Offer>::empty(),
            ingress.pending() == Seq::<StereoFrame>::empty(),
    {
        let ingress = CaptureIngress {
            producer,
            left: filled(0u32, BLOCK_FRAMES),
            right: filled(0u32, BLOCK_FRAMES),
            filled: 0,
            stream_frame: 0,
            sample_rate,
            channels,
            start: Ghost(producer.offers().len() as int),
        };
        assert(ingress.pending() =~= Seq::<StereoFrame>::empty());
        assert(ingress.blocks() =~= Seq::<Offer>::empty());
        ingress
    }

    /// Takes one frame in. The frame that fills the block offers it to the ring;
    /// whether the ring takes it or is full, the stream goes on.
    fn push_frame(&mut self, left: u32, right: u32)
        requires
            old(self).is_valid(),
        ensures
            final(self).is_valid(),
            final(self).goes_on_from(*old(self)),
            final(self).stream() == old(self).stream().push((sanitized(left), sanitized(right))),
    {
        let ghost before = *self;
        let ghost frame = (sanitized(left), sanitized(right));
        self.left[self.filled] = sanitize(left);
        self.right[self.filled] = sanitize(right);
        self.filled = self.filled + 1;
        let ghost waiting = before.pending().push(frame);
        if self.filled == BLOCK_FRAMES {
            let meta = AudioBlockMeta::new(self.stream_frame, self.sample_rate);
            let source: [&[u32]; 2] = [self.left.as_slice(), self.right.as_slice()];
            proof {
                let shape = planes(source@);
                reveal_with_fuel(first_uneven, 3);
                assert(shape[0].len() == BLOCK_FRAMES && shape[1].len() == BLOCK_FRAMES);
                assert(shape_problem(self.producer.limits(), meta, shape) is None);
            }
            // A full ring is normal while the window stalls. The newest block
            // is dropped; a capture callback never waits.
            let _ = self.producer.try_push(meta, &source);
            self.stream_frame = self.stream_frame.saturating_add(BLOCK_FRAMES as u64);
            self.filled = 0;
            proof {
                let offer = self.producer.offers().last();
                assert(self.blocks() =~= before.blocks().push(offer));
                assert(self.end().offers() =~= before.end().offers() + self.blocks().skip(
                    before.blocks().len() as int,
                ));
                assert(self.blocks().drop_last() =~= before.blocks());
                assert(offer_frames(offer) =~= waiting);
                assert(self.pending() =~= Seq::<StereoFrame>::empty());
                assert(self.stream() =~= before.stream().push(frame));
                assert forall|i: int| 0 <= i < self.blocks().len() implies (
                #[trigger] self.blocks()[i]).block.0 == self.description(i) by {
                    if i < before.blocks().len() {
                        assert(self.blocks()[i] == before.blocks()[i]);
                        assert(before.description(i) == self.description(i));
                    }
                }
            }
        } else {
            assert(self.pending() =~= waiting);
            assert(self.stream() =~= before.stream().push(frame));
            assert(self.end().offers() =~= before.end().offers() + self.blocks().skip(
                before.blocks().len() as int,
            ));
        }
    }

    /// Takes the interleaved samples of one callback in. Nothing is lost between
    /// callbacks, and nothing changes places.
    pub fn push_interleaved(&mut self, data: &[u32])
        requires
            old(self).is_valid(),
        ensures
            final(self).is_valid(),
            final(self).goes_on_from(*old(self)),
            final(self).stream() == old(self).stream() + stereo_frames(
                data@,
                old(self).channel_total(),
            ),
    {
        let ghost before = *self;
        let channels: usize = self.channels;
        let ghost frames = stereo_frames(data@, channels as int);
        let total: usize = data.len();
        let count: usize = total / channels;
        let mut index: usize = 0;
        assert(self.stream() =~= before.stream() + frames.take(0));
        assert(self.end().offers() =~= before.end().offers() + self.blocks().skip(
            before.blocks().len() as int,
        ));
        while index < count
            invariant
                self.is_valid(),
                before.is_valid(),
                self.goes_on_from(before),
                self.channel_total() == channels,
                channels > 0,
                index <= count,
                total == data@.len(),
                count == data@.len() as int / channels as int,
                frames == stereo_frames(data@, channels as int),
                self.stream() == before.stream() + frames.take(index as int),
            decreases count - index,
        {
            proof {
                frame_is_inside(index as int, channels as int, data@.len() as int);
            }
            let start: usize = index * channels;
            let left: u32 = data[start];
            let right: u32 = if channels > 1 {
                data[start + 1]
            } else {
                left
            };
            assert(frames[index as int] == (sanitized(left), sanitized(right)));
            self.push_frame(left, right);
            proof {
                let count = before.blocks().len() as int;
                assert(self.end().offers() =~= before.end().offers() + self.blocks().skip(count));
            }
            assert(frames.take(index + 1) =~= frames.take(index as int).push(
                frames[index as int],
            ));
            assert(self.stream() =~= before.stream() + frames.take(index + 1));
            index = index + 1;
        }
        assert(frames.take(count as int) =~= frames);
    }
}

/// What was sent by some offers and then by others.
proof fn sent_joins(earlier: Seq<Offer>, later: Seq<Offer>)
    ensures
        sent(earlier + later) == sent(earlier) + sent(later),
    decreases later.len(),
{
    if later.len() == 0 {
        assert(earlier + later =~= earlier);
        assert(sent(earlier) + sent(later) =~= sent(earlier));
    } else {
        sent_joins(earlier, later.drop_last());
        assert((earlier + later).drop_last() =~= earlier + later.drop_last());
        assert(sent(earlier + later) =~= sent(earlier) + sent(later));
    }
}

/// What was captured arrives: the consumer of the ring takes the blocks that the
/// ring took, behind those that were sent before the capture began, each whole and
/// in the order in which its frames came, however the accesses of the two ends fall
/// between each other.
pub proof fn captured_blocks_arrive_in_order(ingress: CaptureIngress, session: Session)
    requires
        ingress.is_valid(),
        session.is_valid(),
        session.producer == ingress.end(),
    ensures
        agrees(
            session.consumer.takes(),
            sent(ingress.end().offers().take(ingress.origin())) + sent(ingress.blocks()),
        ),
        taken_count(session.consumer.takes()) <= sent(
            ingress.end().offers().take(ingress.origin()),
        ).len() + sent(ingress.blocks()).len(),
{
    ingress.blocks_are_whole();
    let offers = ingress.end().offers();
    let first = offers.take(ingress.origin());
    assert(first + ingress.blocks() =~= offers);
    sent_joins(first, ingress.blocks());
    ends_of_a_ring_agree(session.producer, session.consumer, session.start, session.events);
}

/// A whole frame of interleaved samples is among them.
proof fn frame_is_inside(index: int, channels: int, len: int)
    requires
        0 < channels,
        0 <= index < len / channels,
    ensures
        0 <= index * channels,
        index * channels + channels <= len,
{
    vstd::arithmetic::div_mod::lemma_fundamental_div_mod(len, channels);
    assert((index + 1) * channels <= channels * (len / channels)) by (nonlinear_arith)
        requires
            index + 1 <= len / channels,
            0 < channels,
    ;
    assert((index + 1) * channels == index * channels + channels) by (nonlinear_arith);
    assert(0 <= index * channels) by (nonlinear_arith)
        requires
            0 <= index,
            0 < channels,
    ;
}

/// Frames follow the samples: there are as many as there are whole frames, each starts
/// where the one in front of it ended, and its sides are its first two samples. One
/// channel is heard on both sides. Numbers come through as they are and anything else
/// as silence.
pub proof fn frames_follow_the_samples(data: Seq<u32>, channels: int, index: int)
    requires
        channels > 0,
        0 <= index < stereo_frames(data, channels).len(),
    ensures
        ({
            let frames = stereo_frames(data, channels);
            let first = index * channels;
            let heard = |bits: u32, side: u32|
                if bits as int % 0x8000_0000 < 0x7f80_0000 {
                    side == bits
                } else {
                    side == 0
                };
            &&& frames.len() * channels <= data.len() < (frames.len() + 1) * channels
            &&& 0 <= first && first + channels <= data.len()
            &&& heard(data[first], frames[index].0)
            &&& channels == 1 ==> frames[index].1 == frames[index].0
            &&& channels > 1 ==> heard(data[first + 1], frames[index].1)
        }),
{
    let count = data.len() as int / channels;
    vstd::arithmetic::div_mod::lemma_fundamental_div_mod(data.len() as int, channels);
    vstd::arithmetic::div_mod::lemma_mod_bound(data.len() as int, channels);
    vstd::arithmetic::div_mod::lemma_div_pos_is_pos(data.len() as int, channels);
    assert(channels * count == count * channels) by (nonlinear_arith);
    assert((count + 1) * channels == count * channels + channels) by (nonlinear_arith);
    frame_is_inside(index, channels, data.len() as int);
    numbers_lie_below_infinity(data[index * channels]);
    if channels > 1 {
        numbers_lie_below_infinity(data[index * channels + 1]);
    }
}

/// Callbacks may be cut anywhere between frames: the frames of two pieces are those of
/// the whole.
pub proof fn frames_of_two_pieces(first: Seq<u32>, second: Seq<u32>, channels: int)
    requires
        channels > 0,
        first.len() as int % channels == 0,
    ensures
        stereo_frames(first + second, channels) == stereo_frames(first, channels) + stereo_frames(
            second,
            channels,
        ),
{
    let whole = first + second;
    let a = first.len() as int / channels;
    let b = second.len() as int / channels;
    vstd::arithmetic::div_mod::lemma_fundamental_div_mod(first.len() as int, channels);
    vstd::arithmetic::div_mod::lemma_fundamental_div_mod(second.len() as int, channels);
    vstd::arithmetic::div_mod::lemma_div_pos_is_pos(first.len() as int, channels);
    vstd::arithmetic::div_mod::lemma_div_pos_is_pos(second.len() as int, channels);
    assert(whole.len() == (a + b) * channels + second.len() as int % channels) by (nonlinear_arith)
        requires
            whole.len() == first.len() + second.len(),
            first.len() == channels * a,
            second.len() == channels * b + second.len() as int % channels,
    ;
    vstd::arithmetic::div_mod::lemma_fundamental_div_mod_converse(
        whole.len() as int,
        channels,
        a + b,
        second.len() as int % channels,
    );
    let joint = stereo_frames(first, channels) + stereo_frames(second, channels);
    assert forall|i: int| 0 <= i < a + b implies #[trigger] stereo_frames(whole, channels)[i]
        == joint[i] by {
        assert(channels * a == a * channels) by (nonlinear_arith);
        if i < a {
            frame_is_inside(i, channels, first.len() as int);
            assert(whole[i * channels] == first[i * channels]);
        } else {
            frame_is_inside(i - a, channels, second.len() as int);
            assert(i * channels == a * channels + (i - a) * channels) by (nonlinear_arith);
            assert(whole[i * channels] == second[(i - a) * channels]);
            if channels > 1 {
                assert(whole[i * channels + 1] == second[(i - a) * channels + 1]);
            }
        }
    }
    assert(stereo_frames(whole, channels) =~= joint);
}

/// Blocks stand one behind the other in the stream, the first at its start, as far as
/// places can be counted.
pub proof fn blocks_stand_one_behind_the_other(index: int)
    requires
        0 <= index,
    ensures
        position_of(0) == 0,
        (index + 1) * BLOCK_FRAMES <= u64::MAX ==> position_of(index + 1) == position_of(index)
            + BLOCK_FRAMES,
        index * BLOCK_FRAMES > u64::MAX ==> position_of(index) == u64::MAX,
{
    assert((index + 1) * BLOCK_FRAMES == index * BLOCK_FRAMES + BLOCK_FRAMES) by (nonlinear_arith);
    assert(0 * BLOCK_FRAMES == 0);
}

} // verus!
