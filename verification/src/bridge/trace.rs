//! The accesses that each end makes to the slots, in order.
//!
//! What an end does to memory that it shares is a sequence of loads and stores.
//! A load is recorded with what it gave, so that a record says what was decided
//! on what was seen.
use crate::bridge::blocks::{Block, BlockInfo, RingConfig};
use vstd::prelude::*;

verus! {

/// One load or store.
pub enum Access {
    LoadMark { slot: int, ready: bool },
    LoadField { slot: int, field: int, value: int },
    LoadCell { place: int, bits: u32 },
    StoreMark { slot: int, ready: bool },
    StoreField { slot: int, field: int, value: int },
    StoreCell { place: int, bits: u32 },
}

/// A slot's mark was loaded and was this.
pub open spec fn mark_loaded(slot: usize, ready: bool) -> Access {
    Access::LoadMark { slot: slot as int, ready }
}

/// A description has four fields: the stream frame, the sample rate, and how many
/// channels and frames there are. Each is loaded and stored on its own.
pub open spec fn field_of(info: BlockInfo, field: int) -> int {
    if field == 0 {
        info.meta.stream_frame as int
    } else if field == 1 {
        info.meta.sample_rate_hz as int
    } else if field == 2 {
        info.channels as int
    } else {
        info.frames as int
    }
}

/// A description written into a slot, field by field.
pub open spec fn info_stores(slot: int, info: BlockInfo) -> Seq<Access> {
    Seq::new(4, |field: int| Access::StoreField { slot, field, value: field_of(info, field) })
}

/// A description read out of a slot, field by field.
pub open spec fn info_loads(slot: int, info: BlockInfo) -> Seq<Access> {
    Seq::new(4, |field: int| Access::LoadField { slot, field, value: field_of(info, field) })
}

/// A slot's description was loaded, field by field, and was this.
pub open spec fn info_loaded(slot: usize, info: BlockInfo) -> Seq<Access> {
    info_loads(slot as int, info)
}

/// Descriptions are alike if their fields are.
pub proof fn fields_tell_descriptions_apart(one: BlockInfo, other: BlockInfo)
    requires
        forall|field: int|
            0 <= field < 4 ==> #[trigger] field_of(one, field) == field_of(other, field),
    ensures
        one == other,
{
    assert(field_of(one, 0) == field_of(other, 0));
    assert(field_of(one, 1) == field_of(other, 1));
    assert(field_of(one, 2) == field_of(other, 2));
    assert(field_of(one, 3) == field_of(other, 3));
}

/// A sample was loaded and was this.
pub open spec fn cell_loaded(place: usize, bits: u32) -> Access {
    Access::LoadCell { place: place as int, bits }
}

/// Where the samples of a channel stand in a slot, and what they are.
pub open spec fn channel_cells(
    config: RingConfig,
    slot: int,
    channel: int,
    samples: Seq<u32>,
) -> Seq<(int, u32)> {
    Seq::new(samples.len(), |i: int| (config.start(slot, channel) + i, samples[i]))
}

/// Where the samples of channels stand in a slot, one channel after the other.
pub open spec fn cells(config: RingConfig, slot: int, channels: Seq<Seq<u32>>) -> Seq<(int, u32)>
    decreases channels.len(),
{
    if channels.len() == 0 {
        Seq::empty()
    } else {
        cells(config, slot, channels.drop_last()) + channel_cells(
            config,
            slot,
            channels.len() - 1,
            channels.last(),
        )
    }
}

/// Samples written.
pub open spec fn stores(samples: Seq<(int, u32)>) -> Seq<Access> {
    Seq::new(
        samples.len(),
        |i: int| Access::StoreCell { place: samples[i].0, bits: samples[i].1 },
    )
}

/// Samples read.
pub open spec fn loads(samples: Seq<(int, u32)>) -> Seq<Access> {
    Seq::new(
        samples.len(),
        |i: int| Access::LoadCell { place: samples[i].0, bits: samples[i].1 },
    )
}

/// A block written into a slot that was seen free. Its samples and its
/// description come first; the mark that publishes them comes last.
pub open spec fn push_trace(config: RingConfig, slot: int, block: Block) -> Seq<Access> {
    seq![Access::LoadMark { slot, ready: false }] + stores(cells(config, slot, block.1))
        + info_stores(slot, block.0) + seq![Access::StoreMark { slot, ready: true }]
}

/// A slot that was seen ready, and the description that it held.
pub open spec fn look_trace(slot: int, info: BlockInfo) -> Seq<Access> {
    seq![Access::LoadMark { slot, ready: true }] + info_loads(slot, info)
}

/// A block read out of a slot that was seen ready. The mark that frees the slot
/// comes last, when every sample has been read.
pub open spec fn pop_trace(config: RingConfig, slot: int, block: Block) -> Seq<Access> {
    look_trace(slot, block.0) + loads(cells(config, slot, block.1)) + seq![
        Access::StoreMark { slot, ready: false },
    ]
}

/// A block dropped from a slot that was seen ready.
pub open spec fn discard_trace(slot: int, info: BlockInfo) -> Seq<Access> {
    look_trace(slot, info) + seq![Access::StoreMark { slot, ready: false }]
}

/// Whether a block has the channels and frames that its description says, and no
/// more than fit in a slot.
pub open spec fn is_shaped(config: RingConfig, block: Block) -> bool {
    &&& block.0.channels == block.1.len()
    &&& block.0.channels <= config.max_channels
    &&& block.0.frames <= config.max_frames
    &&& forall|channel: int|
        0 <= channel < block.1.len() ==> (#[trigger] block.1[channel]).len() == block.0.frames
}

/// A block that the producer offered, and whether the ring took it.
pub struct Offer {
    pub block: Block,
    pub taken: bool,
}

impl Offer {
    /// The accesses of an offer at a slot.
    pub open spec fn trace(self, config: RingConfig, slot: int) -> Seq<Access> {
        if self.taken {
            push_trace(config, slot, self.block)
        } else {
            seq![Access::LoadMark { slot, ready: true }]
        }
    }
}

/// What the consumer found when it asked for a block.
pub enum Take {
    /// The slot was free.
    Nothing,
    /// A block waited that was not taken.
    Left { info: BlockInfo },
    /// A block was copied out.
    Copied { block: Block },
    /// A block was dropped.
    Dropped { info: BlockInfo },
}

impl Take {
    /// Whether the block left the ring.
    pub open spec fn took(self) -> bool {
        match self {
            Take::Copied { .. } => true,
            Take::Dropped { .. } => true,
            _ => false,
        }
    }

    /// Whether a block that was copied out is as its description says.
    pub open spec fn is_shaped(self, config: RingConfig) -> bool {
        match self {
            Take::Copied { block } => is_shaped(config, block),
            _ => true,
        }
    }

    /// The accesses of a take at a slot.
    pub open spec fn trace(self, config: RingConfig, slot: int) -> Seq<Access> {
        match self {
            Take::Nothing => seq![Access::LoadMark { slot, ready: false }],
            Take::Left { info } => look_trace(slot, info),
            Take::Copied { block } => pop_trace(config, slot, block),
            Take::Dropped { info } => discard_trace(slot, info),
        }
    }
}

/// The blocks that the ring took, in order.
pub open spec fn sent(offers: Seq<Offer>) -> Seq<Block>
    decreases offers.len(),
{
    if offers.len() == 0 {
        Seq::empty()
    } else if offers.last().taken {
        sent(offers.drop_last()).push(offers.last().block)
    } else {
        sent(offers.drop_last())
    }
}

/// How many blocks left the ring.
pub open spec fn taken_count(takes: Seq<Take>) -> int
    decreases takes.len(),
{
    if takes.len() == 0 {
        0
    } else if takes.last().took() {
        taken_count(takes.drop_last()) + 1
    } else {
        taken_count(takes.drop_last())
    }
}

/// The slot at which an end stands after it has filled or freed so many.
pub open spec fn slot_of(config: RingConfig, count: int) -> int {
    count % (config.capacity as int)
}

/// Every access of a producer that made these offers.
pub open spec fn producer_trace(config: RingConfig, offers: Seq<Offer>) -> Seq<Access>
    decreases offers.len(),
{
    if offers.len() == 0 {
        Seq::empty()
    } else {
        producer_trace(config, offers.drop_last()) + offers.last().trace(
            config,
            slot_of(config, sent(offers.drop_last()).len() as int),
        )
    }
}

/// Every access of a consumer that found this.
pub open spec fn consumer_trace(config: RingConfig, takes: Seq<Take>) -> Seq<Access>
    decreases takes.len(),
{
    if takes.len() == 0 {
        Seq::empty()
    } else {
        consumer_trace(config, takes.drop_last()) + takes.last().trace(
            config,
            slot_of(config, taken_count(takes.drop_last())),
        )
    }
}

/// The slot behind that of a count is that of the next count.
pub proof fn slots_go_round(config: RingConfig, count: int)
    requires
        config.capacity > 0,
        0 <= count,
    ensures
        0 <= slot_of(config, count) < config.capacity,
        slot_of(config, count + 1) == (if slot_of(config, count) + 1 == config.capacity {
            0
        } else {
            slot_of(config, count) + 1
        }),
{
    let capacity = config.capacity as int;
    let quotient = count / capacity;
    let rest = count % capacity;
    vstd::arithmetic::div_mod::lemma_fundamental_div_mod(count, capacity);
    vstd::arithmetic::div_mod::lemma_mod_bound(count, capacity);
    assert(capacity * quotient == quotient * capacity) by (nonlinear_arith);
    if rest + 1 == capacity {
        assert((quotient + 1) * capacity == quotient * capacity + capacity) by (nonlinear_arith);
        vstd::arithmetic::div_mod::lemma_fundamental_div_mod_converse(
            count + 1,
            capacity,
            quotient + 1,
            0,
        );
    } else {
        vstd::arithmetic::div_mod::lemma_fundamental_div_mod_converse(
            count + 1,
            capacity,
            quotient,
            rest + 1,
        );
    }
}

/// A block is published when all of it is written: the last access of a push is the only
/// one that marks the slot, and a pop or a discard frees the slot with its last access,
/// when nothing of it is read any more.
pub proof fn marks_come_last(config: RingConfig, slot: int, block: Block, i: int)
    ensures
        ({
            let push = push_trace(config, slot, block);
            let pop = pop_trace(config, slot, block);
            let discard = discard_trace(slot, block.0);
            &&& push.first() == (Access::LoadMark { slot, ready: false })
            &&& push.last() == (Access::StoreMark { slot, ready: true })
            &&& 0 < i < push.len() - 1 ==> push[i] is StoreCell || push[i] is StoreField
            &&& pop.first() == (Access::LoadMark { slot, ready: true })
            &&& pop.last() == (Access::StoreMark { slot, ready: false })
            &&& 0 < i < pop.len() - 1 ==> pop[i] is LoadCell || pop[i] is LoadField
            &&& discard.first() == (Access::LoadMark { slot, ready: true })
            &&& discard.last() == (Access::StoreMark { slot, ready: false })
            &&& 0 < i < discard.len() - 1 ==> discard[i] is LoadField
        }),
{
}

/// Every sample of a block stands at its own place of the slot: channel behind channel,
/// frame behind frame.
pub proof fn samples_stand_in_their_places(
    config: RingConfig,
    slot: int,
    channels: Seq<Seq<u32>>,
    channel: int,
    frame: int,
)
    requires
        0 <= channel < channels.len(),
        0 <= frame < channels[channel].len(),
    ensures
        cells(config, slot, channels).contains(
            (
                slot * (config.max_channels * config.max_frames) + channel * config.max_frames
                    + frame,
                channels[channel][frame],
            ),
        ),
    decreases channels.len(),
{
    let all = cells(config, slot, channels);
    let earlier = cells(config, slot, channels.drop_last());
    let last = channel_cells(config, slot, channels.len() - 1, channels.last());
    let wanted = (
        slot * (config.max_channels * config.max_frames) + channel * config.max_frames + frame,
        channels[channel][frame],
    );
    if channel < channels.len() - 1 {
        assert(channels.drop_last()[channel] == channels[channel]);
        samples_stand_in_their_places(config, slot, channels.drop_last(), channel, frame);
        let i = earlier.index_of(wanted);
        assert(all[i] == wanted);
    } else {
        assert(last[frame] == wanted);
        assert(all[earlier.len() + frame] == wanted);
    }
}

} // verus!
