//! The slot protocol, over any memory that holds slots and samples.
//!
//! A slot is free or ready. The producer fills the free slot that it stands at,
//! marks it ready and moves on; the consumer empties the ready slot that it
//! stands at, marks it free and moves on. Both go round the slots in the same
//! order, so blocks leave in the order in which they came.
use crate::bridge::blocks::{
    a_slot_is_a_part, destination_problem, info_of, lengths, planes, shape_problem, validate_destination,
    validate_source, AudioBlockMeta, BlockInfo, PopError, PushError, RingConfig,
};
use crate::bridge::trace::{
    cells, channel_cells, discard_trace, info_loads, info_stores, is_shaped, loads, look_trace,
    pop_trace, push_trace, stores, Access,
};
use vstd::prelude::*;

verus! {

/// Memory for the slots of a ring: a mark, a description and samples for each.
pub trait BlockMemory {
    /// Whether nobody else writes the memory, so that what was stored last is
    /// what is loaded.
    spec fn is_owned() -> bool;

    /// What tells one memory from another.
    type Home;

    /// The memory that this is a hold on. No access leads to another one.
    spec fn home(&self) -> Self::Home;

    /// How many slots there are.
    spec fn slot_total(&self) -> nat;

    /// How many samples there are.
    spec fn cell_total(&self) -> nat;

    /// Whether a slot holds a block.
    spec fn ready_at(&self, slot: int) -> bool;

    /// The description that a slot holds.
    spec fn info_at(&self, slot: int) -> BlockInfo;

    /// The sample at a place.
    spec fn cell_at(&self, place: int) -> u32;

    /// The accesses that have been made through this hold on the memory, in
    /// order.
    spec fn trace(&self) -> Seq<Access>;

    /// Loads the mark of a slot.
    fn is_ready(&mut self, slot: usize) -> (ready: bool)
        requires
            slot < old(self).slot_total(),
        ensures
            final(self).slot_total() == old(self).slot_total(),
            final(self).cell_total() == old(self).cell_total(),
            final(self).home() == old(self).home(),
            final(self).trace() == old(self).trace().push(
                Access::LoadMark { slot: slot as int, ready },
            ),
            Self::is_owned() ==> {
                &&& ready == old(self).ready_at(slot as int)
                &&& forall|i: int| #[trigger] final(self).ready_at(i) == old(self).ready_at(i)
                &&& forall|i: int| #[trigger] final(self).info_at(i) == old(self).info_at(i)
                &&& forall|i: int| #[trigger] final(self).cell_at(i) == old(self).cell_at(i)
            },
    ;

    /// Loads the description of a slot.
    fn info(&mut self, slot: usize) -> (info: BlockInfo)
        requires
            slot < old(self).slot_total(),
        ensures
            final(self).slot_total() == old(self).slot_total(),
            final(self).cell_total() == old(self).cell_total(),
            final(self).home() == old(self).home(),
            final(self).trace() == old(self).trace() + info_loads(slot as int, info),
            Self::is_owned() ==> {
                &&& info == old(self).info_at(slot as int)
                &&& forall|i: int| #[trigger] final(self).ready_at(i) == old(self).ready_at(i)
                &&& forall|i: int| #[trigger] final(self).info_at(i) == old(self).info_at(i)
                &&& forall|i: int| #[trigger] final(self).cell_at(i) == old(self).cell_at(i)
            },
    ;

    /// Loads a sample.
    fn load_cell(&mut self, place: usize) -> (bits: u32)
        requires
            place < old(self).cell_total(),
        ensures
            final(self).slot_total() == old(self).slot_total(),
            final(self).cell_total() == old(self).cell_total(),
            final(self).home() == old(self).home(),
            final(self).trace() == old(self).trace().push(
                Access::LoadCell { place: place as int, bits },
            ),
            Self::is_owned() ==> {
                &&& bits == old(self).cell_at(place as int)
                &&& forall|i: int| #[trigger] final(self).ready_at(i) == old(self).ready_at(i)
                &&& forall|i: int| #[trigger] final(self).info_at(i) == old(self).info_at(i)
                &&& forall|i: int| #[trigger] final(self).cell_at(i) == old(self).cell_at(i)
            },
    ;

    fn set_ready(&mut self, slot: usize, ready: bool)
        requires
            slot < old(self).slot_total(),
        ensures
            final(self).slot_total() == old(self).slot_total(),
            final(self).cell_total() == old(self).cell_total(),
            final(self).home() == old(self).home(),
            final(self).trace() == old(self).trace().push(
                Access::StoreMark { slot: slot as int, ready },
            ),
            Self::is_owned() ==> {
                &&& forall|i: int| #[trigger]
                    final(self).ready_at(i) == (if i == slot {
                        ready
                    } else {
                        old(self).ready_at(i)
                    })
                &&& forall|i: int| #[trigger] final(self).info_at(i) == old(self).info_at(i)
                &&& forall|i: int| #[trigger] final(self).cell_at(i) == old(self).cell_at(i)
            },
    ;

    fn set_info(&mut self, slot: usize, info: BlockInfo)
        requires
            slot < old(self).slot_total(),
        ensures
            final(self).slot_total() == old(self).slot_total(),
            final(self).cell_total() == old(self).cell_total(),
            final(self).home() == old(self).home(),
            final(self).trace() == old(self).trace() + info_stores(slot as int, info),
            Self::is_owned() ==> {
                &&& forall|i: int| #[trigger] final(self).ready_at(i) == old(self).ready_at(i)
                &&& forall|i: int| #[trigger]
                    final(self).info_at(i) == (if i == slot {
                        info
                    } else {
                        old(self).info_at(i)
                    })
                &&& forall|i: int| #[trigger] final(self).cell_at(i) == old(self).cell_at(i)
            },
    ;

    fn set_cell(&mut self, place: usize, bits: u32)
        requires
            place < old(self).cell_total(),
        ensures
            final(self).slot_total() == old(self).slot_total(),
            final(self).cell_total() == old(self).cell_total(),
            final(self).home() == old(self).home(),
            final(self).trace() == old(self).trace().push(
                Access::StoreCell { place: place as int, bits },
            ),
            Self::is_owned() ==> {
                &&& forall|i: int| #[trigger] final(self).ready_at(i) == old(self).ready_at(i)
                &&& forall|i: int| #[trigger] final(self).info_at(i) == old(self).info_at(i)
                &&& forall|i: int| #[trigger]
                    final(self).cell_at(i) == (if i == place {
                        bits
                    } else {
                        old(self).cell_at(i)
                    })
            },
    ;
}

/// Whether the memory has the slots and samples that the limits ask for.
pub open spec fn fits<M: BlockMemory>(memory: M, config: RingConfig) -> bool {
    &&& config.is_valid()
    &&& memory.slot_total() == config.capacity
    &&& memory.cell_total() == config.cell_count()
}

/// Whether the two memories hold the same.
pub open spec fn same_contents<M: BlockMemory>(left: M, right: M) -> bool {
    &&& forall|i: int| #[trigger] left.ready_at(i) == right.ready_at(i)
    &&& forall|i: int| #[trigger] left.info_at(i) == right.info_at(i)
    &&& forall|i: int| #[trigger] left.cell_at(i) == right.cell_at(i)
}

/// Whether a slot's samples are those of the block.
pub open spec fn slot_holds<M: BlockMemory>(
    memory: M,
    config: RingConfig,
    slot: int,
    channels: Seq<Seq<u32>>,
) -> bool {
    forall|channel: int, frame: int|
        0 <= channel < channels.len() && 0 <= frame < channels[channel].len()
            ==> #[trigger] channels[channel][frame] == memory.cell_at(
            config.start(slot, channel) + frame,
        )
}

/// Whether a place belongs to a slot.
pub open spec fn in_slot(config: RingConfig, slot: int, place: int) -> bool {
    slot * config.cells_per_block() <= place < (slot + 1) * config.cells_per_block()
}

/// The slot behind a slot, going round.
pub open spec fn next_slot(config: RingConfig, slot: int) -> int {
    if slot + 1 == config.capacity {
        0
    } else {
        slot + 1
    }
}

/// A channel of a slot lies within that slot, behind the channels before it.
pub proof fn channel_bounds(config: RingConfig, slot: int, channel: int)
    requires
        config.is_valid(),
        0 <= slot < config.capacity,
        0 <= channel < config.max_channels,
    ensures
        slot * config.cells_per_block() <= config.start(slot, channel),
        config.start(slot, channel) + config.max_frames <= (slot + 1) * config.cells_per_block(),
        0 <= config.start(slot, channel),
        (slot + 1) * config.cells_per_block() <= config.cell_count(),
        config.start(slot, channel) + config.max_frames == config.start(slot, channel + 1),
{
    let cells = config.cells_per_block();
    let frames = config.max_frames as int;
    let channels = config.max_channels as int;
    let capacity = config.capacity as int;
    assert(0 <= cells) by (nonlinear_arith)
        requires
            cells == channels * frames,
            channels >= 0,
            frames >= 0,
    ;
    assert(0 <= slot * cells) by (nonlinear_arith)
        requires
            slot >= 0,
            cells >= 0,
    ;
    assert(0 <= channel * frames) by (nonlinear_arith)
        requires
            channel >= 0,
            frames >= 0,
    ;
    assert(channel * frames + frames <= cells) by (nonlinear_arith)
        requires
            cells == channels * frames,
            0 <= channel < channels,
            frames >= 0,
    ;
    assert((slot + 1) * cells == slot * cells + cells) by (nonlinear_arith);
    assert((slot + 1) * cells <= capacity * cells) by (nonlinear_arith)
        requires
            slot + 1 <= capacity,
            cells >= 0,
    ;
    assert((channel + 1) * frames == channel * frames + frames) by (nonlinear_arith);
}

/// An earlier channel ends where a later one begins, or before.
pub proof fn channels_in_order(config: RingConfig, slot: int, earlier: int, later: int)
    requires
        earlier < later,
    ensures
        config.start(slot, earlier) + config.max_frames <= config.start(slot, later),
{
    let frames = config.max_frames as int;
    assert(earlier * frames + frames <= later * frames) by (nonlinear_arith)
        requires
            earlier + 1 <= later,
            frames >= 0,
    ;
}

/// No place belongs to two slots.
pub proof fn slots_apart(config: RingConfig, one: int, other: int, place: int)
    requires
        in_slot(config, one, place),
        in_slot(config, other, place),
    ensures
        one == other,
{
    let cells = config.cells_per_block();
    if one < other {
        assert((one + 1) * cells <= other * cells) by (nonlinear_arith)
            requires
                one + 1 <= other,
                cells >= 0,
        ;
    } else if other < one {
        assert((other + 1) * cells <= one * cells) by (nonlinear_arith)
            requires
                other + 1 <= one,
                cells >= 0,
        ;
    }
}

/// Where the samples of a channel of a slot begin.
pub fn sample_start(config: RingConfig, slot: usize, channel: usize) -> (start: usize)
    requires
        config.is_valid(),
        slot < config.capacity,
        channel < config.max_channels,
    ensures
        start == config.start(slot as int, channel as int),
{
    proof {
        channel_bounds(config, slot as int, channel as int);
        a_slot_is_a_part(config);
        let cells = config.cells_per_block();
        assert(0 <= slot * cells) by (nonlinear_arith)
            requires
                slot >= 0,
                cells >= 0,
        ;
        assert(0 <= channel * config.max_frames) by (nonlinear_arith)
            requires
                channel >= 0,
                config.max_frames >= 0,
        ;
    }
    slot * (config.max_channels * config.max_frames) + channel * config.max_frames
}

/// The slot behind a slot, going round.
pub fn slot_after(config: RingConfig, slot: usize) -> (next: usize)
    requires
        slot < config.capacity,
    ensures
        next == next_slot(config, slot as int),
        next < config.capacity,
{
    if slot + 1 == config.capacity {
        0
    } else {
        slot + 1
    }
}

/// Copies one channel into a slot.
fn fill_channel<M: BlockMemory>(
    memory: &mut M,
    config: RingConfig,
    slot: usize,
    channel: usize,
    samples: &[u32],
)
    requires
        fits(*old(memory), config),
        slot < config.capacity,
        channel < config.max_channels,
        samples@.len() <= config.max_frames,
    ensures
        fits(*final(memory), config),
        final(memory).home() == old(memory).home(),
        final(memory).trace() == old(memory).trace() + stores(
            channel_cells(config, slot as int, channel as int, samples@),
        ),
        M::is_owned() ==> {
            let start = config.start(slot as int, channel as int);
            &&& forall|i: int| #[trigger] final(memory).ready_at(i) == old(memory).ready_at(i)
            &&& forall|i: int| #[trigger] final(memory).info_at(i) == old(memory).info_at(i)
            &&& forall|i: int| #[trigger]
                final(memory).cell_at(i) == (if start <= i < start + samples@.len() {
                    samples@[i - start]
                } else {
                    old(memory).cell_at(i)
                })
        },
{
    let start: usize = sample_start(config, slot, channel);
    proof {
        channel_bounds(config, slot as int, channel as int);
    }
    let ghost before = *memory;
    let ghost written = stores(channel_cells(config, slot as int, channel as int, samples@));
    let mut frame: usize = 0;
    assert(memory.trace() =~= before.trace() + written.take(0));
    while frame < samples.len()
        invariant
            fits(*memory, config),
            memory.home() == before.home(),
            start + samples@.len() <= config.cell_count(),
            frame <= samples@.len(),
            start == config.start(slot as int, channel as int),
            written == stores(channel_cells(config, slot as int, channel as int, samples@)),
            memory.trace() == before.trace() + written.take(frame as int),
            M::is_owned() ==> {
                &&& forall|i: int| #[trigger] memory.ready_at(i) == before.ready_at(i)
                &&& forall|i: int| #[trigger] memory.info_at(i) == before.info_at(i)
                &&& forall|i: int| #[trigger]
                    memory.cell_at(i) == (if start <= i < start + frame {
                        samples@[i - start]
                    } else {
                        before.cell_at(i)
                    })
            },
        decreases samples@.len() - frame,
    {
        memory.set_cell(start + frame, samples[frame]);
        assert(written.take(frame + 1) =~= written.take(frame as int).push(written[frame as int]));
        assert(memory.trace() =~= before.trace() + written.take(frame + 1));
        frame = frame + 1;
    }
    assert(written.take(frame as int) =~= written);
}

/// Copies a block into the slot at which the producer stands, if that slot is
/// free, and marks it ready.
pub fn push_block<M: BlockMemory>(
    memory: &mut M,
    config: RingConfig,
    slot: usize,
    meta: AudioBlockMeta,
    source: &[&[u32]],
) -> (result: Result<(), PushError>)
    requires
        fits(*old(memory), config),
        slot < config.capacity,
    ensures
        fits(*final(memory), config),
        final(memory).home() == old(memory).home(),
        match shape_problem(config, meta, planes(source@)) {
            Some(problem) => {
                &&& result == Err::<(), PushError>(problem)
                &&& final(memory).trace() == old(memory).trace()
            },
            None => match result {
                Ok(()) => final(memory).trace() == old(memory).trace() + push_trace(
                    config,
                    slot as int,
                    (info_of(meta, planes(source@)), planes(source@)),
                ),
                Err(problem) => problem == PushError::Full && final(memory).trace() == old(
                    memory,
                ).trace().push(Access::LoadMark { slot: slot as int, ready: true }),
            },
        },
        M::is_owned() && result is Err ==> same_contents(*final(memory), *old(memory)),
        M::is_owned() && shape_problem(config, meta, planes(source@)) is None ==> (result is Ok
            <==> !old(memory).ready_at(slot as int)),
        M::is_owned() && result is Ok ==> {
            &&& forall|i: int| #[trigger]
                final(memory).ready_at(i) == (i == slot || old(memory).ready_at(i))
            &&& forall|i: int| #[trigger]
                final(memory).info_at(i) == (if i == slot {
                    info_of(meta, planes(source@))
                } else {
                    old(memory).info_at(i)
                })
            &&& forall|i: int|
                !in_slot(config, slot as int, i) ==> #[trigger] final(memory).cell_at(i) == old(
                    memory,
                ).cell_at(i)
            &&& slot_holds(*final(memory), config, slot as int, planes(source@))
        },
{
    let info = match validate_source(config, meta, source) {
        Ok(info) => info,
        Err(problem) => {
            return Err(problem);
        },
    };
    if memory.is_ready(slot) {
        return Err(PushError::Full);
    }
    let ghost before = *memory;
    let ghost channels = planes(source@);
    let mut channel: usize = 0;
    assert(channels.take(0) =~= Seq::<Seq<u32>>::empty());
    assert(memory.trace() =~= before.trace() + stores(
        cells(config, slot as int, channels.take(0)),
    ));
    while channel < source.len()
        invariant
            fits(*memory, config),
            memory.home() == before.home(),
            slot < config.capacity,
            channels == planes(source@),
            channel <= source@.len() <= config.max_channels,
            memory.trace() == before.trace() + stores(
                cells(config, slot as int, channels.take(channel as int)),
            ),
            info.frames <= config.max_frames,
            forall|c: int|
                0 <= c < source@.len() ==> (#[trigger] source@[c])@.len() == info.frames,
            M::is_owned() ==> {
                &&& forall|i: int| #[trigger] memory.ready_at(i) == before.ready_at(i)
                &&& forall|i: int| #[trigger] memory.info_at(i) == before.info_at(i)
                &&& forall|i: int|
                    !in_slot(config, slot as int, i) ==> #[trigger] memory.cell_at(i)
                        == before.cell_at(i)
                &&& forall|c: int, frame: int|
                    0 <= c < channel && 0 <= frame < channels[c].len()
                        ==> #[trigger] channels[c][frame] == memory.cell_at(
                        config.start(slot as int, c) + frame,
                    )
            },
        decreases source@.len() - channel,
    {
        let ghost earlier = *memory;
        let samples = source[channel];
        fill_channel(memory, config, slot, channel, samples);
        proof {
            channel_bounds(config, slot as int, channel as int);
            let further = channels.take(channel + 1);
            assert(further.drop_last() =~= channels.take(channel as int));
            assert(further.last() == samples@);
            assert(memory.trace() =~= before.trace() + stores(
                cells(config, slot as int, further),
            ));
            if M::is_owned() {
                assert(channels[channel as int] == samples@);
                assert forall|c: int, frame: int|
                    0 <= c < channel + 1 && 0 <= frame < channels[c].len() implies #[trigger]
                channels[c][frame] == memory.cell_at(config.start(slot as int, c) + frame) by {
                    assert(channels[c] == source@[c]@);
                    if c < channel {
                        channels_in_order(config, slot as int, c, channel as int);
                        assert(earlier.cell_at(config.start(slot as int, c) + frame)
                            == channels[c][frame]);
                    }
                }
            }
        }
        channel = channel + 1;
    }
    assert(channels.take(channel as int) =~= channels);
    memory.set_info(slot, info);
    // Publish the samples and the description as one ready block.
    memory.set_ready(slot, true);
    assert(memory.trace() =~= old(memory).trace() + push_trace(
        config,
        slot as int,
        (info, channels),
    ));
    Ok(())
}

/// Whether a description is one that a producer could have written.
pub open spec fn within(config: RingConfig, info: BlockInfo) -> bool {
    info.channels <= config.max_channels && info.frames <= config.max_frames
}

/// The block that the consumer stands at: its description, if its slot is
/// ready. A description beyond the limits is none that a producer wrote.
pub fn pending_block<M: BlockMemory>(memory: &mut M, config: RingConfig, slot: usize) -> (info: Option<
    BlockInfo,
>)
    requires
        fits(*old(memory), config),
        slot < config.capacity,
    ensures
        fits(*final(memory), config),
        final(memory).home() == old(memory).home(),
        match info {
            Some(info) => within(config, info) && final(memory).trace() == old(memory).trace()
                + look_trace(slot as int, info),
            None => nothing_taken(*old(memory), *final(memory), config, slot as int),
        },
        M::is_owned() ==> same_contents(*final(memory), *old(memory)),
        M::is_owned() ==> info == (if old(memory).ready_at(slot as int) && within(
            config,
            old(memory).info_at(slot as int),
        ) {
            Some(old(memory).info_at(slot as int))
        } else {
            None
        }),
{
    if !memory.is_ready(slot) {
        return None;
    }
    let info = memory.info(slot);
    assert(memory.trace() =~= old(memory).trace() + look_trace(slot as int, info));
    if info.channels > config.max_channels || info.frames > config.max_frames {
        return None;
    }
    Some(info)
}

/// Whether an end has looked at its slot and found no block there: the slot was
/// free, or its description was none that a producer could have written.
pub open spec fn nothing_taken<M: BlockMemory>(
    before: M,
    after: M,
    config: RingConfig,
    slot: int,
) -> bool {
    ||| after.trace() == before.trace().push(Access::LoadMark { slot, ready: false })
    ||| exists|info: BlockInfo|
        !within(config, info) && after.trace() == before.trace() + #[trigger] look_trace(
            slot,
            info,
        )
}

/// Marks a slot free again.
pub fn release_slot<M: BlockMemory>(memory: &mut M, config: RingConfig, slot: usize)
    requires
        fits(*old(memory), config),
        slot < config.capacity,
    ensures
        fits(*final(memory), config),
        final(memory).home() == old(memory).home(),
        final(memory).trace() == old(memory).trace().push(
            Access::StoreMark { slot: slot as int, ready: false },
        ),
        M::is_owned() ==> {
            &&& forall|i: int| #[trigger]
                final(memory).ready_at(i) == (i != slot && old(memory).ready_at(i))
            &&& forall|i: int| #[trigger] final(memory).info_at(i) == old(memory).info_at(i)
            &&& forall|i: int| #[trigger] final(memory).cell_at(i) == old(memory).cell_at(i)
        },
{
    // The producer reuses the slot only after every sample has been read.
    memory.set_ready(slot, false);
}

/// Copies one channel of a slot out.
fn read_channel<M: BlockMemory>(
    memory: &mut M,
    config: RingConfig,
    slot: usize,
    channel: usize,
    frames: usize,
    output: &mut [u32],
)
    requires
        fits(*old(memory), config),
        slot < config.capacity,
        channel < config.max_channels,
        frames <= config.max_frames,
        frames <= old(output)@.len(),
    ensures
        fits(*final(memory), config),
        final(memory).home() == old(memory).home(),
        final(memory).trace() == old(memory).trace() + loads(
            channel_cells(
                config,
                slot as int,
                channel as int,
                final(output)@.take(frames as int),
            ),
        ),
        M::is_owned() ==> same_contents(*final(memory), *old(memory)),
        final(output)@.len() == old(output)@.len(),
        forall|i: int|
            frames <= i < old(output)@.len() ==> #[trigger] final(output)@[i] == old(output)@[i],
        M::is_owned() ==> forall|i: int|
            0 <= i < frames ==> #[trigger] final(output)@[i] == old(memory).cell_at(
                config.start(slot as int, channel as int) + i,
            ),
{
    let start: usize = sample_start(config, slot, channel);
    proof {
        channel_bounds(config, slot as int, channel as int);
    }
    let ghost before = output@;
    let ghost earlier = *memory;
    let mut frame: usize = 0;
    assert(memory.trace() =~= earlier.trace() + loads(
        channel_cells(config, slot as int, channel as int, output@.take(0)),
    ));
    while frame < frames
        invariant
            fits(*memory, config),
            memory.home() == earlier.home(),
            start == config.start(slot as int, channel as int),
            start + frames <= config.cell_count(),
            frame <= frames <= output@.len(),
            output@.len() == before.len(),
            memory.trace() == earlier.trace() + loads(
                channel_cells(config, slot as int, channel as int, output@.take(frame as int)),
            ),
            M::is_owned() ==> same_contents(*memory, earlier),
            forall|i: int| frames <= i < before.len() ==> #[trigger] output@[i] == before[i],
            M::is_owned() ==> forall|i: int|
                0 <= i < frame ==> #[trigger] output@[i] == earlier.cell_at(start + i),
        decreases frames - frame,
    {
        let ghost shorter = output@.take(frame as int);
        let bits: u32 = memory.load_cell(start + frame);
        output[frame] = bits;
        proof {
            assert(output@.take(frame + 1) =~= shorter.push(bits));
            assert(memory.trace() =~= earlier.trace() + loads(
                channel_cells(config, slot as int, channel as int, output@.take(frame + 1)),
            ));
        }
        frame = frame + 1;
    }
}

/// The samples that a block of this description has in the destination.
pub open spec fn read_planes(destination: Seq<&mut [u32]>, info: BlockInfo) -> Seq<Seq<u32>> {
    Seq::new(
        info.channels as nat,
        |channel: int| destination[channel]@.take(info.frames as int),
    )
}

/// Copies the block that the consumer stands at into the destination and marks
/// its slot free. Where the destination is too small the block stays.
pub fn pop_block<M: BlockMemory>(
    memory: &mut M,
    config: RingConfig,
    slot: usize,
    destination: &mut [&mut [u32]],
) -> (result: Result<Option<BlockInfo>, PopError>)
    requires
        fits(*old(memory), config),
        slot < config.capacity,
    ensures
        fits(*final(memory), config),
        final(memory).home() == old(memory).home(),
        final(destination)@.len() == old(destination)@.len(),
        // The references still lead to the same channels.
        forall|c: int|
            0 <= c < old(destination)@.len() ==> final(#[trigger] final(destination)@[c])@
                == final(old(destination)@[c])@,
        // Only the first block-sized region is written, and only with a block.
        forall|c: int|
            0 <= c < old(destination)@.len() ==> #[trigger] final(destination)@[c]@.len()
                == old(destination)@[c]@.len(),
        match result {
            Ok(Some(info)) => {
                &&& final(memory).trace() == old(memory).trace() + pop_trace(
                    config,
                    slot as int,
                    (info, read_planes(final(destination)@, info)),
                )
                &&& is_shaped(config, (info, read_planes(final(destination)@, info)))
                &&& within(config, info)
                &&& destination_problem(info, lengths(old(destination)@)) is None
                &&& forall|c: int, i: int|
                    0 <= c < old(destination)@.len() && 0 <= i < old(destination)@[c]@.len() && (c
                        >= info.channels || i >= info.frames)
                        ==> #[trigger] final(destination)@[c]@[i] == old(destination)@[c]@[i]
            },
            _ => forall|c: int|
                0 <= c < old(destination)@.len() ==> #[trigger] final(destination)@[c]@
                    == old(destination)@[c]@,
        },
        result == Ok::<Option<BlockInfo>, PopError>(None) ==> nothing_taken(
            *old(memory),
            *final(memory),
            config,
            slot as int,
        ),
        result is Err ==> exists|info: BlockInfo|
            within(config, info) && destination_problem(info, lengths(old(destination)@)) == Some(
                result->Err_0,
            ) && final(memory).trace() == old(memory).trace() + #[trigger] look_trace(
                slot as int,
                info,
            ),
        M::is_owned() ==> {
            let ready = old(memory).ready_at(slot as int) && within(
                config,
                old(memory).info_at(slot as int),
            );
            let info = old(memory).info_at(slot as int);
            let problem = destination_problem(info, lengths(old(destination)@));
            &&& !ready ==> result == Ok::<Option<BlockInfo>, PopError>(None)
            &&& ready && problem is Some ==> result == Err::<Option<BlockInfo>, PopError>(
                problem->0,
            )
            &&& ready && problem is None ==> {
                &&& result == Ok::<Option<BlockInfo>, PopError>(Some(info))
                &&& forall|c: int, i: int|
                    0 <= c < info.channels && 0 <= i < info.frames
                        ==> #[trigger] final(destination)@[c]@[i] == old(memory).cell_at(
                        config.start(slot as int, c) + i,
                    )
                &&& forall|i: int| #[trigger]
                    final(memory).ready_at(i) == (i != slot && old(memory).ready_at(i))
                &&& forall|i: int| #[trigger] final(memory).info_at(i) == old(memory).info_at(i)
                &&& forall|i: int| #[trigger] final(memory).cell_at(i) == old(memory).cell_at(i)
            }
            &&& !(ready && problem is None) ==> same_contents(*final(memory), *old(memory))
        },
{
    let info = match pending_block(memory, config, slot) {
        Some(info) => info,
        None => {
            return Ok(None);
        },
    };
    match validate_destination(info, destination) {
        Ok(()) => {},
        Err(problem) => {
            return Err(problem);
        },
    }
    let ghost before = destination@;
    let ghost looked = *memory;
    let ghost mut got: Seq<Seq<u32>> = Seq::empty();
    let mut channel: usize = 0;
    assert(memory.trace() =~= looked.trace() + loads(cells(config, slot as int, got)));
    while channel < info.channels
        invariant
            fits(*memory, config),
            memory.home() == looked.home(),
            slot < config.capacity,
            channel <= info.channels <= config.max_channels,
            info.channels <= before.len(),
            info.frames <= config.max_frames,
            destination@.len() == before.len(),
            got.len() == channel,
            forall|c: int|
                0 <= c < channel ==> #[trigger] got[c] == destination@[c]@.take(
                    info.frames as int,
                ),
            memory.trace() == looked.trace() + loads(cells(config, slot as int, got)),
            M::is_owned() ==> same_contents(*memory, looked),
            forall|c: int| 0 <= c < info.channels ==> #[trigger] before[c]@.len() >= info.frames,
            forall|c: int|
                0 <= c < before.len() ==> final(#[trigger] destination@[c])@ == final(before[c])@,
            forall|c: int|
                0 <= c < before.len() ==> #[trigger] destination@[c]@.len() == before[c]@.len(),
            forall|c: int, i: int|
                0 <= c < before.len() && 0 <= i < before[c]@.len() && (c >= channel || i
                    >= info.frames) ==> #[trigger] destination@[c]@[i] == before[c]@[i],
            M::is_owned() ==> forall|c: int, i: int|
                0 <= c < channel && 0 <= i < info.frames ==> #[trigger] destination@[c]@[i]
                    == looked.cell_at(config.start(slot as int, c) + i),
        decreases info.channels - channel,
    {
        let output: &mut [u32] = &mut *destination[channel];
        read_channel(memory, config, slot, channel, info.frames, output);
        proof {
            let further = got.push(destination@[channel as int]@.take(info.frames as int));
            assert(further.drop_last() =~= got);
            assert(memory.trace() =~= looked.trace() + loads(
                cells(config, slot as int, further),
            ));
            got = further;
        }
        channel = channel + 1;
    }
    release_slot(memory, config, slot);
    proof {
        assert(got =~= read_planes(destination@, info));
        assert(memory.trace() =~= old(memory).trace() + pop_trace(
            config,
            slot as int,
            (info, got),
        ));
    }
    Ok(Some(info))
}

/// Marks the slot that the consumer stands at free, if it is ready.
pub fn discard_block<M: BlockMemory>(memory: &mut M, config: RingConfig, slot: usize) -> (info:
    Option<BlockInfo>)
    requires
        fits(*old(memory), config),
        slot < config.capacity,
    ensures
        fits(*final(memory), config),
        final(memory).home() == old(memory).home(),
        match info {
            Some(info) => within(config, info) && final(memory).trace() == old(memory).trace()
                + discard_trace(slot as int, info),
            None => nothing_taken(*old(memory), *final(memory), config, slot as int),
        },
        M::is_owned() ==> {
            let ready = old(memory).ready_at(slot as int) && within(
                config,
                old(memory).info_at(slot as int),
            );
            &&& info == (if ready {
                Some(old(memory).info_at(slot as int))
            } else {
                None
            })
            &&& !ready ==> same_contents(*final(memory), *old(memory))
            &&& ready ==> {
                &&& forall|i: int| #[trigger]
                    final(memory).ready_at(i) == (i != slot && old(memory).ready_at(i))
                &&& forall|i: int| #[trigger] final(memory).info_at(i) == old(memory).info_at(i)
                &&& forall|i: int| #[trigger] final(memory).cell_at(i) == old(memory).cell_at(i)
            }
        },
{
    match pending_block(memory, config, slot) {
        Some(info) => {
            release_slot(memory, config, slot);
            assert(memory.trace() =~= old(memory).trace() + discard_trace(slot as int, info));
            Some(info)
        },
        None => None,
    }
}

} // verus!
