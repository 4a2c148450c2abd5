//! The slot protocol on memory that one owner holds: a bounded first-in,
//! first-out queue of blocks.
use crate::bridge::blocks::{
    a_slot_is_a_part, destination_problem, even_up_to, info_of, lengths, planes, shape_problem, AudioBlockMeta,
    Block, BlockInfo, PopError, PushError, RingConfig, RingConfigError,
};
use crate::bridge::protocol::{
    channel_bounds, discard_block, fits, in_slot, next_slot, pop_block, push_block, slot_after,
    slots_apart, BlockMemory,
};
use crate::bridge::trace::{info_loads, info_stores, Access};
use vstd::prelude::*;

verus! {

/// The mark and the description of a slot.
#[derive(Clone, Copy, Debug)]
pub struct OwnedSlot {
    pub ready: bool,
    pub info: BlockInfo,
}

/// Memory that one owner holds.
pub struct OwnedMemory {
    pub slots: Vec<OwnedSlot>,
    pub samples: Vec<u32>,
    pub accesses: Ghost<Seq<Access>>,
}

impl BlockMemory for OwnedMemory {
    type Home = ();

    open spec fn home(&self) -> () {
        ()
    }

    open spec fn is_owned() -> bool {
        true
    }

    open spec fn slot_total(&self) -> nat {
        self.slots@.len()
    }

    open spec fn cell_total(&self) -> nat {
        self.samples@.len()
    }

    open spec fn ready_at(&self, slot: int) -> bool {
        0 <= slot < self.slots@.len() && self.slots@[slot].ready
    }

    open spec fn info_at(&self, slot: int) -> BlockInfo {
        if 0 <= slot < self.slots@.len() {
            self.slots@[slot].info
        } else {
            arbitrary()
        }
    }

    open spec fn cell_at(&self, place: int) -> u32 {
        if 0 <= place < self.samples@.len() {
            self.samples@[place]
        } else {
            0
        }
    }

    open spec fn trace(&self) -> Seq<Access> {
        self.accesses@
    }

    fn is_ready(&mut self, slot: usize) -> (ready: bool) {
        let ready = self.slots[slot].ready;
        proof {
            self.accesses@ = self.accesses@.push(Access::LoadMark { slot: slot as int, ready });
        }
        ready
    }

    fn info(&mut self, slot: usize) -> (info: BlockInfo) {
        let info = self.slots[slot].info;
        proof {
            self.accesses@ = self.accesses@ + info_loads(slot as int, info);
        }
        info
    }

    fn load_cell(&mut self, place: usize) -> (bits: u32) {
        let bits: u32 = self.samples[place];
        proof {
            self.accesses@ = self.accesses@.push(Access::LoadCell { place: place as int, bits });
        }
        bits
    }

    fn set_ready(&mut self, slot: usize, ready: bool) {
        let info = self.slots[slot].info;
        self.slots[slot] = OwnedSlot { ready, info };
        proof {
            self.accesses@ = self.accesses@.push(Access::StoreMark { slot: slot as int, ready });
        }
    }

    fn set_info(&mut self, slot: usize, info: BlockInfo) {
        let ready = self.slots[slot].ready;
        self.slots[slot] = OwnedSlot { ready, info };
        proof {
            self.accesses@ = self.accesses@ + info_stores(slot as int, info);
        }
    }

    fn set_cell(&mut self, place: usize, bits: u32) {
        self.samples[place] = bits;
        proof {
            self.accesses@ = self.accesses@.push(Access::StoreCell { place: place as int, bits });
        }
    }
}

/// Checks the limits of a ring.
pub fn validate_config(config: RingConfig) -> (result: Result<(), RingConfigError>)
    ensures
        match result {
            Ok(()) => config.is_valid(),
            Err(problem) => config.problem() == Some(problem),
        },
{
    if config.capacity == 0 {
        return Err(RingConfigError::ZeroCapacity);
    }
    if config.max_channels == 0 {
        return Err(RingConfigError::ZeroMaxChannels);
    }
    if config.max_frames == 0 {
        return Err(RingConfigError::ZeroMaxFrames);
    }
    proof {
        a_slot_is_a_part(config);
    }
    match config.max_channels.checked_mul(config.max_frames) {
        Some(cells_per_block) => match config.capacity.checked_mul(cells_per_block) {
            Some(cell_count) => {
                if config.capacity > isize::MAX as usize / crate::bridge::blocks::SLOT_BYTES
                    || cell_count > isize::MAX as usize / crate::bridge::blocks::SAMPLE_BYTES {
                    Err(RingConfigError::StorageSizeOverflow)
                } else {
                    Ok(())
                }
            },
            None => Err(RingConfigError::StorageSizeOverflow),
        },
        None => Err(RingConfigError::StorageSizeOverflow),
    }
}

/// A ring that one owner both fills and empties.
pub struct OwnedBlockRing {
    memory: OwnedMemory,
    config: RingConfig,
    write: usize,
    read: usize,
    pending: Ghost<int>,
}

impl OwnedBlockRing {
    /// The slot of the block that leaves after `place` others.
    closed spec fn slot_at(self, place: int) -> int {
        if self.read + place < self.config.capacity {
            self.read + place
        } else {
            self.read + place - self.config.capacity
        }
    }

    /// The block in a slot.
    closed spec fn block_at(self, slot: int) -> Block {
        let info = self.memory.info_at(slot);
        (
            info,
            Seq::new(
                info.channels as nat,
                |channel: int|
                    Seq::new(
                        info.frames as nat,
                        |frame: int| self.memory.cell_at(self.config.start(slot, channel) + frame),
                    ),
            ),
        )
    }

    /// Whether the ring keeps its slots in order.
    pub closed spec fn is_valid(self) -> bool {
        &&& fits(self.memory, self.config)
        &&& self.read < self.config.capacity
        &&& 0 <= self.pending@ <= self.config.capacity
        &&& self.write == self.slot_at(self.pending@)
        &&& self.write < self.config.capacity
        &&& forall|place: int|
            #![trigger self.slot_at(place)]
            0 <= place < self.config.capacity ==> {
                &&& self.memory.ready_at(self.slot_at(place)) == (place < self.pending@)
                &&& place < self.pending@ ==> {
                    &&& self.memory.info_at(self.slot_at(place)).channels
                        <= self.config.max_channels
                    &&& self.memory.info_at(self.slot_at(place)).frames <= self.config.max_frames
                }
            }
    }

    /// The limits of the ring.
    pub closed spec fn limits(self) -> RingConfig {
        self.config
    }

    /// The blocks in the ring, the one that leaves first in front.
    pub closed spec fn view(&self) -> Seq<Block> {
        Seq::new(self.pending@ as nat, |place: int| self.block_at(self.slot_at(place)))
    }

    /// Allocates a ring.
    pub fn new(config: RingConfig) -> (result: Result<Self, RingConfigError>)
        ensures
            match result {
                Ok(ring) => config.is_valid() && ring.is_valid() && ring.limits() == config
                    && ring@ == Seq::<Block>::empty(),
                Err(problem) => config.problem() == Some(problem),
            },
    {
        match validate_config(config) {
            Ok(()) => {},
            Err(problem) => {
                return Err(problem);
            },
        }
        let empty = OwnedSlot {
            ready: false,
            info: BlockInfo {
                meta: AudioBlockMeta { stream_frame: 0, sample_rate_hz: 0 },
                channels: 0,
                frames: 0,
            },
        };
        proof {
            a_slot_is_a_part(config);
        }
        let cells_per_block: usize = config.max_channels * config.max_frames;
        let cell_count: usize = config.capacity * cells_per_block;
        let slots: Vec<OwnedSlot> = vec![empty; config.capacity];
        let samples: Vec<u32> = vec![0; cell_count];
        let ring = OwnedBlockRing {
            memory: OwnedMemory { slots, samples, accesses: Ghost(Seq::empty()) },
            config,
            write: 0,
            read: 0,
            pending: Ghost(0),
        };
        assert(ring@ =~= Seq::<Block>::empty());
        Ok(ring)
    }

    /// Returns immutable queue limits selected during construction.
    pub fn config(&self) -> (config: RingConfig)
        ensures
            config == self.limits(),
    {
        self.config
    }

    /// Whether the next block is the first in the queue, if the queue has one.
    proof fn front(self)
        requires
            self.is_valid(),
        ensures
            self.memory.ready_at(self.read as int) == (self@.len() > 0),
            self@.len() > 0 ==> self@[0] == self.block_at(self.read as int)
                && self.memory.info_at(self.read as int).channels <= self.config.max_channels
                && self.memory.info_at(self.read as int).frames <= self.config.max_frames,
    {
        assert(self.slot_at(0) == self.read);
    }

    /// Copies planar source block into the ring behind the blocks that are
    /// there. A block of a shape that the limits refuse, and any block while
    /// the ring is full, leaves the queue untouched.
    pub fn try_push(&mut self, meta: AudioBlockMeta, source: &[&[u32]]) -> (result: Result<
        (),
        PushError,
    >)
        requires
            old(self).is_valid(),
        ensures
            final(self).is_valid(),
            final(self).limits() == old(self).limits(),
            match shape_problem(old(self).limits(), meta, planes(source@)) {
                Some(problem) => {
                    &&& result == Err::<(), PushError>(problem)
                    &&& final(self)@ == old(self)@
                },
                None => if old(self)@.len() == old(self).limits().capacity {
                    &&& result == Err::<(), PushError>(PushError::Full)
                    &&& final(self)@ == old(self)@
                } else {
                    &&& result is Ok
                    &&& final(self)@ == old(self)@.push(
                        (info_of(meta, planes(source@)), planes(source@)),
                    )
                },
            },
    {
        let ghost before = *self;
        let ghost channels = planes(source@);
        let slot: usize = self.write;
        proof {
            if self.pending@ == self.config.capacity {
                assert(self.slot_at(0) == slot);
                assert(self.memory.ready_at(slot as int));
            } else {
                assert(self.slot_at(self.pending@) == slot);
                assert(!self.memory.ready_at(slot as int));
            }
            assert(self@.len() == self.pending@);
            if shape_problem(self.config, meta, channels) is None {
                even_up_to(channels, 1);
            }
        }
        let result = push_block(&mut self.memory, self.config, slot, meta, source);
        if result.is_ok() {
            self.write = slot_after(self.config, slot);
            proof {
                self.pending@ = self.pending@ + 1;
                assert forall|place: int|
                    #![trigger self.slot_at(place)]
                    0 <= place < self.config.capacity implies {
                    &&& self.memory.ready_at(self.slot_at(place)) == (place < self.pending@)
                    &&& place < self.pending@ ==> {
                        &&& self.memory.info_at(self.slot_at(place)).channels
                            <= self.config.max_channels
                        &&& self.memory.info_at(self.slot_at(place)).frames
                            <= self.config.max_frames
                    }
                } by {
                    assert(self.slot_at(place) == before.slot_at(place));
                    if place != before.pending@ {
                        assert(self.slot_at(place) != slot);
                    }
                }
                assert(self@.len() == before@.len() + 1);
                assert forall|place: int| 0 <= place < self@.len() implies #[trigger] self@[place]
                    == before@.push((info_of(meta, channels), channels))[place] by {
                    let own = self.slot_at(place);
                    assert(own == before.slot_at(place));
                    if place < before.pending@ {
                        assert(own != slot);
                        assert(before.memory.ready_at(own));
                        block_unchanged(before, *self, own, slot as int);
                    } else {
                        assert(own == slot);
                        block_written(*self, own, channels);
                    }
                }
                assert(self@ =~= before@.push((info_of(meta, channels), channels)));
            }
        } else {
            proof {
                ring_unchanged(before, *self);
            }
        }
        result
    }

    /// Returns the description of the next block without consuming it.
    pub fn peek_info(&self) -> (info: Option<BlockInfo>)
        requires
            self.is_valid(),
        ensures
            info == (if self@.len() > 0 {
                Some(self@[0].0)
            } else {
                None
            }),
    {
        proof {
            self.front();
        }
        let next = &self.memory.slots[self.read];
        if next.ready {
            Some(next.info)
        } else {
            None
        }
    }

    /// Copies the next block into caller-owned planar storage.
    ///
    /// `destination` may contain more channels or frames than needed; only
    /// first block-sized region is written. A destination-size error leaves
    /// the block in the ring for retry. `Ok(None)` means the ring was empty.
    pub fn try_pop_into(&mut self, destination: &mut [&mut [u32]]) -> (result: Result<
        Option<BlockInfo>,
        PopError,
    >)
        requires
            old(self).is_valid(),
        ensures
            final(self).is_valid(),
            final(self).limits() == old(self).limits(),
            final(destination)@.len() == old(destination)@.len(),
            forall|c: int|
                0 <= c < old(destination)@.len() ==> final(#[trigger] final(destination)@[c])@
                    == final(old(destination)@[c])@,
            forall|c: int|
                0 <= c < old(destination)@.len() ==> #[trigger] final(destination)@[c]@.len()
                    == old(destination)@[c]@.len(),
            if old(self)@.len() == 0 {
                &&& result == Ok::<Option<BlockInfo>, PopError>(None)
                &&& final(self)@ == old(self)@
            } else {
                match destination_problem(old(self)@[0].0, lengths(old(destination)@)) {
                    Some(problem) => {
                        &&& result == Err::<Option<BlockInfo>, PopError>(problem)
                        &&& final(self)@ == old(self)@
                    },
                    None => {
                        &&& result == Ok::<Option<BlockInfo>, PopError>(Some(old(self)@[0].0))
                        &&& final(self)@ == old(self)@.skip(1)
                    },
                }
            },
            match result {
                Ok(Some(info)) => forall|c: int, i: int|
                    0 <= c < old(destination)@.len() && 0 <= i < old(destination)@[c]@.len()
                        ==> #[trigger] final(destination)@[c]@[i] == (if c < info.channels && i
                        < info.frames {
                        old(self)@[0].1[c][i]
                    } else {
                        old(destination)@[c]@[i]
                    }),
                _ => forall|c: int|
                    0 <= c < old(destination)@.len() ==> #[trigger] final(destination)@[c]@
                        == old(destination)@[c]@,
            },
    {
        let ghost before = *self;
        let ghost given = destination@;
        proof {
            self.front();
        }
        let slot: usize = self.read;
        let result = pop_block(&mut self.memory, self.config, slot, destination);
        let taken = match &result {
            Ok(Some(_)) => true,
            _ => false,
        };
        if taken {
            self.read = slot_after(self.config, slot);
            proof {
                self.pending@ = self.pending@ - 1;
                ring_advanced(before, *self);
            }
        } else {
            proof {
                ring_unchanged(before, *self);
            }
        }
        result
    }

    /// Drops the next block and returns its description.
    pub fn try_discard(&mut self) -> (info: Option<BlockInfo>)
        requires
            old(self).is_valid(),
        ensures
            final(self).is_valid(),
            final(self).limits() == old(self).limits(),
            if old(self)@.len() == 0 {
                info is None && final(self)@ == old(self)@
            } else {
                info == Some(old(self)@[0].0) && final(self)@ == old(self)@.skip(1)
            },
    {
        let ghost before = *self;
        proof {
            self.front();
        }
        let slot: usize = self.read;
        let info = discard_block(&mut self.memory, self.config, slot);
        if info.is_some() {
            self.read = slot_after(self.config, slot);
            proof {
                self.pending@ = self.pending@ - 1;
                ring_advanced(before, *self);
            }
        } else {
            proof {
                ring_unchanged(before, *self);
            }
        }
        info
    }

    /// Copies planar source block into the ring, and drops the oldest block
    /// first where the ring is full: monitoring favours the newest audio over
    /// every historic block.
    pub fn push_newest(&mut self, meta: AudioBlockMeta, source: &[&[u32]]) -> (result: Result<
        (),
        PushError,
    >)
        requires
            old(self).is_valid(),
        ensures
            final(self).is_valid(),
            final(self).limits() == old(self).limits(),
            match shape_problem(old(self).limits(), meta, planes(source@)) {
                Some(problem) => {
                    &&& result == Err::<(), PushError>(problem)
                    &&& final(self)@ == old(self)@
                },
                None => {
                    &&& result is Ok
                    &&& final(self)@ == (if old(self)@.len() == old(self).limits().capacity {
                        old(self)@.skip(1)
                    } else {
                        old(self)@
                    }).push((info_of(meta, planes(source@)), planes(source@)))
                },
            },
    {
        proof {
            self.holds_no_more_than_its_capacity();
        }
        let result = self.try_push(meta, source);
        match result {
            Err(PushError::Full) => {},
            _ => {
                return result;
            },
        }
        self.try_discard();
        self.try_push(meta, source)
    }

    /// The ring never holds more blocks than it has slots, and no block in it is
    /// larger than the limits allow.
    pub proof fn holds_no_more_than_its_capacity(self)
        requires
            self.is_valid(),
        ensures
            self.limits().is_valid(),
            self@.len() <= self.limits().capacity,
            forall|place: int|
                0 <= place < self@.len() ==> (#[trigger] self@[place]).0.channels
                    <= self.limits().max_channels && self@[place].0.frames
                    <= self.limits().max_frames,
    {
        assert forall|place: int| 0 <= place < self@.len() implies (#[trigger] self@[place]).0.channels
            <= self.limits().max_channels && self@[place].0.frames <= self.limits().max_frames by {
            assert(self.memory.ready_at(self.slot_at(place)));
        }
    }
}

/// A block keeps its samples while another slot is written.
proof fn block_unchanged(before: OwnedBlockRing, after: OwnedBlockRing, own: int, slot: int)
    requires
        fits(before.memory, before.config),
        after.config == before.config,
        0 <= own < before.config.capacity,
        own != slot,
        before.memory.info_at(own).channels <= before.config.max_channels,
        before.memory.info_at(own).frames <= before.config.max_frames,
        after.memory.info_at(own) == before.memory.info_at(own),
        forall|i: int|
            !in_slot(before.config, slot, i) ==> #[trigger] after.memory.cell_at(i)
                == before.memory.cell_at(i),
    ensures
        after.block_at(own) == before.block_at(own),
{
    let info = before.memory.info_at(own);
    let one = after.block_at(own).1;
    let other = before.block_at(own).1;
    assert forall|channel: int| 0 <= channel < info.channels implies #[trigger] one[channel]
        == other[channel] by {
        channel_bounds(before.config, own, channel);
        assert forall|frame: int| 0 <= frame < info.frames implies #[trigger] one[channel][frame]
            == other[channel][frame] by {
            let place = before.config.start(own, channel) + frame;
            assert(in_slot(before.config, own, place));
            if in_slot(before.config, slot, place) {
                slots_apart(before.config, own, slot, place);
            }
        }
        assert(one[channel] =~= other[channel]);
    }
    assert(one =~= other);
}

/// A slot that holds the samples of a block holds that block.
proof fn block_written(ring: OwnedBlockRing, slot: int, channels: Seq<Seq<u32>>)
    requires
        ring.memory.info_at(slot).channels == channels.len(),
        forall|c: int|
            0 <= c < channels.len() ==> (#[trigger] channels[c]).len() == ring.memory.info_at(
                slot,
            ).frames,
        crate::bridge::protocol::slot_holds(ring.memory, ring.config, slot, channels),
    ensures
        ring.block_at(slot).1 == channels,
{
    let found = ring.block_at(slot).1;
    assert forall|c: int| 0 <= c < channels.len() implies #[trigger] found[c] == channels[c] by {
        assert forall|i: int| 0 <= i < channels[c].len() implies #[trigger] found[c][i]
            == channels[c][i] by {}
        assert(found[c] =~= channels[c]);
    }
    assert(found =~= channels);
}

/// A ring whose memory and positions stay is the same queue.
proof fn ring_unchanged(before: OwnedBlockRing, after: OwnedBlockRing)
    requires
        before.is_valid(),
        fits(after.memory, before.config),
        after.config == before.config,
        after.read == before.read,
        after.write == before.write,
        after.pending@ == before.pending@,
        crate::bridge::protocol::same_contents(after.memory, before.memory),
    ensures
        after.is_valid(),
        after@ == before@,
{
    assert forall|place: int|
        #![trigger after.slot_at(place)]
        0 <= place < after.config.capacity implies {
        &&& after.memory.ready_at(after.slot_at(place)) == (place < after.pending@)
        &&& place < after.pending@ ==> {
            &&& after.memory.info_at(after.slot_at(place)).channels <= after.config.max_channels
            &&& after.memory.info_at(after.slot_at(place)).frames <= after.config.max_frames
        }
    } by {
        assert(after.slot_at(place) == before.slot_at(place));
    }
    assert forall|place: int| 0 <= place < before@.len() implies #[trigger] after@[place]
        == before@[place] by {
        let own = before.slot_at(place);
        assert(own == after.slot_at(place));
        assert(after.block_at(own).1 =~~= before.block_at(own).1);
    }
    assert(after@ =~= before@);
}

/// A ring whose first slot is freed and passed loses its first block.
proof fn ring_advanced(before: OwnedBlockRing, after: OwnedBlockRing)
    requires
        before.is_valid(),
        before@.len() > 0,
        fits(after.memory, before.config),
        after.config == before.config,
        after.read == next_slot(before.config, before.read as int),
        after.write == before.write,
        after.pending@ == before.pending@ - 1,
        forall|i: int| #[trigger]
            after.memory.ready_at(i) == (i != before.read && before.memory.ready_at(i)),
        forall|i: int| #[trigger] after.memory.info_at(i) == before.memory.info_at(i),
        forall|i: int| #[trigger] after.memory.cell_at(i) == before.memory.cell_at(i),
    ensures
        after.is_valid(),
        after@ == before@.skip(1),
{
    assert forall|place: int|
        #![trigger after.slot_at(place)]
        0 <= place < after.config.capacity implies {
        &&& after.memory.ready_at(after.slot_at(place)) == (place < after.pending@)
        &&& place < after.pending@ ==> {
            &&& after.memory.info_at(after.slot_at(place)).channels <= after.config.max_channels
            &&& after.memory.info_at(after.slot_at(place)).frames <= after.config.max_frames
        }
    } by {
        if place + 1 < after.config.capacity {
            assert(after.slot_at(place) == before.slot_at(place + 1));
            assert(before.slot_at(place + 1) != before.read);
        } else {
            assert(after.slot_at(place) == before.read);
        }
    }
    assert(after.write == after.slot_at(after.pending@)) by {
        assert(before.write == before.slot_at(before.pending@));
    }
    assert forall|place: int| 0 <= place < after@.len() implies #[trigger] after@[place]
        == before@.skip(1)[place] by {
        let own = before.slot_at(place + 1);
        assert(own == after.slot_at(place));
        assert(before@[place + 1] == before.block_at(own));
        assert(after.block_at(own).1 =~~= before.block_at(own).1);
    }
    assert(after@ =~= before@.skip(1));
}

} // verus!
