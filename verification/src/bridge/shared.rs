//! Memory that two threads share.
//!
//! Samples and descriptions are stored and loaded without any order of their
//! own. A slot's mark orders them: what was stored before the mark was set is
//! seen after the mark has been seen set.
use crate::bridge::blocks::{a_slot_is_a_part, AudioBlockMeta, BlockInfo, RingConfig};
use crate::bridge::protocol::{fits, BlockMemory};
use crate::bridge::trace::{cell_loaded, info_loaded, info_stores, mark_loaded, Access};
use std::sync::atomic::{AtomicBool, AtomicU32, AtomicU64, AtomicUsize, Ordering};
use std::sync::Arc;
use vstd::prelude::*;

verus! {

/// The mark and the description of a slot.
pub struct SharedSlot {
    ready: AtomicBool,
    stream_frame: AtomicU64,
    sample_rate_hz: AtomicU32,
    channels: AtomicUsize,
    frames: AtomicUsize,
}

impl SharedSlot {
    /// A free slot. What an atomic begins with is not part of its specification,
    /// so nothing is stated of it; that slots begin free is where the laws of
    /// [`crate::bridge::concurrent`] start from.
    fn new() -> Self {
        SharedSlot {
            ready: AtomicBool::new(false),
            stream_frame: AtomicU64::new(0),
            sample_rate_hz: AtomicU32::new(0),
            channels: AtomicUsize::new(0),
            frames: AtomicUsize::new(0),
        }
    }
}

/// The slots and samples that the two ends of a ring share.
pub struct SharedCells {
    slots: Vec<SharedSlot>,
    samples: Vec<AtomicU32>,
}

impl SharedCells {
    /// Sets the mark of a slot, behind everything that was stored before. What an
    /// atomic holds is not part of its specification, so that the store was made
    /// is not stated here or of the stores below; the record of the accesses says
    /// which stores there are.
    fn store_mark(&self, slot: usize, ready: bool)
        requires
            slot < self.slots@.len(),
    {
        self.slots[slot].ready.store(ready, Ordering::Release)
    }

    /// Stores the description of a slot.
    fn store_info(&self, slot: usize, info: BlockInfo)
        requires
            slot < self.slots@.len(),
    {
        let held = &self.slots[slot];
        held.stream_frame.store(info.meta.stream_frame, Ordering::Relaxed);
        held.sample_rate_hz.store(info.meta.sample_rate_hz, Ordering::Relaxed);
        held.channels.store(info.channels, Ordering::Relaxed);
        held.frames.store(info.frames, Ordering::Relaxed);
    }

    /// Stores a sample.
    fn store_sample(&self, place: usize, bits: u32)
        requires
            place < self.samples@.len(),
    {
        self.samples[place].store(bits, Ordering::Relaxed)
    }

    /// Loads a sample and records what it was.
    fn sample(&self, place: usize, accesses: &mut Ghost<Seq<Access>>) -> (bits: u32)
        requires
            place < self.samples@.len(),
        ensures
            final(accesses)@ == old(accesses)@.push(cell_loaded(place, bits)),
    {
        let bits: u32 = self.samples[place].load(Ordering::Relaxed);
        proof {
            accesses@ = accesses@.push(cell_loaded(place, bits));
        }
        bits
    }
}

/// One end's hold on the shared memory, and a record of the accesses made
/// through it. What a load gives is up to the other end as well; the record says
/// what it was. Nothing can be said of what the atomics hold, so the record is
/// what the contracts speak of: each method enters the accesses that it makes, one
/// for a mark or a sample and four for a description, in the order in which it
/// makes them.
pub struct SharedMemory {
    cells: Arc<SharedCells>,
    accesses: Ghost<Seq<Access>>,
}

impl SharedMemory {
    /// Allocates free slots for the limits and gives out two holds on them.
    pub fn pair(config: RingConfig) -> (pair: (SharedMemory, SharedMemory))
        requires
            config.is_valid(),
        ensures
            fits(pair.0, config),
            fits(pair.1, config),
            pair.0.home() == pair.1.home(),
            pair.0.trace() == Seq::<Access>::empty(),
            pair.1.trace() == Seq::<Access>::empty(),
    {
        proof {
            a_slot_is_a_part(config);
        }
        let cells_per_block: usize = config.max_channels * config.max_frames;
        let cell_count: usize = config.capacity * cells_per_block;
        let mut slots: Vec<SharedSlot> = Vec::with_capacity(config.capacity);
        while slots.len() < config.capacity
            invariant
                slots@.len() <= config.capacity,
            decreases config.capacity - slots@.len(),
        {
            slots.push(SharedSlot::new());
        }
        let mut samples: Vec<AtomicU32> = Vec::with_capacity(cell_count);
        while samples.len() < cell_count
            invariant
                samples@.len() <= cell_count,
            decreases cell_count - samples@.len(),
        {
            samples.push(AtomicU32::new(0));
        }
        let cells = Arc::new(SharedCells { slots, samples });
        (
            SharedMemory { cells: cells.clone(), accesses: Ghost(Seq::empty()) },
            SharedMemory { cells, accesses: Ghost(Seq::empty()) },
        )
    }
}

impl BlockMemory for SharedMemory {
    type Home = SharedCells;

    closed spec fn home(&self) -> SharedCells {
        *self.cells
    }

    open spec fn is_owned() -> bool {
        false
    }

    closed spec fn slot_total(&self) -> nat {
        self.cells.slots@.len()
    }

    closed spec fn cell_total(&self) -> nat {
        self.cells.samples@.len()
    }

    open spec fn ready_at(&self, slot: int) -> bool {
        arbitrary()
    }

    open spec fn info_at(&self, slot: int) -> BlockInfo {
        arbitrary()
    }

    open spec fn cell_at(&self, place: int) -> u32 {
        arbitrary()
    }

    closed spec fn trace(&self) -> Seq<Access> {
        self.accesses@
    }

    fn is_ready(&mut self, slot: usize) -> (ready: bool) {
        let ready = self.cells.slots[slot].ready.load(Ordering::Acquire);
        proof {
            self.accesses@ = self.accesses@.push(mark_loaded(slot, ready));
        }
        ready
    }

    fn info(&mut self, slot: usize) -> (info: BlockInfo) {
        let held = &self.cells.slots[slot];
        let info = BlockInfo {
            meta: AudioBlockMeta {
                stream_frame: held.stream_frame.load(Ordering::Relaxed),
                sample_rate_hz: held.sample_rate_hz.load(Ordering::Relaxed),
            },
            channels: held.channels.load(Ordering::Relaxed),
            frames: held.frames.load(Ordering::Relaxed),
        };
        proof {
            self.accesses@ = self.accesses@ + info_loaded(slot, info);
        }
        info
    }

    fn load_cell(&mut self, place: usize) -> (bits: u32) {
        self.cells.sample(place, &mut self.accesses)
    }

    /// Stores the mark, and records that. The store itself is not stated.
    fn set_ready(&mut self, slot: usize, ready: bool) {
        self.cells.store_mark(slot, ready);
        proof {
            self.accesses@ = self.accesses@.push(Access::StoreMark { slot: slot as int, ready });
        }
    }

    /// Stores the description, and records that. The store itself is not stated.
    fn set_info(&mut self, slot: usize, info: BlockInfo) {
        self.cells.store_info(slot, info);
        proof {
            self.accesses@ = self.accesses@ + info_stores(slot as int, info);
        }
    }

    /// Stores a sample, and records that. The store itself is not stated.
    fn set_cell(&mut self, place: usize, bits: u32) {
        self.cells.store_sample(place, bits);
        proof {
            self.accesses@ = self.accesses@.push(Access::StoreCell { place: place as int, bits });
        }
    }
}

} // verus!
