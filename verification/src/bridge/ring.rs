//! The ring that a producer and a consumer share, each on a thread of its own.
use crate::bridge::blocks::{
    destination_problem, even_up_to, info_of, lengths, planes, shape_problem, AudioBlockMeta, BlockInfo, PopError,
    PushError, RingConfig, RingConfigError,
};
use crate::bridge::owned::validate_config;
use crate::bridge::protocol::{
    discard_block, fits, next_slot, pending_block, pop_block, push_block, read_planes, slot_after,
    within, BlockMemory,
};
use crate::bridge::shared::{SharedCells, SharedMemory};
use crate::bridge::trace::{
    consumer_trace, is_shaped, look_trace, producer_trace, sent, slot_of, slots_go_round, taken_count, Access,
    Offer, Take,
};
use vstd::prelude::*;

verus! {

/// Fixed-capacity ring awaiting split into its producer and consumer.
pub struct AudioBlockRing {
    config: RingConfig,
    producer: SharedMemory,
    consumer: SharedMemory,
}

impl AudioBlockRing {
    /// Whether the two ends are on one memory that has the slots and samples that
    /// the limits ask for.
    pub closed spec fn is_valid(self) -> bool {
        &&& fits(self.producer, self.config)
        &&& fits(self.consumer, self.config)
        &&& self.producer.home() == self.consumer.home()
        &&& self.producer.trace() == Seq::<Access>::empty()
        &&& self.consumer.trace() == Seq::<Access>::empty()
    }

    /// The limits of the ring.
    pub closed spec fn limits(self) -> RingConfig {
        self.config
    }

    /// The memory of the ring.
    pub closed spec fn home(self) -> SharedCells {
        self.producer.home()
    }

    /// Allocates one SPSC block ring.
    ///
    /// This is only allocation point in bridge core. Use a configuration based
    /// on host's maximum callback block size before entering audio processing.
    pub fn new(config: RingConfig) -> (result: Result<Self, RingConfigError>)
        ensures
            match result {
                Ok(ring) => config.is_valid() && ring.is_valid() && ring.limits() == config,
                Err(problem) => config.problem() == Some(problem),
            },
    {
        match validate_config(config) {
            Ok(()) => {},
            Err(problem) => {
                return Err(problem);
            },
        }
        let (producer, consumer) = SharedMemory::pair(config);
        Ok(AudioBlockRing { config, producer, consumer })
    }

    /// Consumes ring factory and returns its one unique producer/consumer pair.
    #[must_use]
    pub fn into_endpoints(self) -> (endpoints: (AudioBlockProducer, AudioBlockConsumer))
        requires
            self.is_valid(),
        ensures
            endpoints.0.is_valid(),
            endpoints.0.limits() == self.limits(),
            endpoints.0.slot() == 0,
            endpoints.0.offers() == Seq::<Offer>::empty(),
            endpoints.1.is_valid(),
            endpoints.1.limits() == self.limits(),
            endpoints.1.slot() == 0,
            endpoints.1.takes() == Seq::<Take>::empty(),
            endpoints.0.home() == self.home(),
            endpoints.0.shares_ring_with(endpoints.1),
    {
        proof {
            vstd::arithmetic::div_mod::lemma_small_mod(0, self.config.capacity as nat);
        }
        (
            AudioBlockProducer {
                config: self.config,
                memory: self.producer,
                write: 0,
                offers: Ghost(Seq::empty()),
            },
            AudioBlockConsumer {
                config: self.config,
                memory: self.consumer,
                read: 0,
                takes: Ghost(Seq::empty()),
            },
        )
    }
}

/// Unique SPSC producer endpoint, intended for plugin audio thread.
///
/// Whether a well-shaped block finds a free slot is decided by the mark that
/// the shared memory shows at that moment. The producer keeps a record of what
/// it offered and what came of it, and has made exactly the accesses to the
/// memory that the record calls for. What the two ends together come to is
/// [`crate::bridge::concurrent::blocks_arrive_in_order`].
pub struct AudioBlockProducer {
    config: RingConfig,
    memory: SharedMemory,
    write: usize,
    offers: Ghost<Seq<Offer>>,
}

impl AudioBlockProducer {
    /// Whether the producer stands at the slot behind the blocks that it sent,
    /// and its accesses are those of its offers.
    pub closed spec fn is_valid(self) -> bool {
        &&& fits(self.memory, self.config)
        &&& self.write < self.config.capacity
        &&& self.write == slot_of(self.config, sent(self.offers@).len() as int)
        &&& self.memory.trace() == producer_trace(self.config, self.offers@)
        &&& forall|i: int|
            0 <= i < self.offers@.len() ==> is_shaped(
                self.config,
                (#[trigger] self.offers@[i]).block,
            )
    }

    /// The limits of the ring.
    pub closed spec fn limits(self) -> RingConfig {
        self.config
    }

    /// The memory of the ring that this is an end of.
    pub closed spec fn home(self) -> SharedCells {
        self.memory.home()
    }

    /// Whether a consumer is the other end of the same ring.
    pub open spec fn shares_ring_with(self, consumer: AudioBlockConsumer) -> bool {
        self.home() == consumer.home()
    }

    /// The slot at which the producer stands.
    pub closed spec fn slot(self) -> int {
        self.write as int
    }

    /// The well-shaped blocks that were offered, in order, and whether the ring
    /// took each.
    pub closed spec fn offers(self) -> Seq<Offer> {
        self.offers@
    }

    /// Every access that was made to the memory.
    pub closed spec fn trace(self) -> Seq<Access> {
        self.memory.trace()
    }

    /// The producer touches the memory for its offers alone, and for each of
    /// them as the protocol has it.
    pub proof fn accesses_are_those_of_its_offers(self)
        requires
            self.is_valid(),
        ensures
            self.limits().is_valid(),
            self.trace() == producer_trace(self.limits(), self.offers()),
            self.slot() == slot_of(self.limits(), sent(self.offers()).len() as int),
            forall|i: int|
                0 <= i < self.offers().len() ==> is_shaped(
                    self.limits(),
                    (#[trigger] self.offers()[i]).block,
                ),
    {
    }

    /// What a push of channels comes to: a shape that the limits refuse is said
    /// and not offered; any other block is offered, and the ring takes it or is
    /// full.
    pub open spec fn has_pushed(
        self,
        before: Self,
        meta: AudioBlockMeta,
        channels: Seq<Seq<u32>>,
        result: Result<(), PushError>,
    ) -> bool {
        match shape_problem(before.limits(), meta, channels) {
            Some(problem) => {
                &&& result == Err::<(), PushError>(problem)
                &&& self.offers() == before.offers()
            },
            None => {
                &&& result is Ok || result == Err::<(), PushError>(PushError::Full)
                &&& self.offers() == before.offers().push(
                    (Offer { block: (info_of(meta, channels), channels), taken: result is Ok }),
                )
            },
        }
    }

    /// Returns immutable queue limits selected during construction.
    #[must_use]
    pub fn config(&self) -> (config: RingConfig)
        ensures
            config == self.limits(),
    {
        self.config
    }

    /// Attempts to copy planar source block into next free slot.
    ///
    /// `source` is planar: every entry is one channel, and every channel must
    /// have equal nonzero length. Data are copied bit-for-bit, including NaN
    /// payloads. The method has no allocation, locking, waiting, or I/O.
    ///
    /// On [`PushError::Full`], no input is copied. Invalid source shape also
    /// leaves queue untouched.
    pub fn try_push(&mut self, meta: AudioBlockMeta, source: &[&[u32]]) -> (result: Result<
        (),
        PushError,
    >)
        requires
            old(self).is_valid(),
        ensures
            final(self).is_valid(),
            final(self).limits() == old(self).limits(),
            final(self).home() == old(self).home(),
            final(self).has_pushed(*old(self), meta, planes(source@), result),
            final(self).slot() == (if result is Ok {
                next_slot(old(self).limits(), old(self).slot())
            } else {
                old(self).slot()
            }),
    {
        let ghost before = *self;
        let slot: usize = self.write;
        let result = push_block(&mut self.memory, self.config, slot, meta, source);
        if result.is_ok() {
            self.write = slot_after(self.config, slot);
        }
        proof {
            if shape_problem(self.config, meta, planes(source@)) is None {
                let offer = Offer {
                    block: (info_of(meta, planes(source@)), planes(source@)),
                    taken: result is Ok,
                };
                self.offers@ = before.offers@.push(offer);
                assert(self.offers@.drop_last() =~= before.offers@);
                slots_go_round(self.config, sent(before.offers@).len() as int);
                even_up_to(planes(source@), 1);
                assert(is_shaped(self.config, offer.block));
                assert(self.memory.trace() =~= producer_trace(self.config, self.offers@));
            }
        }
        result
    }
}

/// A block that waited and was not taken.
pub open spec fn left(info: BlockInfo) -> Take {
    Take::Left { info }
}

/// Whether the consumer asked once more and no block was there: its slot was
/// free, or its description was none that a producer could have written.
pub open spec fn found_nothing(config: RingConfig, before: Seq<Take>, after: Seq<Take>) -> bool {
    ||| after == before.push(Take::Nothing)
    ||| exists|info: BlockInfo|
        !within(config, info) && after == before.push(#[trigger] left(info))
}

/// What the consumer found when no block was there.
spec fn absent(before: SharedMemory, after: SharedMemory, config: RingConfig, slot: int) -> Take {
    if after.trace() == before.trace().push(Access::LoadMark { slot, ready: false }) {
        Take::Nothing
    } else {
        left(
            choose|info: BlockInfo|
                !within(config, info) && after.trace() == before.trace() + #[trigger] look_trace(
                    slot,
                    info,
                ),
        )
    }
}

/// Unique SPSC consumer endpoint, intended for standalone app or editor.
///
/// Which block comes is decided by what the shared memory shows at that moment.
/// The consumer keeps a record of what it found, and has made exactly the
/// accesses to the memory that the record calls for. What the two ends together
/// come to is [`crate::bridge::concurrent::blocks_arrive_in_order`].
pub struct AudioBlockConsumer {
    config: RingConfig,
    memory: SharedMemory,
    read: usize,
    takes: Ghost<Seq<Take>>,
}

impl AudioBlockConsumer {
    /// Whether the consumer stands at the slot behind the blocks that left, and
    /// its accesses are those of what it found.
    pub closed spec fn is_valid(self) -> bool {
        &&& fits(self.memory, self.config)
        &&& self.read < self.config.capacity
        &&& 0 <= taken_count(self.takes@)
        &&& self.read == slot_of(self.config, taken_count(self.takes@))
        &&& self.memory.trace() == consumer_trace(self.config, self.takes@)
        &&& forall|i: int|
            0 <= i < self.takes@.len() ==> (#[trigger] self.takes@[i]).is_shaped(self.config)
    }

    /// The limits of the ring.
    pub closed spec fn limits(self) -> RingConfig {
        self.config
    }

    /// The memory of the ring that this is an end of.
    pub closed spec fn home(self) -> SharedCells {
        self.memory.home()
    }

    /// The slot at which the consumer stands.
    pub closed spec fn slot(self) -> int {
        self.read as int
    }

    /// What was found each time that a block was asked for.
    pub closed spec fn takes(self) -> Seq<Take> {
        self.takes@
    }

    /// Every access that was made to the memory.
    pub closed spec fn trace(self) -> Seq<Access> {
        self.memory.trace()
    }

    /// The consumer touches the memory for what it takes alone, and for each
    /// time as the protocol has it.
    pub proof fn accesses_are_those_of_its_takes(self)
        requires
            self.is_valid(),
        ensures
            self.limits().is_valid(),
            self.trace() == consumer_trace(self.limits(), self.takes()),
            self.slot() == slot_of(self.limits(), taken_count(self.takes())),
            forall|i: int|
                0 <= i < self.takes().len() ==> (#[trigger] self.takes()[i]).is_shaped(
                    self.limits(),
                ),
    {
    }

    /// What a look comes to: a block that was left, or none.
    pub open spec fn has_peeked(self, before: Self, info: Option<BlockInfo>) -> bool {
        match info {
            Some(info) => within(before.limits(), info) && self.takes() == before.takes().push(
                left(info),
            ),
            None => found_nothing(before.limits(), before.takes(), self.takes()),
        }
    }

    /// What a discard comes to: a block that was dropped, or none.
    pub open spec fn has_discarded(self, before: Self, info: Option<BlockInfo>) -> bool {
        match info {
            Some(info) => within(before.limits(), info) && self.takes() == before.takes().push(
                dropped(info),
            ),
            None => found_nothing(before.limits(), before.takes(), self.takes()),
        }
    }

    /// What a pop into channels of these lengths comes to: a block that was copied
    /// to where the destination now holds it, none, or a block that was left
    /// because the destination is too small for it.
    pub open spec fn has_popped(
        self,
        before: Self,
        room: Seq<nat>,
        destination: Seq<&mut [u32]>,
        result: Result<Option<BlockInfo>, PopError>,
    ) -> bool {
        match result {
            Ok(Some(info)) => {
                &&& self.takes() == before.takes().push(
                    (Take::Copied { block: (info, read_planes(destination, info)) }),
                )
                &&& within(before.limits(), info)
                &&& destination_problem(info, room) is None
            },
            Ok(None) => found_nothing(before.limits(), before.takes(), self.takes()),
            Err(problem) => exists|info: BlockInfo|
                within(before.limits(), info) && destination_problem(info, room) == Some(problem)
                    && self.takes() == before.takes().push(#[trigger] left(info)),
        }
    }

    /// What was just found joins the record.
    proof fn found(before: Self, after: Self, take: Take)
        requires
            before.is_valid(),
            fits(after.memory, before.config),
            after.config == before.config,
            after.takes@ == before.takes@.push(take),
            take.is_shaped(before.config),
            after.read == (if take.took() {
                next_slot(before.config, before.read as int)
            } else {
                before.read as int
            }),
            after.memory.trace() == before.memory.trace() + take.trace(
                before.config,
                before.read as int,
            ),
        ensures
            after.is_valid(),
    {
        assert(after.takes@.drop_last() =~= before.takes@);
        slots_go_round(before.config, taken_count(before.takes@));
    }

    /// Returns immutable queue limits selected during construction.
    #[must_use]
    pub fn config(&self) -> (config: RingConfig)
        ensures
            config == self.limits(),
    {
        self.config
    }

    /// Returns metadata for next ready block without consuming it.
    ///
    /// Useful for sizing an app-owned destination. Returned data remain valid
    /// until this consumer pops or discards it; producer cannot overwrite a
    /// ready slot. The look joins the record of what was found, as that of a
    /// block that was left.
    #[must_use]
    pub fn peek_info(&mut self) -> (info: Option<BlockInfo>)
        requires
            old(self).is_valid(),
        ensures
            final(self).is_valid(),
            final(self).limits() == old(self).limits(),
            final(self).home() == old(self).home(),
            final(self).slot() == old(self).slot(),
            final(self).has_peeked(*old(self), info),
    {
        let ghost before = *self;
        let slot: usize = self.read;
        let info = pending_block(&mut self.memory, self.config, slot);
        proof {
            let take = match info {
                Some(info) => left(info),
                None => absent(before.memory, self.memory, self.config, slot as int),
            };
            assert(self.memory.trace() =~= before.memory.trace() + take.trace(
                self.config,
                slot as int,
            ));
            self.takes@ = self.takes@.push(take);
            Self::found(before, *self, take);
        }
        info
    }

    /// Copies next ready block into caller-owned planar storage.
    ///
    /// `destination` may contain more channels or frames than needed; only
    /// first block-sized region is written. A destination-size error leaves
    /// pending block in ring for retry. `Ok(None)` means queue was empty.
    /// This method does not allocate, lock, wait, or perform I/O.
    pub fn try_pop_into(&mut self, destination: &mut [&mut [u32]]) -> (result: Result<
        Option<BlockInfo>,
        PopError,
    >)
        requires
            old(self).is_valid(),
        ensures
            final(self).is_valid(),
            final(self).limits() == old(self).limits(),
            final(self).home() == old(self).home(),
            final(destination)@.len() == old(destination)@.len(),
            forall|c: int|
                0 <= c < old(destination)@.len() ==> final(#[trigger] final(destination)@[c])@
                    == final(old(destination)@[c])@,
            forall|c: int|
                0 <= c < old(destination)@.len() ==> #[trigger] final(destination)@[c]@.len()
                    == old(destination)@[c]@.len(),
            match result {
                Ok(Some(info)) => {
                    &&& final(self).slot() == next_slot(old(self).limits(), old(self).slot())
                    &&& forall|c: int, i: int|
                        0 <= c < old(destination)@.len() && 0 <= i < old(destination)@[c]@.len()
                            && (c >= info.channels || i >= info.frames)
                            ==> #[trigger] final(destination)@[c]@[i] == old(destination)@[c]@[i]
                },
                _ => {
                    &&& final(self).slot() == old(self).slot()
                    &&& forall|c: int|
                        0 <= c < old(destination)@.len() ==> #[trigger] final(destination)@[c]@
                            == old(destination)@[c]@
                },
            },
            final(self).has_popped(
                *old(self),
                lengths(old(destination)@),
                final(destination)@,
                result,
            ),
    {
        let ghost before = *self;
        let ghost given = lengths(destination@);
        let slot: usize = self.read;
        let result = pop_block(&mut self.memory, self.config, slot, destination);
        let taken = match &result {
            Ok(Some(_)) => true,
            _ => false,
        };
        if taken {
            self.read = slot_after(self.config, slot);
        }
        proof {
            let take = match result {
                Ok(Some(info)) => Take::Copied { block: (info, read_planes(destination@, info)) },
                Ok(None) => absent(before.memory, self.memory, self.config, slot as int),
                Err(problem) => {
                    let info = choose|info: BlockInfo|
                        within(self.config, info) && destination_problem(info, given) == Some(
                            problem,
                        ) && self.memory.trace() == before.memory.trace() + #[trigger] look_trace(
                            slot as int,
                            info,
                        );
                    left(info)
                },
            };
            assert(self.memory.trace() =~= before.memory.trace() + take.trace(
                self.config,
                slot as int,
            ));
            self.takes@ = self.takes@.push(take);
            Self::found(before, *self, take);
        }
        result
    }

    /// Drops next ready block and returns its description.
    ///
    /// Use when consumer deliberately favors fresh real-time data over every
    /// historic block. `None` means queue was empty.
    pub fn try_discard(&mut self) -> (info: Option<BlockInfo>)
        requires
            old(self).is_valid(),
        ensures
            final(self).is_valid(),
            final(self).limits() == old(self).limits(),
            final(self).home() == old(self).home(),
            final(self).has_discarded(*old(self), info),
            final(self).slot() == (if info is Some {
                next_slot(old(self).limits(), old(self).slot())
            } else {
                old(self).slot()
            }),
    {
        let ghost before = *self;
        let slot: usize = self.read;
        let info = discard_block(&mut self.memory, self.config, slot);
        if info.is_some() {
            self.read = slot_after(self.config, slot);
        }
        proof {
            let take = match info {
                Some(info) => dropped(info),
                None => absent(before.memory, self.memory, self.config, slot as int),
            };
            assert(self.memory.trace() =~= before.memory.trace() + take.trace(
                self.config,
                slot as int,
            ));
            self.takes@ = self.takes@.push(take);
            Self::found(before, *self, take);
        }
        info
    }
}

/// Whether the consumer dropped a block, or found none to drop.
pub open spec fn dropped_one(config: RingConfig, before: Seq<Take>, after: Seq<Take>) -> bool {
    ||| found_nothing(config, before, after)
    ||| exists|info: BlockInfo|
        within(config, info) && after == before.push(#[trigger] dropped(info))
}

/// A block that was dropped.
pub open spec fn dropped(info: BlockInfo) -> Take {
    Take::Dropped { info }
}

/// Copies planar source block into the ring through its producer, and drops the
/// oldest block through its consumer first where the ring is full. For an owner
/// of both ends.
pub fn push_newest(
    producer: &mut AudioBlockProducer,
    consumer: &mut AudioBlockConsumer,
    meta: AudioBlockMeta,
    source: &[&[u32]],
) -> (result: Result<(), PushError>)
    requires
        old(producer).is_valid(),
        old(consumer).is_valid(),
    ensures
        final(producer).is_valid(),
        final(producer).limits() == old(producer).limits(),
        final(producer).home() == old(producer).home(),
        final(consumer).is_valid(),
        final(consumer).limits() == old(consumer).limits(),
        final(consumer).home() == old(consumer).home(),
        match shape_problem(old(producer).limits(), meta, planes(source@)) {
            Some(problem) => {
                &&& result == Err::<(), PushError>(problem)
                &&& final(producer).offers() == old(producer).offers()
                &&& final(consumer).takes() == old(consumer).takes()
            },
            None => {
                let block = (info_of(meta, planes(source@)), planes(source@));
                ||| {
                    &&& result is Ok
                    &&& final(producer).offers() == old(producer).offers().push(
                        (Offer { block, taken: true }),
                    )
                    &&& final(consumer).takes() == old(consumer).takes()
                }
                ||| {
                    &&& result is Ok || result == Err::<(), PushError>(PushError::Full)
                    &&& final(producer).offers() == old(producer).offers().push(
                        (Offer { block, taken: false }),
                    ).push((Offer { block, taken: result is Ok }))
                    &&& dropped_one(
                        old(consumer).limits(),
                        old(consumer).takes(),
                        final(consumer).takes(),
                    )
                }
            },
        },
{
    let result = producer.try_push(meta, source);
    match result {
        Err(PushError::Full) => {},
        _ => {
            return result;
        },
    }
    consumer.try_discard();
    producer.try_push(meta, source)
}

} // verus!
