//! What each call of a ring's ends comes to.
//!
//! A session is a producer, a consumer and everything that the two have done to
//! the memory that they share. Between its calls a ring is a queue of blocks: a
//! call that runs while the other end is at rest finds that queue and does to it
//! what a first-in, first-out queue does.
use crate::bridge::blocks::{
    destination_problem, info_of, shape_problem, AudioBlockMeta, Block, BlockInfo, PopError,
    PushError,
};
use crate::bridge::concurrent::{
    a_block_that_was_left_stays, accesses_of, agrees, ends_of_a_ring_agree, is_consistent,
    marks_tell_what_waits, memory_after, sent_are_shaped, End, Event, Memory,
};
use crate::bridge::protocol::{read_planes, within};
use crate::bridge::ring::{found_nothing, left, AudioBlockConsumer, AudioBlockProducer};
use crate::bridge::trace::{
    consumer_trace, producer_trace, sent, slot_of, taken_count, Access, Offer, Take,
};
use vstd::prelude::*;

verus! {

/// The two ends of a ring, the memory as it was when both began, and their
/// accesses to it in the order in which they happened.
pub struct Session {
    pub producer: AudioBlockProducer,
    pub consumer: AudioBlockConsumer,
    pub start: Memory,
    pub events: Seq<Event>,
}

impl Session {
    /// Whether the ends are those of one ring, the slots were free when they began, the
    /// events are what the two did, and every load gave what was stored last.
    pub open spec fn is_valid(self) -> bool {
        &&& self.producer.is_valid()
        &&& self.consumer.is_valid()
        &&& self.producer.limits() == self.consumer.limits()
        &&& self.producer.shares_ring_with(self.consumer)
        &&& forall|slot: int|
            0 <= slot < self.producer.limits().capacity ==> !(#[trigger] self.start.marks[slot])
        &&& is_consistent(self.start, self.events)
        &&& accesses_of(self.events, End::Producer) == self.producer.trace()
        &&& accesses_of(self.events, End::Consumer) == self.consumer.trace()
    }

    /// The blocks that were sent and have not left, oldest first.
    pub open spec fn queue(self) -> Seq<Block> {
        sent(self.producer.offers()).skip(taken_count(self.consumer.takes()))
    }

    /// The description of the oldest block that waits.
    pub open spec fn oldest(self) -> Option<BlockInfo> {
        if self.queue().len() == 0 {
            None
        } else {
            Some(self.queue()[0].0)
        }
    }

    /// The queue without its oldest block.
    pub open spec fn queue_behind(self) -> Seq<Block> {
        if self.queue().len() == 0 {
            self.queue()
        } else {
            self.queue().skip(1)
        }
    }

    /// Whether nothing but accesses of one end happened since an earlier session.
    pub open spec fn went_on(self, before: Self, end: End) -> bool {
        &&& self.start == before.start
        &&& before.events.is_prefix_of(self.events)
        &&& forall|i: int|
            before.events.len() <= i < self.events.len() ==> (#[trigger] self.events[i]).end == end
    }

    /// Whether a call of the consumer ran while the producer was at rest.
    pub open spec fn consumer_called(self, before: Self) -> bool {
        &&& before.is_valid()
        &&& self.is_valid()
        &&& self.producer == before.producer
        &&& self.consumer.limits() == before.consumer.limits()
        &&& self.went_on(before, End::Consumer)
    }

    /// Whether a call of the producer ran while the consumer was at rest.
    pub open spec fn producer_called(self, before: Self) -> bool {
        &&& before.is_valid()
        &&& self.is_valid()
        &&& self.consumer == before.consumer
        &&& self.producer.limits() == before.producer.limits()
        &&& self.went_on(before, End::Producer)
    }
}

/// The accesses of an end up to a place are the first of all its accesses.
proof fn earlier_accesses(events: Seq<Event>, count: int, end: End)
    requires
        0 <= count <= events.len(),
    ensures
        accesses_of(events.take(count), end).is_prefix_of(accesses_of(events, end)),
    decreases events.len(),
{
    if count == events.len() {
        assert(events.take(count) =~= events);
    } else {
        earlier_accesses(events.drop_last(), count, end);
        assert(events.drop_last().take(count) =~= events.take(count));
    }
}

/// What happened up to a place is consistent, and the memory there allows what
/// comes next.
proof fn memory_allows_the_next(start: Memory, events: Seq<Event>, count: int)
    requires
        0 <= count < events.len(),
        is_consistent(start, events),
    ensures
        memory_after(start, events.take(count)).allows(events[count].access),
    decreases events.len(),
{
    if count == events.len() - 1 {
        assert(events.take(count) =~= events.drop_last());
    } else {
        memory_allows_the_next(start, events.drop_last(), count);
        assert(events.drop_last().take(count) =~= events.take(count));
    }
}

/// Where an end goes on alone, its first access finds the memory as it was left.
proof fn first_access_finds(
    start: Memory,
    before: Seq<Event>,
    after: Seq<Event>,
    end: End,
    more: Seq<Access>,
)
    requires
        is_consistent(start, after),
        before.is_prefix_of(after),
        forall|i: int| before.len() <= i < after.len() ==> (#[trigger] after[i]).end == end,
        accesses_of(after, end) == accesses_of(before, end) + more,
        more.len() > 0,
    ensures
        memory_after(start, before).allows(more[0]),
{
    let count = before.len() as int;
    assert(after.take(count) =~= before);
    if after.len() == count {
        assert(after =~= before);
        assert(false);
    }
    let next = after.take(count + 1);
    assert(next.drop_last() =~= before);
    assert(next.last() == after[count]);
    earlier_accesses(after, count + 1, end);
    let done = accesses_of(before, end).len() as int;
    assert(accesses_of(next, end) == accesses_of(before, end).push(after[count].access));
    assert(accesses_of(after, end).take(done + 1)[done] == accesses_of(after, end)[done]);
    assert(more[0] == after[count].access);
    memory_allows_the_next(start, after, count);
}

/// No more blocks wait than there are slots.
pub proof fn a_queue_fits_its_ring(session: Session)
    requires
        session.is_valid(),
    ensures
        session.queue().len() <= session.producer.limits().capacity,
        0 <= taken_count(session.consumer.takes()) <= sent(session.producer.offers()).len(),
{
    session.producer.accesses_are_those_of_its_offers();
    session.consumer.accesses_are_those_of_its_takes();
    ends_of_a_ring_agree(session.producer, session.consumer, session.start, session.events);
    taken_is_counted(session.consumer.takes());
}

/// A count of takes is no less than nothing.
proof fn taken_is_counted(takes: Seq<Take>)
    ensures
        0 <= taken_count(takes),
    decreases takes.len(),
{
    if takes.len() > 0 {
        taken_is_counted(takes.drop_last());
    }
}

/// What a consumer finds while the producer is at rest: nothing where no block
/// waits, and the oldest block where one does.
proof fn asking_finds_the_oldest(before: Session, after: Session, take: Take)
    requires
        after.consumer_called(before),
        after.consumer.takes() == before.consumer.takes().push(take),
    ensures
        take is Nothing <==> before.queue().len() == 0,
        match take {
            Take::Nothing => true,
            Take::Left { info } => info == before.queue()[0].0,
            Take::Copied { block } => block == before.queue()[0],
            Take::Dropped { info } => info == before.queue()[0].0,
        },
        before.queue().len() > 0 ==> within(before.consumer.limits(), before.queue()[0].0),
        after.queue() == (if take.took() {
            before.queue().skip(1)
        } else {
            before.queue()
        }),
{
    let config = before.consumer.limits();
    let takes = before.consumer.takes();
    let blocks = sent(before.producer.offers());
    let next = taken_count(takes);
    before.producer.accesses_are_those_of_its_offers();
    before.consumer.accesses_are_those_of_its_takes();
    after.consumer.accesses_are_those_of_its_takes();
    a_queue_fits_its_ring(before);
    ends_of_a_ring_agree(after.producer, after.consumer, after.start, after.events);
    assert(takes.push(take).drop_last() =~= takes);
    assert(takes.push(take).last() == take);
    assert(agrees(takes.push(take), blocks));
    marks_tell_what_waits(
        config,
        before.start,
        before.events,
        before.producer.offers(),
        takes,
    );
    let more = take.trace(config, slot_of(config, next));
    assert(after.consumer.trace() == before.consumer.trace() + more);
    assert(more.len() > 0);
    first_access_finds(before.start, before.events, after.events, End::Consumer, more);
    sent_are_shaped(config, before.producer.offers());
    if before.queue().len() > 0 {
        assert(before.queue()[0] == blocks[next]);
    }
    if take.took() {
        assert(after.queue() =~= before.queue().skip(1));
    }
}

/// What a producer's offer comes to while the consumer is at rest: it is refused
/// where every slot holds a block, and taken otherwise.
proof fn offering_fills_the_queue(before: Session, after: Session, offer: Offer)
    requires
        after.producer_called(before),
        after.producer.offers() == before.producer.offers().push(offer),
    ensures
        offer.taken <==> before.queue().len() < before.producer.limits().capacity,
        after.queue() == (if offer.taken {
            before.queue().push(offer.block)
        } else {
            before.queue()
        }),
{
    let config = before.producer.limits();
    let offers = before.producer.offers();
    before.producer.accesses_are_those_of_its_offers();
    before.consumer.accesses_are_those_of_its_takes();
    after.producer.accesses_are_those_of_its_offers();
    a_queue_fits_its_ring(before);
    assert(offers.push(offer).drop_last() =~= offers);
    assert(offers.push(offer).last() == offer);
    marks_tell_what_waits(
        config,
        before.start,
        before.events,
        offers,
        before.consumer.takes(),
    );
    let more = offer.trace(config, slot_of(config, sent(offers).len() as int));
    assert(after.producer.trace() == before.producer.trace() + more);
    assert(more.len() > 0);
    first_access_finds(before.start, before.events, after.events, End::Producer, more);
    if offer.taken {
        assert(after.queue() =~= before.queue().push(offer.block));
    }
}

/// A push of a block that the limits allow is refused as `Full` exactly when as
/// many blocks wait as there are slots, and otherwise joins the queue as its
/// newest block. A push that is refused leaves the queue as it was.
pub proof fn a_push_joins_the_queue_unless_it_is_full(
    before: Session,
    after: Session,
    meta: AudioBlockMeta,
    channels: Seq<Seq<u32>>,
    result: Result<(), PushError>,
)
    requires
        after.producer_called(before),
        after.producer.has_pushed(before.producer, meta, channels, result),
    ensures
        result == (match shape_problem(before.producer.limits(), meta, channels) {
            Some(problem) => Err::<(), PushError>(problem),
            None => if before.queue().len() == before.producer.limits().capacity {
                Err(PushError::Full)
            } else {
                Ok(())
            },
        }),
        after.queue() == (if result is Ok {
            before.queue().push((info_of(meta, channels), channels))
        } else {
            before.queue()
        }),
{
    a_queue_fits_its_ring(before);
    if shape_problem(before.producer.limits(), meta, channels) is None {
        let offer = Offer { block: (info_of(meta, channels), channels), taken: result is Ok };
        offering_fills_the_queue(before, after, offer);
        if result is Ok {
            assert(result->Ok_0 == ());
        }
    }
}

/// Where the consumer says that no block was there, none was.
proof fn nothing_was_there(before: Session, after: Session)
    requires
        after.consumer_called(before),
        found_nothing(before.consumer.limits(), before.consumer.takes(), after.consumer.takes()),
    ensures
        before.queue().len() == 0,
        after.queue() == before.queue(),
{
    if after.consumer.takes() == before.consumer.takes().push(Take::Nothing) {
        asking_finds_the_oldest(before, after, Take::Nothing);
    } else {
        let info = choose|info: BlockInfo|
            !within(before.consumer.limits(), info) && after.consumer.takes()
                == before.consumer.takes().push(#[trigger] left(info));
        asking_finds_the_oldest(before, after, left(info));
    }
}

/// A look shows the oldest block that waits, if any does, and leaves the queue as
/// it was.
pub proof fn a_peek_shows_the_oldest_block(before: Session, after: Session, info: Option<BlockInfo>)
    requires
        after.consumer_called(before),
        after.consumer.has_peeked(before.consumer, info),
    ensures
        info == before.oldest(),
        after.queue() == before.queue(),
{
    match info {
        Some(info) => asking_finds_the_oldest(before, after, left(info)),
        None => nothing_was_there(before, after),
    }
}

/// A discard says what a look would have shown, and exactly the oldest block is
/// gone; where none waited nothing changes.
pub proof fn a_discard_drops_the_oldest_block(
    before: Session,
    after: Session,
    info: Option<BlockInfo>,
)
    requires
        after.consumer_called(before),
        after.consumer.has_discarded(before.consumer, info),
    ensures
        info == before.oldest(),
        after.queue() == before.queue_behind(),
{
    match info {
        Some(info) => asking_finds_the_oldest(before, after, Take::Dropped { info }),
        None => nothing_was_there(before, after),
    }
}

/// A pop hands the oldest block out, whole and as it was sent, and exactly that
/// block is gone. A destination that is too small for it is said, and leaves the
/// queue as it was.
pub proof fn a_pop_hands_out_the_oldest_block(
    before: Session,
    after: Session,
    room: Seq<nat>,
    destination: Seq<&mut [u32]>,
    result: Result<Option<BlockInfo>, PopError>,
)
    requires
        after.consumer_called(before),
        after.consumer.has_popped(before.consumer, room, destination, result),
    ensures
        match before.oldest() {
            None => {
                &&& result == Ok::<Option<BlockInfo>, PopError>(None)
                &&& after.queue() == before.queue()
            },
            Some(info) => match destination_problem(info, room) {
                Some(problem) => {
                    &&& result == Err::<Option<BlockInfo>, PopError>(problem)
                    &&& after.queue() == before.queue()
                },
                None => {
                    &&& result == Ok::<Option<BlockInfo>, PopError>(Some(info))
                    &&& read_planes(destination, info) == before.queue()[0].1
                    &&& after.queue() == before.queue_behind()
                },
            },
        },
{
    match result {
        Ok(Some(info)) => {
            let block = (info, read_planes(destination, info));
            asking_finds_the_oldest(before, after, Take::Copied { block });
        },
        Ok(None) => nothing_was_there(before, after),
        Err(problem) => {
            let info = choose|info: BlockInfo|
                within(before.consumer.limits(), info) && destination_problem(info, room) == Some(
                    problem,
                ) && after.consumer.takes() == before.consumer.takes().push(#[trigger] left(info));
            asking_finds_the_oldest(before, after, left(info));
        },
    }
}

/// The accesses of one end, as events.
pub open spec fn events_of(end: End, accesses: Seq<Access>) -> Seq<Event> {
    Seq::new(accesses.len(), |i: int| Event { end, access: accesses[i] })
}

/// What happens next joins what happened, by the end that does it.
proof fn accesses_join(events: Seq<Event>, end: End, more: Seq<Access>, other: End)
    ensures
        accesses_of(events + events_of(end, more), other) == (if other == end {
            accesses_of(events, other) + more
        } else {
            accesses_of(events, other)
        }),
    decreases more.len(),
{
    let whole = events + events_of(end, more);
    if more.len() == 0 {
        assert(whole =~= events);
        assert(accesses_of(events, other) + more =~= accesses_of(events, other));
    } else {
        accesses_join(events, end, more.drop_last(), other);
        assert(whole.drop_last() =~= events + events_of(end, more.drop_last()));
        assert(whole.last() == (Event { end, access: more.last() }));
        assert((accesses_of(events, other) + more.drop_last()).push(more.last())
            =~= accesses_of(events, other) + more);
    }
}

/// The two ends that a ring is split into begin a session, over free slots, and
/// its queue is empty.
pub proof fn a_fresh_pair_begins_a_session(
    producer: AudioBlockProducer,
    consumer: AudioBlockConsumer,
    start: Memory,
)
    requires
        producer.is_valid(),
        consumer.is_valid(),
        producer.limits() == consumer.limits(),
        producer.shares_ring_with(consumer),
        producer.offers() == Seq::<Offer>::empty(),
        consumer.takes() == Seq::<Take>::empty(),
        forall|slot: int|
            0 <= slot < producer.limits().capacity ==> !(#[trigger] start.marks[slot]),
    ensures
        (Session { producer, consumer, start, events: Seq::empty() }).is_valid(),
        (Session { producer, consumer, start, events: Seq::empty() }).queue() == Seq::<
            Block,
        >::empty(),
{
    producer.accesses_are_those_of_its_offers();
    consumer.accesses_are_those_of_its_takes();
    let session = Session { producer, consumer, start, events: Seq::empty() };
    assert(session.queue() =~= Seq::<Block>::empty());
}

/// A call of the consumer carries a session on: with the accesses that the call
/// made behind those that were made before, the session is one again. That the
/// memory gives what was stored last is what is left to ask of it.
pub proof fn a_consumer_call_continues(
    before: Session,
    consumer: AudioBlockConsumer,
    take: Take,
) -> (after: Session)
    requires
        before.is_valid(),
        consumer.is_valid(),
        consumer.limits() == before.consumer.limits(),
        consumer.home() == before.consumer.home(),
        consumer.takes() == before.consumer.takes().push(take),
        is_consistent(
            before.start,
            before.events + events_of(
                End::Consumer,
                take.trace(before.consumer.limits(), before.consumer.slot()),
            ),
        ),
    ensures
        after == (Session {
            consumer,
            events: before.events + events_of(
                End::Consumer,
                take.trace(before.consumer.limits(), before.consumer.slot()),
            ),
            ..before
        }),
        after.consumer_called(before),
{
    let more = take.trace(before.consumer.limits(), before.consumer.slot());
    let after = Session {
        consumer,
        events: before.events + events_of(End::Consumer, more),
        ..before
    };
    before.consumer.accesses_are_those_of_its_takes();
    consumer.accesses_are_those_of_its_takes();
    assert(consumer.takes().drop_last() =~= before.consumer.takes());
    accesses_join(before.events, End::Consumer, more, End::Consumer);
    accesses_join(before.events, End::Consumer, more, End::Producer);
    assert(before.events.is_prefix_of(after.events));
    after
}

/// A call of the producer that offers a block carries a session on in the same
/// way.
pub proof fn a_producer_call_continues(
    before: Session,
    producer: AudioBlockProducer,
    offer: Offer,
) -> (after: Session)
    requires
        before.is_valid(),
        producer.is_valid(),
        producer.limits() == before.producer.limits(),
        producer.home() == before.producer.home(),
        producer.offers() == before.producer.offers().push(offer),
        is_consistent(
            before.start,
            before.events + events_of(
                End::Producer,
                offer.trace(before.producer.limits(), before.producer.slot()),
            ),
        ),
    ensures
        after == (Session {
            producer,
            events: before.events + events_of(
                End::Producer,
                offer.trace(before.producer.limits(), before.producer.slot()),
            ),
            ..before
        }),
        after.producer_called(before),
{
    let more = offer.trace(before.producer.limits(), before.producer.slot());
    let after = Session {
        producer,
        events: before.events + events_of(End::Producer, more),
        ..before
    };
    before.producer.accesses_are_those_of_its_offers();
    producer.accesses_are_those_of_its_offers();
    assert(producer.offers().drop_last() =~= before.producer.offers());
    accesses_join(before.events, End::Producer, more, End::Producer);
    accesses_join(before.events, End::Producer, more, End::Consumer);
    assert(before.events.is_prefix_of(after.events));
    after
}

/// The two ends that a ring is split into are those of an empty queue: a look
/// shows no block and a discard finds none to drop, where the memory gives what
/// stands in it and its slots are free.
pub proof fn a_fresh_ring_has_nothing(
    producer: AudioBlockProducer,
    consumer: AudioBlockConsumer,
    start: Memory,
    after: AudioBlockConsumer,
    info: Option<BlockInfo>,
)
    requires
        producer.is_valid(),
        consumer.is_valid(),
        producer.limits() == consumer.limits(),
        producer.shares_ring_with(consumer),
        producer.offers() == Seq::<Offer>::empty(),
        consumer.takes() == Seq::<Take>::empty(),
        forall|slot: int|
            0 <= slot < producer.limits().capacity ==> !(#[trigger] start.marks[slot]),
        after.is_valid(),
        after.limits() == consumer.limits(),
        after.home() == consumer.home(),
        after.has_peeked(consumer, info) || after.has_discarded(consumer, info),
        is_consistent(start, events_of(End::Consumer, after.trace())),
    ensures
        info is None,
        after.takes() == seq![Take::Nothing],
{
    let before = Session { producer, consumer, start, events: Seq::empty() };
    a_fresh_pair_begins_a_session(producer, consumer, start);
    consumer.accesses_are_those_of_its_takes();
    after.accesses_are_those_of_its_takes();
    let take = after.takes().last();
    assert(after.takes() =~= consumer.takes().push(take));
    assert(after.takes().drop_last() =~= consumer.takes());
    assert(after.trace() =~= take.trace(consumer.limits(), consumer.slot()));
    assert(before.events + events_of(End::Consumer, after.trace()) =~= events_of(
        End::Consumer,
        after.trace(),
    ));
    let later = a_consumer_call_continues(before, after, take);
    asking_finds_the_oldest(before, later, take);
    assert(after.takes() =~= seq![Take::Nothing]);
}

/// A block that was pushed into an empty ring is popped as it was: the same
/// description and the same samples, bit for bit, where the destination has room
/// for them. The ring is empty again.
pub proof fn what_was_pushed_is_popped(
    before: Session,
    pushed: Session,
    popped: Session,
    meta: AudioBlockMeta,
    channels: Seq<Seq<u32>>,
    room: Seq<nat>,
    destination: Seq<&mut [u32]>,
    result: Result<Option<BlockInfo>, PopError>,
)
    requires
        before.queue().len() == 0,
        pushed.producer_called(before),
        pushed.producer.has_pushed(before.producer, meta, channels, Ok(())),
        popped.consumer_called(pushed),
        popped.consumer.has_popped(pushed.consumer, room, destination, result),
        destination_problem(info_of(meta, channels), room) is None,
    ensures
        result == Ok::<Option<BlockInfo>, PopError>(Some(info_of(meta, channels))),
        read_planes(destination, info_of(meta, channels)) == channels,
        popped.queue() == Seq::<Block>::empty(),
{
    a_push_joins_the_queue_unless_it_is_full(before, pushed, meta, channels, Ok(()));
    a_pop_hands_out_the_oldest_block(pushed, popped, room, destination, result);
    assert(popped.queue() =~= Seq::<Block>::empty());
}

/// Where a block was discarded there is room for one more.
pub proof fn a_discard_makes_room(
    before: Session,
    discarded: Session,
    after: Session,
    info: BlockInfo,
    meta: AudioBlockMeta,
    channels: Seq<Seq<u32>>,
    result: Result<(), PushError>,
)
    requires
        discarded.consumer_called(before),
        discarded.consumer.has_discarded(before.consumer, Some(info)),
        after.producer_called(discarded),
        after.producer.has_pushed(discarded.producer, meta, channels, result),
        shape_problem(before.producer.limits(), meta, channels) is None,
    ensures
        result == Ok::<(), PushError>(()),
{
    a_queue_fits_its_ring(before);
    a_discard_drops_the_oldest_block(before, discarded, Some(info));
    a_push_joins_the_queue_unless_it_is_full(discarded, after, meta, channels, result);
}

/// What a look showed, the next look shows again, whatever the producer does in
/// between and at the same time.
pub proof fn a_peek_repeats(
    session: Session,
    first: AudioBlockConsumer,
    second: AudioBlockConsumer,
    info: BlockInfo,
    again: Option<BlockInfo>,
)
    requires
        session.is_valid(),
        second.has_peeked(first, Some(info)),
        session.consumer.has_peeked(second, again),
        second.limits() == session.consumer.limits(),
    ensures
        again == Some(info),
{
    assert(session.consumer.takes().drop_last() =~= second.takes());
    the_next_is_what_was_seen(session, first, second, info);
}

/// What a look showed is what the next discard drops, whatever the producer does
/// in between and at the same time.
pub proof fn a_peek_tells_what_is_discarded(
    session: Session,
    first: AudioBlockConsumer,
    second: AudioBlockConsumer,
    info: BlockInfo,
    dropped: Option<BlockInfo>,
)
    requires
        session.is_valid(),
        second.has_peeked(first, Some(info)),
        session.consumer.has_discarded(second, dropped),
        second.limits() == session.consumer.limits(),
    ensures
        dropped == Some(info),
{
    assert(session.consumer.takes().drop_last() =~= second.takes());
    the_next_is_what_was_seen(session, first, second, info);
}

/// What a look showed is what the next pop hands out where the destination has
/// room for it, and refuses for want of room where it has not, whatever the
/// producer does in between and at the same time.
pub proof fn a_peek_tells_what_is_popped(
    session: Session,
    first: AudioBlockConsumer,
    second: AudioBlockConsumer,
    info: BlockInfo,
    room: Seq<nat>,
    destination: Seq<&mut [u32]>,
    result: Result<Option<BlockInfo>, PopError>,
)
    requires
        session.is_valid(),
        second.has_peeked(first, Some(info)),
        session.consumer.has_popped(second, room, destination, result),
        second.limits() == session.consumer.limits(),
    ensures
        result == (match destination_problem(info, room) {
            Some(problem) => Err::<Option<BlockInfo>, PopError>(problem),
            None => Ok(Some(info)),
        }),
{
    assert(session.consumer.takes().drop_last() =~= second.takes());
    the_next_is_what_was_seen(session, first, second, info);
}

/// The take behind a look finds the block that was seen.
proof fn the_next_is_what_was_seen(
    session: Session,
    first: AudioBlockConsumer,
    second: AudioBlockConsumer,
    info: BlockInfo,
)
    requires
        session.is_valid(),
        second.has_peeked(first, Some(info)),
        second.limits() == session.consumer.limits(),
        session.consumer.takes().len() == second.takes().len() + 1,
        session.consumer.takes().drop_last() == second.takes(),
    ensures
        within(session.consumer.limits(), info),
        match session.consumer.takes().last() {
            Take::Nothing => false,
            Take::Left { info: found } => found == info,
            Take::Copied { block } => block.0 == info,
            Take::Dropped { info: found } => found == info,
        },
{
    let takes = session.consumer.takes();
    let later = takes.len() - 1;
    assert(second.takes()[later - 1] == left(info));
    assert(takes.drop_last()[later - 1] == takes[later - 1]);
    a_block_that_was_left_stays(
        session.producer,
        session.consumer,
        session.start,
        session.events,
        later - 1,
        later,
    );
    session.consumer.accesses_are_those_of_its_takes();
    session.producer.accesses_are_those_of_its_offers();
    ends_of_a_ring_agree(session.producer, session.consumer, session.start, session.events);
    sent_are_shaped(session.producer.limits(), session.producer.offers());
}

} // verus!
