//! What the two ends come to when they run at the same time.
//!
//! The accesses of the two ends happen one at a time, in some order that nobody
//! chooses, and a load gives what was stored last. Whatever the order, blocks
//! arrive whole, in the order in which they were sent, and each once.
use crate::bridge::blocks::{Block, BlockInfo, RingConfig};
use crate::bridge::protocol::{channel_bounds, channels_in_order, in_slot, slots_apart};
use crate::bridge::ring::{AudioBlockConsumer, AudioBlockProducer};
use crate::bridge::trace::{
    cells, consumer_trace, discard_trace, field_of, fields_tell_descriptions_apart, is_shaped,
    look_trace, pop_trace, producer_trace, push_trace, sent, slot_of, slots_go_round, taken_count,
    Access, Offer, Take,
};
use vstd::prelude::*;

verus! {

/// Who makes an access.
pub enum End {
    Producer,
    Consumer,
}

/// One access, by one end.
pub struct Event {
    pub end: End,
    pub access: Access,
}

/// What the shared memory holds.
pub struct Memory {
    pub marks: Map<int, bool>,
    /// The fields of the descriptions, by slot and field.
    pub fields: Map<(int, int), int>,
    pub samples: Map<int, u32>,
}

impl Memory {
    /// Whether an access gives what stands in the memory. A store always does.
    pub open spec fn allows(self, access: Access) -> bool {
        match access {
            Access::LoadMark { slot, ready } => self.marks[slot] == ready,
            Access::LoadField { slot, field, value } => self.fields[(slot, field)] == value,
            Access::LoadCell { place, bits } => self.samples[place] == bits,
            _ => true,
        }
    }

    /// The memory behind an access.
    pub open spec fn after(self, access: Access) -> Memory {
        match access {
            Access::StoreMark { slot, ready } => Memory {
                marks: self.marks.insert(slot, ready),
                ..self
            },
            Access::StoreField { slot, field, value } => Memory {
                fields: self.fields.insert((slot, field), value),
                ..self
            },
            Access::StoreCell { place, bits } => Memory {
                samples: self.samples.insert(place, bits),
                ..self
            },
            _ => self,
        }
    }

    /// Whether a slot holds a block.
    pub open spec fn holds(self, config: RingConfig, slot: int, block: Block) -> bool {
        &&& forall|field: int|
            0 <= field < 4 ==> self.fields[(slot, field)] == #[trigger] field_of(block.0, field)
        &&& forall|channel: int, i: int|
            0 <= channel < block.1.len() && 0 <= i < block.1[channel].len()
                ==> self.samples[config.start(slot, channel) + i]
                == #[trigger] block.1[channel][i]
    }
}

/// The memory behind events.
pub open spec fn memory_after(start: Memory, events: Seq<Event>) -> Memory
    decreases events.len(),
{
    if events.len() == 0 {
        start
    } else {
        memory_after(start, events.drop_last()).after(events.last().access)
    }
}

/// Whether every load gives what was stored last.
pub open spec fn is_consistent(start: Memory, events: Seq<Event>) -> bool
    decreases events.len(),
{
    events.len() > 0 ==> {
        &&& is_consistent(start, events.drop_last())
        &&& memory_after(start, events.drop_last()).allows(events.last().access)
    }
}

/// The accesses of one end, in order.
pub open spec fn accesses_of(events: Seq<Event>, end: End) -> Seq<Access>
    decreases events.len(),
{
    if events.len() == 0 {
        Seq::empty()
    } else if events.last().end == end {
        accesses_of(events.drop_last(), end).push(events.last().access)
    } else {
        accesses_of(events.drop_last(), end)
    }
}

/// Whether what the consumer found is what was sent: the first block that left
/// is the first that was sent, and so on; a block that was left is the next.
pub open spec fn agrees(takes: Seq<Take>, blocks: Seq<Block>) -> bool
    decreases takes.len(),
{
    takes.len() > 0 ==> {
        let next = taken_count(takes.drop_last());
        &&& agrees(takes.drop_last(), blocks)
        &&& match takes.last() {
            Take::Nothing => true,
            Take::Left { info } => 0 <= next < blocks.len() && info == blocks[next].0,
            Take::Copied { block } => 0 <= next < blocks.len() && block == blocks[next],
            Take::Dropped { info } => 0 <= next < blocks.len() && info == blocks[next].0,
        }
    }
}

/// How far the two ends have come: whole offers and takes, and accesses of the
/// one that each is in.
struct Progress {
    offers: int,
    stored: int,
    takes: int,
    loaded: int,
}

/// Whether what an access stored stands in the memory.
spec fn stands(memory: Memory, access: Access) -> bool {
    match access {
        Access::StoreField { slot, field, value } => memory.fields[(slot, field)] == value,
        Access::StoreCell { place, bits } => memory.samples[place] == bits,
        _ => true,
    }
}

/// Whether what an access loaded is of a block in a slot.
spec fn comes_from(config: RingConfig, slot: int, block: Block, access: Access) -> bool {
    match access {
        Access::LoadField { field, value, .. } => value == field_of(block.0, field),
        Access::LoadCell { place, bits } => forall|channel: int, i: int|
            0 <= channel < block.1.len() && 0 <= i < block.1[channel].len() && place
                == config.start(slot, channel) + i ==> bits == #[trigger] block.1[channel][i],
        _ => true,
    }
}

/// The accesses of the offer that the producer is in.
spec fn offer_accesses(config: RingConfig, offers: Seq<Offer>, index: int) -> Seq<Access> {
    offers[index].trace(config, slot_of(config, sent(offers.take(index)).len() as int))
}

/// The accesses of the take that the consumer is in.
spec fn take_accesses(config: RingConfig, takes: Seq<Take>, index: int) -> Seq<Access> {
    takes[index].trace(config, slot_of(config, taken_count(takes.take(index))))
}

/// What holds between any two accesses.
spec fn in_order(
    config: RingConfig,
    memory: Memory,
    offers: Seq<Offer>,
    takes: Seq<Take>,
    at: Progress,
) -> bool {
    let published = sent(offers.take(at.offers)).len() as int;
    let released = taken_count(takes.take(at.takes));
    &&& 0 <= at.offers <= offers.len()
    &&& 0 <= at.takes <= takes.len()
    &&& 0 <= released <= published <= released + config.capacity
    // A slot is marked exactly while it holds a block that has not left.
    &&& forall|k: int|
        released <= k < released + config.capacity ==> memory.marks[#[trigger] slot_of(config, k)]
            == (k < published)
    &&& forall|k: int|
        released <= k < published ==> memory.holds(
            config,
            #[trigger] slot_of(config, k),
            sent(offers)[k],
        )
    // The producer fills a slot that is free.
    &&& at.stored == 0 || {
        &&& at.offers < offers.len()
        &&& 0 < at.stored < offer_accesses(config, offers, at.offers).len()
        &&& published < released + config.capacity
        &&& forall|j: int|
            1 <= j < at.stored ==> stands(
                memory,
                #[trigger] offer_accesses(config, offers, at.offers)[j],
            )
    }
    // The consumer reads a slot that holds a block.
    &&& at.loaded == 0 || {
        &&& at.takes < takes.len()
        &&& 0 < at.loaded < take_accesses(config, takes, at.takes).len()
        &&& released < published
        &&& forall|j: int|
            0 <= j < at.loaded ==> comes_from(
                config,
                slot_of(config, released),
                sent(offers)[released],
                #[trigger] take_accesses(config, takes, at.takes)[j],
            )
    }
    &&& agrees(takes.take(at.takes), sent(offers))
}

/// No two of the counts that are pending at once share a slot.
proof fn slots_are_distinct(config: RingConfig, one: int, other: int)
    requires
        config.capacity > 0,
        0 <= one < other < one + config.capacity,
    ensures
        slot_of(config, one) != slot_of(config, other),
{
    let capacity = config.capacity as int;
    vstd::arithmetic::div_mod::lemma_fundamental_div_mod(one, capacity);
    vstd::arithmetic::div_mod::lemma_fundamental_div_mod(other, capacity);
    if one % capacity == other % capacity {
        let turns = other / capacity - one / capacity;
        assert(other - one == capacity * turns) by (nonlinear_arith)
            requires
                one == capacity * (one / capacity) + one % capacity,
                other == capacity * (other / capacity) + other % capacity,
                one % capacity == other % capacity,
                turns == other / capacity - one / capacity,
        ;
        assert(turns >= 1) by (nonlinear_arith)
            requires
                capacity * turns > 0,
                capacity > 0,
        ;
        assert(capacity * turns >= capacity) by (nonlinear_arith)
            requires
                turns >= 1,
                capacity > 0,
        ;
    }
}

/// A count and the count a whole round later share a slot.
proof fn slots_come_round(config: RingConfig, count: int)
    requires
        config.capacity > 0,
        0 <= count,
    ensures
        slot_of(config, count + config.capacity) == slot_of(config, count),
{
    vstd::arithmetic::div_mod::lemma_mod_add_multiples_vanish(count, config.capacity as int);
}

/// What was sent by the first offers is the beginning of what was sent by all.
proof fn sent_first(offers: Seq<Offer>, count: int)
    requires
        0 <= count <= offers.len(),
    ensures
        sent(offers.take(count)).len() <= sent(offers).len(),
        forall|k: int|
            0 <= k < sent(offers.take(count)).len() ==> #[trigger] sent(offers)[k] == sent(
                offers.take(count),
            )[k],
    decreases offers.len(),
{
    if count == offers.len() {
        assert(offers.take(count) =~= offers);
    } else {
        sent_first(offers.drop_last(), count);
        assert(offers.drop_last().take(count) =~= offers.take(count));
    }
}

/// One more offer.
proof fn sent_next(offers: Seq<Offer>, count: int)
    requires
        0 <= count < offers.len(),
    ensures
        sent(offers.take(count + 1)) == (if offers[count].taken {
            sent(offers.take(count)).push(offers[count].block)
        } else {
            sent(offers.take(count))
        }),
        offers[count].taken ==> {
            &&& sent(offers.take(count)).len() < sent(offers).len()
            &&& sent(offers)[sent(offers.take(count)).len() as int] == offers[count].block
        },
{
    assert(offers.take(count + 1).drop_last() =~= offers.take(count));
    sent_first(offers, count + 1);
}

/// Every block that was sent is one that was offered.
pub proof fn sent_are_shaped(config: RingConfig, offers: Seq<Offer>)
    requires
        forall|i: int| 0 <= i < offers.len() ==> is_shaped(config, (#[trigger] offers[i]).block),
    ensures
        forall|k: int| 0 <= k < sent(offers).len() ==> is_shaped(config, #[trigger] sent(offers)[k]),
    decreases offers.len(),
{
    if offers.len() > 0 {
        assert forall|i: int| 0 <= i < offers.drop_last().len() implies is_shaped(
            config,
            (#[trigger] offers.drop_last()[i]).block,
        ) by {
            assert(offers.drop_last()[i] == offers[i]);
        }
        sent_are_shaped(config, offers.drop_last());
        let earlier = sent(offers.drop_last());
        assert forall|k: int| 0 <= k < sent(offers).len() implies is_shaped(
            config,
            #[trigger] sent(offers)[k],
        ) by {
            if k < earlier.len() {
                assert(is_shaped(config, earlier[k]));
            } else {
                assert(is_shaped(config, offers[offers.len() - 1].block));
            }
        }
    }
}

/// One more take.
proof fn taken_next(takes: Seq<Take>, count: int)
    requires
        0 <= count < takes.len(),
    ensures
        taken_count(takes.take(count + 1)) == taken_count(takes.take(count)) + (
        if takes[count].took() {
            1int
        } else {
            0int
        }),
{
    assert(takes.take(count + 1).drop_last() =~= takes.take(count));
}

/// Each access to a sample of a block is to one of its samples.
proof fn cell_is_of_the_block(config: RingConfig, slot: int, channels: Seq<Seq<u32>>, j: int) -> (
    place: (int, int))
    requires
        0 <= j < cells(config, slot, channels).len(),
    ensures
        0 <= place.0 < channels.len(),
        0 <= place.1 < channels[place.0].len(),
        cells(config, slot, channels)[j] == (
            config.start(slot, place.0) + place.1,
            channels[place.0][place.1],
        ),
    decreases channels.len(),
{
    let shorter = cells(config, slot, channels.drop_last());
    if j < shorter.len() {
        let place = cell_is_of_the_block(config, slot, channels.drop_last(), j);
        assert(channels.drop_last()[place.0] == channels[place.0]);
        place
    } else {
        (channels.len() - 1, j - shorter.len())
    }
}

/// Each sample of a block is accessed.
proof fn sample_is_among_the_cells(
    config: RingConfig,
    slot: int,
    channels: Seq<Seq<u32>>,
    channel: int,
    i: int,
) -> (j: int)
    requires
        0 <= channel < channels.len(),
        0 <= i < channels[channel].len(),
    ensures
        0 <= j < cells(config, slot, channels).len(),
        cells(config, slot, channels)[j] == (
            config.start(slot, channel) + i,
            channels[channel][i],
        ),
    decreases channels.len(),
{
    let shorter = cells(config, slot, channels.drop_last());
    if channel < channels.len() - 1 {
        assert(channels.drop_last()[channel] == channels[channel]);
        sample_is_among_the_cells(config, slot, channels.drop_last(), channel, i)
    } else {
        shorter.len() + i
    }
}

/// The samples of a block stand behind each other, within the slot.
proof fn cells_are_apart(config: RingConfig, slot: int, block: Block, one: int, other: int)
    requires
        config.is_valid(),
        0 <= slot < config.capacity,
        is_shaped(config, block),
        0 <= one < cells(config, slot, block.1).len(),
        0 <= other < cells(config, slot, block.1).len(),
        one != other,
    ensures
        cells(config, slot, block.1)[one].0 != cells(config, slot, block.1)[other].0,
{
    if one < other {
        cells_rise(config, slot, block.1, one, other);
    } else {
        cells_rise(config, slot, block.1, other, one);
    }
}

/// The samples of channels stand in rising places.
proof fn cells_rise(
    config: RingConfig,
    slot: int,
    channels: Seq<Seq<u32>>,
    one: int,
    other: int,
)
    requires
        forall|c: int|
            0 <= c < channels.len() ==> (#[trigger] channels[c]).len() <= config.max_frames,
        0 <= one < other < cells(config, slot, channels).len(),
    ensures
        cells(config, slot, channels)[one].0 < cells(config, slot, channels)[other].0,
    decreases channels.len(),
{
    let shorter = cells(config, slot, channels.drop_last());
    if other < shorter.len() {
        assert forall|c: int| 0 <= c < channels.drop_last().len() implies (
        #[trigger] channels.drop_last()[c]).len() <= config.max_frames by {
            assert(channels.drop_last()[c] == channels[c]);
        }
        cells_rise(config, slot, channels.drop_last(), one, other);
    } else if one < shorter.len() {
        let place = cell_is_of_the_block(config, slot, channels.drop_last(), one);
        assert(channels.drop_last()[place.0] == channels[place.0]);
        channels_in_order(config, slot, place.0, channels.len() - 1);
    }
}

/// A sample of a shaped block is within its slot.
proof fn cell_is_in_its_slot(config: RingConfig, slot: int, block: Block, channel: int, i: int)
    requires
        config.is_valid(),
        0 <= slot < config.capacity,
        is_shaped(config, block),
        0 <= channel < block.1.len(),
        0 <= i < block.1[channel].len(),
    ensures
        in_slot(config, slot, config.start(slot, channel) + i),
{
    channel_bounds(config, slot, channel);
}

/// A block keeps its place while a sample of another slot is written.
proof fn other_slot_stays(
    config: RingConfig,
    memory: Memory,
    slot: int,
    block: Block,
    other: int,
    place: int,
    bits: u32,
)
    requires
        config.is_valid(),
        0 <= slot < config.capacity,
        is_shaped(config, block),
        memory.holds(config, slot, block),
        slot != other,
        in_slot(config, other, place),
    ensures
        memory.after(Access::StoreCell { place, bits }).holds(config, slot, block),
{
    let after = memory.after(Access::StoreCell { place, bits });
    assert forall|channel: int, i: int|
        0 <= channel < block.1.len() && 0 <= i < block.1[channel].len() implies after.samples[
    config.start(slot, channel) + i] == #[trigger] block.1[channel][i] by {
        cell_is_in_its_slot(config, slot, block, channel, i);
        if config.start(slot, channel) + i == place {
            slots_apart(config, slot, other, place);
        }
    }
}

/// What is known when an end is about to go on.
spec fn is_ready_to_go_on(
    config: RingConfig,
    memory: Memory,
    offers: Seq<Offer>,
    takes: Seq<Take>,
    at: Progress,
) -> bool {
    &&& config.is_valid()
    &&& forall|i: int| 0 <= i < offers.len() ==> is_shaped(config, (#[trigger] offers[i]).block)
    &&& forall|i: int| 0 <= i < takes.len() ==> (#[trigger] takes[i]).is_shaped(config)
    &&& in_order(config, memory, offers, takes, at)
}

/// The producer looks at the mark of its slot.
proof fn producer_looks(
    config: RingConfig,
    memory: Memory,
    offers: Seq<Offer>,
    takes: Seq<Take>,
    at: Progress,
) -> (next: Progress)
    requires
        is_ready_to_go_on(config, memory, offers, takes, at),
        at.offers < offers.len(),
        at.stored == 0,
        memory.allows(offer_accesses(config, offers, at.offers)[0]),
    ensures
        next == (if offers[at.offers].taken {
            Progress { stored: 1, ..at }
        } else {
            Progress { offers: at.offers + 1, ..at }
        }),
        in_order(config, memory, offers, takes, next),
{
    let published = sent(offers.take(at.offers)).len() as int;
    let released = taken_count(takes.take(at.takes));
    sent_next(offers, at.offers);
    if offers[at.offers].taken {
        if published == released + config.capacity {
            slots_come_round(config, released);
            assert(memory.marks[slot_of(config, released)]);
        }
        Progress { stored: 1, ..at }
    } else {
        Progress { offers: at.offers + 1, ..at }
    }
}

/// The producer writes a sample.
proof fn producer_writes_a_sample(
    config: RingConfig,
    memory: Memory,
    offers: Seq<Offer>,
    takes: Seq<Take>,
    at: Progress,
)
    requires
        is_ready_to_go_on(config, memory, offers, takes, at),
        at.offers < offers.len(),
        0 < at.stored < offer_accesses(config, offers, at.offers).len() - 5,
        offers[at.offers].taken,
    ensures
        in_order(
            config,
            memory.after(offer_accesses(config, offers, at.offers)[at.stored]),
            offers,
            takes,
            (Progress { stored: at.stored + 1, ..at }),
        ),
{
    let published = sent(offers.take(at.offers)).len() as int;
    let released = taken_count(takes.take(at.takes));
    let slot = slot_of(config, published);
    let block = offers[at.offers].block;
    let samples = cells(config, slot, block.1);
    let trace = offer_accesses(config, offers, at.offers);
    slots_go_round(config, published);
    assert(trace == push_trace(config, slot, block));
    let (place, bits) = samples[at.stored - 1];
    assert(trace[at.stored] == (Access::StoreCell { place, bits }));
    let after = memory.after(trace[at.stored]);
    let own = cell_is_of_the_block(config, slot, block.1, at.stored - 1);
    cell_is_in_its_slot(config, slot, block, own.0, own.1);
    sent_are_shaped(config, offers);
    sent_first(offers, at.offers);
    assert forall|k: int| released <= k < published implies after.holds(
        config,
        #[trigger] slot_of(config, k),
        sent(offers)[k],
    ) by {
        slots_are_distinct(config, k, published);
        slots_go_round(config, k);
        other_slot_stays(config, memory, slot_of(config, k), sent(offers)[k], slot, place, bits);
    }
    assert forall|j: int| 1 <= j < at.stored + 1 implies stands(after, #[trigger] trace[j]) by {
        assert(trace[j] == (Access::StoreCell {
            place: samples[j - 1].0,
            bits: samples[j - 1].1,
        }));
        if j < at.stored {
            cells_are_apart(config, slot, block, j - 1, at.stored - 1);
            assert(stands(memory, trace[j]));
        }
    }
}

/// The producer writes a field of the description.
proof fn producer_writes_a_field(
    config: RingConfig,
    memory: Memory,
    offers: Seq<Offer>,
    takes: Seq<Take>,
    at: Progress,
)
    requires
        is_ready_to_go_on(config, memory, offers, takes, at),
        at.offers < offers.len(),
        0 < at.stored,
        offer_accesses(config, offers, at.offers).len() - 5 <= at.stored < offer_accesses(
            config,
            offers,
            at.offers,
        ).len() - 1,
        offers[at.offers].taken,
    ensures
        in_order(
            config,
            memory.after(offer_accesses(config, offers, at.offers)[at.stored]),
            offers,
            takes,
            (Progress { stored: at.stored + 1, ..at }),
        ),
{
    let published = sent(offers.take(at.offers)).len() as int;
    let released = taken_count(takes.take(at.takes));
    let slot = slot_of(config, published);
    let block = offers[at.offers].block;
    let samples = cells(config, slot, block.1);
    let trace = offer_accesses(config, offers, at.offers);
    assert(trace == push_trace(config, slot, block));
    let field = at.stored - (trace.len() - 5);
    let value = field_of(block.0, field);
    assert(trace[at.stored] == (Access::StoreField { slot, field, value }));
    let after = memory.after(trace[at.stored]);
    assert forall|k: int| released <= k < published implies after.holds(
        config,
        #[trigger] slot_of(config, k),
        sent(offers)[k],
    ) by {
        slots_are_distinct(config, k, published);
        assert(memory.holds(config, slot_of(config, k), sent(offers)[k]));
    }
    assert forall|j: int| 1 <= j < at.stored + 1 implies stands(after, #[trigger] trace[j]) by {
        if j < trace.len() - 5 {
            assert(trace[j] == (Access::StoreCell {
                place: samples[j - 1].0,
                bits: samples[j - 1].1,
            }));
            assert(stands(memory, trace[j]));
        } else if j < at.stored {
            let other = j - (trace.len() - 5);
            assert(trace[j] == (Access::StoreField {
                slot,
                field: other,
                value: field_of(block.0, other),
            }));
            assert(stands(memory, trace[j]));
        }
    }
}

/// The producer marks the slot ready.
proof fn producer_publishes(
    config: RingConfig,
    memory: Memory,
    offers: Seq<Offer>,
    takes: Seq<Take>,
    at: Progress,
)
    requires
        is_ready_to_go_on(config, memory, offers, takes, at),
        at.offers < offers.len(),
        0 < at.stored,
        at.stored == offer_accesses(config, offers, at.offers).len() - 1,
        offers[at.offers].taken,
    ensures
        in_order(
            config,
            memory.after(offer_accesses(config, offers, at.offers)[at.stored]),
            offers,
            takes,
            (Progress { offers: at.offers + 1, stored: 0, ..at }),
        ),
{
    let published = sent(offers.take(at.offers)).len() as int;
    let released = taken_count(takes.take(at.takes));
    let slot = slot_of(config, published);
    let block = offers[at.offers].block;
    let samples = cells(config, slot, block.1);
    let trace = offer_accesses(config, offers, at.offers);
    assert(trace == push_trace(config, slot, block));
    assert(trace[at.stored] == (Access::StoreMark { slot, ready: true }));
    let after = memory.after(trace[at.stored]);
    sent_next(offers, at.offers);
    assert forall|k: int|
        released <= k < released + config.capacity implies after.marks[#[trigger] slot_of(
        config,
        k,
    )] == (k < published + 1) by {
        assert(memory.marks[slot_of(config, k)] == (k < published));
        if k < published {
            slots_are_distinct(config, k, published);
        } else if published < k {
            slots_are_distinct(config, published, k);
        }
    }
    assert forall|k: int| released <= k < published + 1 implies after.holds(
        config,
        #[trigger] slot_of(config, k),
        sent(offers)[k],
    ) by {
        if k < published {
            assert(memory.holds(config, slot_of(config, k), sent(offers)[k]));
        } else {
            assert forall|field: int| 0 <= field < 4 implies after.fields[(slot, field)]
                == #[trigger] field_of(block.0, field) by {
                let j = trace.len() - 5 + field;
                assert(trace[j] == (Access::StoreField {
                    slot,
                    field,
                    value: field_of(block.0, field),
                }));
                assert(stands(memory, trace[j]));
            }
            assert forall|channel: int, i: int|
                0 <= channel < block.1.len() && 0 <= i < block.1[channel].len() implies after.samples[
            config.start(slot, channel) + i] == #[trigger] block.1[channel][i] by {
                let j = sample_is_among_the_cells(config, slot, block.1, channel, i);
                assert(trace[j + 1] == (Access::StoreCell {
                    place: samples[j].0,
                    bits: samples[j].1,
                }));
                assert(stands(memory, trace[j + 1]));
            }
        }
    }
}

/// The producer makes its next access.
proof fn producer_goes_on(
    config: RingConfig,
    memory: Memory,
    offers: Seq<Offer>,
    takes: Seq<Take>,
    at: Progress,
) -> (next: Progress)
    requires
        is_ready_to_go_on(config, memory, offers, takes, at),
        at.offers < offers.len(),
        memory.allows(offer_accesses(config, offers, at.offers)[at.stored]),
    ensures
        in_order(
            config,
            memory.after(offer_accesses(config, offers, at.offers)[at.stored]),
            offers,
            takes,
            next,
        ),
        next == (if at.stored + 1 == offer_accesses(config, offers, at.offers).len() {
            Progress { offers: at.offers + 1, stored: 0, ..at }
        } else {
            Progress { stored: at.stored + 1, ..at }
        }),
{
    let trace = offer_accesses(config, offers, at.offers);
    if at.stored == 0 {
        producer_looks(config, memory, offers, takes, at)
    } else if at.stored < trace.len() - 5 {
        producer_writes_a_sample(config, memory, offers, takes, at);
        Progress { stored: at.stored + 1, ..at }
    } else if at.stored < trace.len() - 1 {
        producer_writes_a_field(config, memory, offers, takes, at);
        Progress { stored: at.stored + 1, ..at }
    } else {
        producer_publishes(config, memory, offers, takes, at);
        Progress { offers: at.offers + 1, stored: 0, ..at }
    }
}

/// The consumer looks at the mark of its slot.
proof fn consumer_looks(
    config: RingConfig,
    memory: Memory,
    offers: Seq<Offer>,
    takes: Seq<Take>,
    at: Progress,
) -> (next: Progress)
    requires
        is_ready_to_go_on(config, memory, offers, takes, at),
        at.takes < takes.len(),
        at.loaded == 0,
        memory.allows(take_accesses(config, takes, at.takes)[0]),
    ensures
        next == (if take_accesses(config, takes, at.takes).len() == 1 {
            Progress { takes: at.takes + 1, ..at }
        } else {
            Progress { loaded: 1, ..at }
        }),
        in_order(config, memory, offers, takes, next),
{
    let released = taken_count(takes.take(at.takes));
    let trace = take_accesses(config, takes, at.takes);
    taken_next(takes, at.takes);
    assert(takes.take(at.takes + 1).drop_last() =~= takes.take(at.takes));
    assert(memory.marks[slot_of(config, released)] == (released < sent(
        offers.take(at.offers),
    ).len()));
    if trace.len() == 1 {
        Progress { takes: at.takes + 1, ..at }
    } else {
        Progress { loaded: 1, ..at }
    }
}

/// The description that a take saw.
spec fn seen_info(take: Take) -> BlockInfo {
    match take {
        Take::Nothing => arbitrary(),
        Take::Left { info } => info,
        Take::Copied { block } => block.0,
        Take::Dropped { info } => info,
    }
}

/// A description that was read whole is that of the block that stood in the slot.
proof fn seen_info_is_the_one_sent(config: RingConfig, slot: int, take: Take, stood: Block)
    requires
        !(take is Nothing),
        forall|j: int|
            0 <= j < 5 ==> comes_from(config, slot, stood, #[trigger] take.trace(config, slot)[j]),
    ensures
        seen_info(take) == stood.0,
{
    let info = seen_info(take);
    let trace = take.trace(config, slot);
    assert forall|field: int| 0 <= field < 4 implies #[trigger] field_of(info, field) == field_of(
        stood.0,
        field,
    ) by {
        assert(trace[field + 1] == look_trace(slot, info)[field + 1]);
        assert(trace[field + 1] == (Access::LoadField {
            slot,
            field,
            value: field_of(info, field),
        }));
        assert(comes_from(config, slot, stood, trace[field + 1]));
    }
    fields_tell_descriptions_apart(info, stood.0);
}

/// The consumer reads a field of the description.
proof fn consumer_reads_a_field(
    config: RingConfig,
    memory: Memory,
    offers: Seq<Offer>,
    takes: Seq<Take>,
    at: Progress,
) -> (next: Progress)
    requires
        is_ready_to_go_on(config, memory, offers, takes, at),
        at.takes < takes.len(),
        0 < at.loaded <= 4,
        memory.allows(take_accesses(config, takes, at.takes)[at.loaded]),
    ensures
        memory.after(take_accesses(config, takes, at.takes)[at.loaded]) == memory,
        next == (if at.loaded + 1 == take_accesses(config, takes, at.takes).len() {
            Progress { takes: at.takes + 1, loaded: 0, ..at }
        } else {
            Progress { loaded: at.loaded + 1, ..at }
        }),
        in_order(config, memory, offers, takes, next),
{
    let released = taken_count(takes.take(at.takes));
    let slot = slot_of(config, released);
    let trace = take_accesses(config, takes, at.takes);
    taken_next(takes, at.takes);
    assert(takes.take(at.takes + 1).drop_last() =~= takes.take(at.takes));
    sent_first(offers, at.offers);
    assert(memory.holds(config, slot, sent(offers)[released]));
    let stood = sent(offers)[released];
    let info = seen_info(takes[at.takes]);
    assert(trace.take(5) =~= look_trace(slot, info));
    let field = at.loaded - 1;
    assert(trace[at.loaded] == look_trace(slot, info)[at.loaded]);
    assert(trace[at.loaded] == (Access::LoadField { slot, field, value: field_of(info, field) }));
    assert(field_of(stood.0, field) == memory.fields[(slot, field)]);
    assert(comes_from(config, slot, stood, trace[at.loaded]));
    if at.loaded + 1 == trace.len() {
        seen_info_is_the_one_sent(config, slot, takes[at.takes], stood);
        Progress { takes: at.takes + 1, loaded: 0, ..at }
    } else {
        Progress { loaded: at.loaded + 1, ..at }
    }
}

/// The consumer reads a sample.
proof fn consumer_reads_a_sample(
    config: RingConfig,
    memory: Memory,
    offers: Seq<Offer>,
    takes: Seq<Take>,
    at: Progress,
)
    requires
        is_ready_to_go_on(config, memory, offers, takes, at),
        at.takes < takes.len(),
        4 < at.loaded < take_accesses(config, takes, at.takes).len() - 1,
        memory.allows(take_accesses(config, takes, at.takes)[at.loaded]),
    ensures
        memory.after(take_accesses(config, takes, at.takes)[at.loaded]) == memory,
        in_order(config, memory, offers, takes, (Progress { loaded: at.loaded + 1, ..at })),
{
    let released = taken_count(takes.take(at.takes));
    let slot = slot_of(config, released);
    let trace = take_accesses(config, takes, at.takes);
    assert(takes[at.takes] matches Take::Copied { .. });
    let block = takes[at.takes]->block;
    let samples = cells(config, slot, block.1);
    assert(trace == pop_trace(config, slot, block));
    assert(trace[at.loaded] == (Access::LoadCell {
        place: samples[at.loaded - 5].0,
        bits: samples[at.loaded - 5].1,
    }));
    assert(memory.holds(config, slot, sent(offers)[released]));
    assert(comes_from(config, slot, sent(offers)[released], trace[at.loaded]));
}

/// A block that was read whole is the block that stood in the slot.
proof fn copied_block_is_the_one_sent(
    config: RingConfig,
    slot: int,
    copied: Block,
    stood: Block,
)
    requires
        is_shaped(config, copied),
        is_shaped(config, stood),
        forall|j: int|
            0 <= j < pop_trace(config, slot, copied).len() - 1 ==> comes_from(
                config,
                slot,
                stood,
                #[trigger] pop_trace(config, slot, copied)[j],
            ),
    ensures
        copied == stood,
{
    let trace = pop_trace(config, slot, copied);
    let samples = cells(config, slot, copied.1);
    assert(trace == (Take::Copied { block: copied }).trace(config, slot));
    seen_info_is_the_one_sent(config, slot, Take::Copied { block: copied }, stood);
    assert forall|channel: int| 0 <= channel < copied.1.len() implies #[trigger] copied.1[channel]
        == stood.1[channel] by {
        assert(stood.1[channel].len() == stood.0.frames);
        assert forall|i: int| 0 <= i < copied.1[channel].len() implies copied.1[channel][i]
            == stood.1[channel][i] by {
            let j = sample_is_among_the_cells(config, slot, copied.1, channel, i);
            assert(trace[j + 5] == (Access::LoadCell {
                place: samples[j].0,
                bits: samples[j].1,
            }));
            assert(comes_from(config, slot, stood, trace[j + 5]));
        }
        assert(copied.1[channel] =~= stood.1[channel]);
    }
    assert(copied.1 =~= stood.1);
}

/// The consumer frees the slot.
proof fn consumer_releases(
    config: RingConfig,
    memory: Memory,
    offers: Seq<Offer>,
    takes: Seq<Take>,
    at: Progress,
)
    requires
        is_ready_to_go_on(config, memory, offers, takes, at),
        at.takes < takes.len(),
        4 < at.loaded,
        at.loaded == take_accesses(config, takes, at.takes).len() - 1,
    ensures
        in_order(
            config,
            memory.after(take_accesses(config, takes, at.takes)[at.loaded]),
            offers,
            takes,
            (Progress { takes: at.takes + 1, loaded: 0, ..at }),
        ),
{
    let published = sent(offers.take(at.offers)).len() as int;
    let released = taken_count(takes.take(at.takes));
    let slot = slot_of(config, released);
    let trace = take_accesses(config, takes, at.takes);
    let stood = sent(offers)[released];
    taken_next(takes, at.takes);
    sent_first(offers, at.offers);
    sent_are_shaped(config, offers);
    assert(takes.take(at.takes + 1).drop_last() =~= takes.take(at.takes));
    assert(trace[at.loaded] == (Access::StoreMark { slot, ready: false }));
    let after = memory.after(trace[at.loaded]);
    assert forall|k: int|
        released + 1 <= k < released + 1 + config.capacity implies after.marks[#[trigger] slot_of(
        config,
        k,
    )] == (k < published) by {
        if k < released + config.capacity {
            slots_are_distinct(config, released, k);
            assert(memory.marks[slot_of(config, k)] == (k < published));
        } else {
            slots_come_round(config, released);
        }
    }
    assert forall|k: int| released + 1 <= k < published implies after.holds(
        config,
        #[trigger] slot_of(config, k),
        sent(offers)[k],
    ) by {
        assert(memory.holds(config, slot_of(config, k), sent(offers)[k]));
    }
    match takes[at.takes] {
        Take::Copied { block } => {
            assert(takes[at.takes].is_shaped(config));
            assert(trace == pop_trace(config, slot, block));
            copied_block_is_the_one_sent(config, slot, block, stood);
        },
        Take::Dropped { info } => {
            assert(trace == discard_trace(slot, info));
            seen_info_is_the_one_sent(config, slot, takes[at.takes], stood);
        },
        _ => {},
    }
    if at.stored > 0 {
        let writing = offer_accesses(config, offers, at.offers);
        assert forall|j: int| 1 <= j < at.stored implies stands(after, #[trigger] writing[j]) by {
            assert(stands(memory, writing[j]));
        }
    }
}

/// The consumer makes its next access.
proof fn consumer_goes_on(
    config: RingConfig,
    memory: Memory,
    offers: Seq<Offer>,
    takes: Seq<Take>,
    at: Progress,
) -> (next: Progress)
    requires
        is_ready_to_go_on(config, memory, offers, takes, at),
        at.takes < takes.len(),
        memory.allows(take_accesses(config, takes, at.takes)[at.loaded]),
    ensures
        in_order(
            config,
            memory.after(take_accesses(config, takes, at.takes)[at.loaded]),
            offers,
            takes,
            next,
        ),
        next == (if at.loaded + 1 == take_accesses(config, takes, at.takes).len() {
            Progress { takes: at.takes + 1, loaded: 0, ..at }
        } else {
            Progress { loaded: at.loaded + 1, ..at }
        }),
{
    let trace = take_accesses(config, takes, at.takes);
    if at.loaded == 0 {
        consumer_looks(config, memory, offers, takes, at)
    } else if at.loaded <= 4 {
        consumer_reads_a_field(config, memory, offers, takes, at)
    } else if at.loaded < trace.len() - 1 {
        consumer_reads_a_sample(config, memory, offers, takes, at);
        Progress { loaded: at.loaded + 1, ..at }
    } else {
        consumer_releases(config, memory, offers, takes, at);
        Progress { takes: at.takes + 1, loaded: 0, ..at }
    }
}

/// The accesses of a producer that makes one more offer.
proof fn producer_trace_next(config: RingConfig, offers: Seq<Offer>, count: int)
    requires
        0 <= count < offers.len(),
    ensures
        producer_trace(config, offers.take(count + 1)) == producer_trace(
            config,
            offers.take(count),
        ) + offer_accesses(config, offers, count),
        producer_trace(config, offers.take(count + 1)).is_prefix_of(producer_trace(config, offers)),
    decreases offers.len() - count,
{
    assert(offers.take(count + 1).drop_last() =~= offers.take(count));
    if count + 1 < offers.len() {
        producer_trace_next(config, offers, count + 1);
    } else {
        assert(offers.take(count + 1) =~= offers);
    }
}

/// The accesses of a consumer that asks once more.
proof fn consumer_trace_next(config: RingConfig, takes: Seq<Take>, count: int)
    requires
        0 <= count < takes.len(),
    ensures
        consumer_trace(config, takes.take(count + 1)) == consumer_trace(config, takes.take(count))
            + take_accesses(config, takes, count),
        consumer_trace(config, takes.take(count + 1)).is_prefix_of(consumer_trace(config, takes)),
    decreases takes.len() - count,
{
    assert(takes.take(count + 1).drop_last() =~= takes.take(count));
    if count + 1 < takes.len() {
        consumer_trace_next(config, takes, count + 1);
    } else {
        assert(takes.take(count + 1) =~= takes);
    }
}

/// Where the two ends are after events that are a part of what they do.
proof fn progress_after(
    config: RingConfig,
    start: Memory,
    events: Seq<Event>,
    offers: Seq<Offer>,
    takes: Seq<Take>,
) -> (at: Progress)
    requires
        config.is_valid(),
        forall|slot: int| 0 <= slot < config.capacity ==> !(#[trigger] start.marks[slot]),
        is_consistent(start, events),
        accesses_of(events, End::Producer).is_prefix_of(producer_trace(config, offers)),
        accesses_of(events, End::Consumer).is_prefix_of(consumer_trace(config, takes)),
        forall|i: int| 0 <= i < offers.len() ==> is_shaped(config, (#[trigger] offers[i]).block),
        forall|i: int| 0 <= i < takes.len() ==> (#[trigger] takes[i]).is_shaped(config),
    ensures
        in_order(config, memory_after(start, events), offers, takes, at),
        accesses_of(events, End::Producer).len() == producer_trace(
            config,
            offers.take(at.offers),
        ).len() + at.stored,
        accesses_of(events, End::Consumer).len() == consumer_trace(
            config,
            takes.take(at.takes),
        ).len() + at.loaded,
    decreases events.len(),
{
    if events.len() == 0 {
        let at = Progress { offers: 0, stored: 0, takes: 0, loaded: 0 };
        assert(offers.take(0) =~= Seq::<Offer>::empty());
        assert(takes.take(0) =~= Seq::<Take>::empty());
        assert forall|k: int| 0 <= k < config.capacity implies !start.marks[#[trigger] slot_of(
            config,
            k,
        )] by {
            slots_go_round(config, k);
        }
        at
    } else {
        let earlier = events.drop_last();
        let at = progress_after(config, start, earlier, offers, takes);
        let memory = memory_after(start, earlier);
        let access = events.last().access;
        match events.last().end {
            End::Producer => {
                let done = accesses_of(earlier, End::Producer).len() as int;
                assert(accesses_of(events, End::Producer)[done] == access);
                if at.offers == offers.len() {
                    assert(offers.take(at.offers) =~= offers);
                    assert(false);
                }
                producer_trace_next(config, offers, at.offers);
                if at.stored == 0 {
                    assert(offer_accesses(config, offers, at.offers).len() > 0);
                }
                assert(producer_trace(config, offers)[done] == offer_accesses(
                    config,
                    offers,
                    at.offers,
                )[at.stored]);
                producer_goes_on(config, memory, offers, takes, at)
            },
            End::Consumer => {
                let done = accesses_of(earlier, End::Consumer).len() as int;
                assert(accesses_of(events, End::Consumer)[done] == access);
                if at.takes == takes.len() {
                    assert(takes.take(at.takes) =~= takes);
                    assert(false);
                }
                consumer_trace_next(config, takes, at.takes);
                if at.loaded == 0 {
                    assert(take_accesses(config, takes, at.takes).len() > 0);
                }
                assert(consumer_trace(config, takes)[done] == take_accesses(
                    config,
                    takes,
                    at.takes,
                )[at.loaded]);
                consumer_goes_on(config, memory, offers, takes, at)
            },
        }
    }
}

/// However the accesses of a producer and a consumer fall between each other,
/// every block that the consumer took is the next one that the producer sent,
/// whole and unchanged, and no more blocks left than were sent. The producer may
/// be anywhere in its offers, in the middle of writing a block too; the slots
/// are free when both begin.
pub proof fn blocks_arrive_in_order(
    config: RingConfig,
    start: Memory,
    events: Seq<Event>,
    offers: Seq<Offer>,
    takes: Seq<Take>,
)
    requires
        config.is_valid(),
        forall|slot: int| 0 <= slot < config.capacity ==> !(#[trigger] start.marks[slot]),
        is_consistent(start, events),
        accesses_of(events, End::Producer).is_prefix_of(producer_trace(config, offers)),
        accesses_of(events, End::Consumer) == consumer_trace(config, takes),
        forall|i: int| 0 <= i < offers.len() ==> is_shaped(config, (#[trigger] offers[i]).block),
        forall|i: int| 0 <= i < takes.len() ==> (#[trigger] takes[i]).is_shaped(config),
    ensures
        agrees(takes, sent(offers)),
        taken_count(takes) <= sent(offers).len(),
{
    let at = progress_after(config, start, events, offers, takes);
    if at.takes < takes.len() {
        consumer_trace_next(config, takes, at.takes);
        assert(false);
    }
    assert(takes.take(at.takes) =~= takes);
    sent_first(offers, at.offers);
}

/// While neither end is in the middle of a call, no more blocks wait than there
/// are slots, the producer finds its slot ready exactly when that many wait, and
/// the consumer finds its slot ready exactly when any waits.
pub proof fn marks_tell_what_waits(
    config: RingConfig,
    start: Memory,
    events: Seq<Event>,
    offers: Seq<Offer>,
    takes: Seq<Take>,
)
    requires
        config.is_valid(),
        forall|slot: int| 0 <= slot < config.capacity ==> !(#[trigger] start.marks[slot]),
        is_consistent(start, events),
        accesses_of(events, End::Producer) == producer_trace(config, offers),
        accesses_of(events, End::Consumer) == consumer_trace(config, takes),
        forall|i: int| 0 <= i < offers.len() ==> is_shaped(config, (#[trigger] offers[i]).block),
        forall|i: int| 0 <= i < takes.len() ==> (#[trigger] takes[i]).is_shaped(config),
    ensures
        ({
            let waiting = sent(offers).len() - taken_count(takes);
            let marks = memory_after(start, events).marks;
            &&& 0 <= waiting <= config.capacity
            &&& marks[slot_of(config, sent(offers).len() as int)] == (waiting == config.capacity)
            &&& marks[slot_of(config, taken_count(takes))] == (waiting > 0)
        }),
{
    let at = progress_after(config, start, events, offers, takes);
    if at.takes < takes.len() {
        consumer_trace_next(config, takes, at.takes);
        assert(false);
    }
    if at.offers < offers.len() {
        producer_trace_next(config, offers, at.offers);
        assert(false);
    }
    assert(takes.take(at.takes) =~= takes);
    assert(offers.take(at.offers) =~= offers);
    let released = taken_count(takes);
    let published = sent(offers).len() as int;
    let marks = memory_after(start, events).marks;
    assert(marks[slot_of(config, released)] == (released < published));
    if published == released + config.capacity {
        slots_come_round(config, released);
    } else {
        assert(marks[slot_of(config, published)] == (published < published));
    }
}

/// What the consumer of a ring took is what its producer sent, in order, however
/// their accesses fell between each other.
pub proof fn ends_of_a_ring_agree(
    producer: AudioBlockProducer,
    consumer: AudioBlockConsumer,
    start: Memory,
    events: Seq<Event>,
)
    requires
        producer.is_valid(),
        consumer.is_valid(),
        producer.limits() == consumer.limits(),
        forall|slot: int|
            0 <= slot < producer.limits().capacity ==> !(#[trigger] start.marks[slot]),
        is_consistent(start, events),
        accesses_of(events, End::Producer) == producer.trace(),
        accesses_of(events, End::Consumer) == consumer.trace(),
    ensures
        agrees(consumer.takes(), sent(producer.offers())),
        0 <= sent(producer.offers()).len() - taken_count(consumer.takes())
            <= producer.limits().capacity,
{
    producer.accesses_are_those_of_its_offers();
    consumer.accesses_are_those_of_its_takes();
    blocks_arrive_in_order(
        producer.limits(),
        start,
        events,
        producer.offers(),
        consumer.takes(),
    );
    marks_tell_what_waits(producer.limits(), start, events, producer.offers(), consumer.takes());
}

/// A block that the consumer saw and left stays until the consumer takes it: the
/// next time that the consumer asks, a block is there, and its description is the
/// one that was seen. The producer does not overwrite it.
pub proof fn a_block_that_was_left_stays(
    producer: AudioBlockProducer,
    consumer: AudioBlockConsumer,
    start: Memory,
    events: Seq<Event>,
    seen: int,
    later: int,
)
    requires
        producer.is_valid(),
        consumer.is_valid(),
        producer.limits() == consumer.limits(),
        forall|slot: int|
            0 <= slot < producer.limits().capacity ==> !(#[trigger] start.marks[slot]),
        is_consistent(start, events),
        accesses_of(events, End::Producer) == producer.trace(),
        accesses_of(events, End::Consumer) == consumer.trace(),
        0 <= seen < later < consumer.takes().len(),
        consumer.takes()[seen] is Left,
        forall|i: int| seen < i < later ==> !(#[trigger] consumer.takes()[i]).took(),
    ensures
        match consumer.takes()[later] {
            Take::Nothing => false,
            Take::Left { info } => info == consumer.takes()[seen]->Left_info,
            Take::Copied { block } => block.0 == consumer.takes()[seen]->Left_info,
            Take::Dropped { info } => info == consumer.takes()[seen]->Left_info,
        },
{
    let takes = consumer.takes();
    let blocks = sent(producer.offers());
    ends_of_a_ring_agree(producer, consumer, start, events);
    agrees_earlier(takes, blocks, seen + 1);
    agrees_earlier(takes, blocks, later + 1);
    assert(takes.take(seen + 1).drop_last() =~= takes.take(seen));
    assert(takes.take(later + 1).drop_last() =~= takes.take(later));
    nothing_left(takes, seen, later);
    let config = consumer.limits();
    let first = consumer_trace(config, takes.take(seen)).len() as int;
    let second = consumer_trace(config, takes.take(later)).len() as int;
    let slot = slot_of(config, taken_count(takes.take(seen)));
    consumer.accesses_are_those_of_its_takes();
    producer.accesses_are_those_of_its_offers();
    consumer_trace_next(config, takes, seen);
    consumer_trace_next(config, takes, later);
    assert(take_accesses(config, takes, seen)[0] == Access::LoadMark { slot, ready: true });
    assert(take_accesses(config, takes, later).len() > 0);
    looks_store_nothing(config, takes, seen, later);
    assert(first < second);
    let seen_so_far = consumer_trace(config, takes.take(seen + 1));
    let later_so_far = consumer_trace(config, takes.take(later + 1));
    assert(seen_so_far[first] == take_accesses(config, takes, seen)[0]);
    assert(later_so_far[second] == take_accesses(config, takes, later)[0]);
    assert(consumer.trace().take(seen_so_far.len() as int)[first] == consumer.trace()[first]);
    assert(consumer.trace().take(later_so_far.len() as int)[second] == consumer.trace()[second]);
    assert(consumer.trace()[first] == Access::LoadMark { slot, ready: true });
    assert(consumer.trace()[second] == take_accesses(config, takes, later)[0]);
    marks_of_a_producer_are_set(producer.limits(), producer.offers());
    mark_is_seen_again(start, events, slot, first, second);
}

/// A producer stores no mark but that of a block.
proof fn marks_of_a_producer_are_set(config: RingConfig, offers: Seq<Offer>)
    ensures
        forall|k: int|
            0 <= k < producer_trace(config, offers).len() ==> (
            #[trigger] producer_trace(config, offers)[k] matches Access::StoreMark { ready, .. }
                ==> ready),
    decreases offers.len(),
{
    if offers.len() > 0 {
        marks_of_a_producer_are_set(config, offers.drop_last());
    }
}

/// Between two times that a consumer asks, where it took nothing, it stored
/// nothing.
proof fn looks_store_nothing(config: RingConfig, takes: Seq<Take>, from: int, to: int)
    requires
        0 <= from < to <= takes.len(),
        forall|i: int| from <= i < to ==> !(#[trigger] takes[i]).took(),
    ensures
        consumer_trace(config, takes.take(from)).len() < consumer_trace(
            config,
            takes.take(to),
        ).len(),
        consumer_trace(config, takes.take(to)).is_prefix_of(consumer_trace(config, takes)),
        forall|k: int|
            consumer_trace(config, takes.take(from)).len() <= k < consumer_trace(
                config,
                takes.take(to),
            ).len() ==> !(#[trigger] consumer_trace(config, takes)[k] is StoreMark),
    decreases to - from,
{
    consumer_trace_next(config, takes, to - 1);
    assert(!takes[to - 1].took());
    let earlier = consumer_trace(config, takes.take(to - 1));
    let whole = consumer_trace(config, takes.take(to));
    assert forall|k: int| earlier.len() <= k < whole.len() implies !(
    #[trigger] consumer_trace(config, takes)[k] is StoreMark) by {
        assert(consumer_trace(config, takes)[k] == whole[k]);
        assert(whole[k] == take_accesses(config, takes, to - 1)[k - earlier.len()]);
    }
    if from + 1 < to {
        looks_store_nothing(config, takes, from, to - 1);
    }
}

/// A mark that the consumer saw set stays set while the consumer stores none.
proof fn mark_stays(start: Memory, events: Seq<Event>, slot: int, first: int)
    requires
        is_consistent(start, events),
        0 <= first < accesses_of(events, End::Consumer).len(),
        accesses_of(events, End::Consumer)[first] == (Access::LoadMark { slot, ready: true }),
        forall|k: int|
            first <= k < accesses_of(events, End::Consumer).len() ==> !(#[trigger] accesses_of(
                events,
                End::Consumer,
            )[k] is StoreMark),
        forall|k: int|
            0 <= k < accesses_of(events, End::Producer).len() ==> (#[trigger] accesses_of(
                events,
                End::Producer,
            )[k] matches Access::StoreMark { ready, .. } ==> ready),
    ensures
        memory_after(start, events).marks[slot],
    decreases events.len(),
{
    let earlier = events.drop_last();
    let access = events.last().access;
    match events.last().end {
        End::Consumer => {
            let before = accesses_of(earlier, End::Consumer);
            assert(accesses_of(events, End::Consumer) == before.push(access));
            assert(accesses_of(events, End::Producer) == accesses_of(earlier, End::Producer));
            assert(accesses_of(events, End::Consumer)[before.len() as int] == access);
            if first < before.len() {
                assert forall|k: int| first <= k < before.len() implies !(
                #[trigger] before[k] is StoreMark) by {
                    assert(before[k] == accesses_of(events, End::Consumer)[k]);
                }
                mark_stays(start, earlier, slot, first);
            }
        },
        End::Producer => {
            let before = accesses_of(earlier, End::Producer);
            assert(accesses_of(events, End::Producer) == before.push(access));
            assert(accesses_of(events, End::Consumer) == accesses_of(earlier, End::Consumer));
            assert(accesses_of(events, End::Producer)[before.len() as int] == access);
            assert forall|k: int| 0 <= k < before.len() implies (
            #[trigger] before[k] matches Access::StoreMark { ready, .. } ==> ready) by {
                assert(before[k] == accesses_of(events, End::Producer)[k]);
            }
            mark_stays(start, earlier, slot, first);
        },
    }
}

/// A mark that the consumer saw set is seen set again, where the consumer stored
/// none in between.
proof fn mark_is_seen_again(
    start: Memory,
    events: Seq<Event>,
    slot: int,
    first: int,
    second: int,
)
    requires
        is_consistent(start, events),
        0 <= first < second < accesses_of(events, End::Consumer).len(),
        accesses_of(events, End::Consumer)[first] == (Access::LoadMark { slot, ready: true }),
        forall|k: int|
            first <= k < second ==> !(#[trigger] accesses_of(
                events,
                End::Consumer,
            )[k] is StoreMark),
        forall|k: int|
            0 <= k < accesses_of(events, End::Producer).len() ==> (#[trigger] accesses_of(
                events,
                End::Producer,
            )[k] matches Access::StoreMark { ready, .. } ==> ready),
    ensures
        accesses_of(events, End::Consumer)[second] != (Access::LoadMark { slot, ready: false }),
    decreases events.len(),
{
    let earlier = events.drop_last();
    let access = events.last().access;
    let loads = accesses_of(earlier, End::Consumer);
    let stores = accesses_of(earlier, End::Producer);
    assert forall|k: int| 0 <= k < stores.len() implies (
    #[trigger] stores[k] matches Access::StoreMark { ready, .. } ==> ready) by {
        assert(stores[k] == accesses_of(events, End::Producer)[k]);
    }
    assert forall|k: int| first <= k < second && k < loads.len() implies !(
    #[trigger] loads[k] is StoreMark) by {
        assert(loads[k] == accesses_of(events, End::Consumer)[k]);
    }
    if second < loads.len() {
        mark_is_seen_again(start, earlier, slot, first, second);
    } else {
        mark_stays(start, earlier, slot, first);
    }
}

/// What agrees, agrees from the beginning.
proof fn agrees_earlier(takes: Seq<Take>, blocks: Seq<Block>, count: int)
    requires
        agrees(takes, blocks),
        0 <= count <= takes.len(),
    ensures
        agrees(takes.take(count), blocks),
    decreases takes.len(),
{
    if count == takes.len() {
        assert(takes.take(count) =~= takes);
    } else {
        agrees_earlier(takes.drop_last(), blocks, count);
        assert(takes.drop_last().take(count) =~= takes.take(count));
    }
}

/// As many blocks have left after takes that took none.
proof fn nothing_left(takes: Seq<Take>, from: int, to: int)
    requires
        0 <= from <= to <= takes.len(),
        forall|i: int| from <= i < to ==> !(#[trigger] takes[i]).took(),
    ensures
        taken_count(takes.take(to)) == taken_count(takes.take(from)),
    decreases to - from,
{
    if from < to {
        nothing_left(takes, from, to - 1);
        assert(takes.take(to).drop_last() =~= takes.take(to - 1));
        assert(!takes[to - 1].took());
    }
}

} // verus!
