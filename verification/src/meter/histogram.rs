//! The distribution of block loudness in bins of a tenth of a loudness unit.
use crate::scope::history::filled;
use vstd::prelude::*;

verus! {

/// How many bins there are: ten for each loudness unit from the absolute gate
/// to the top of the scale, and one for whatever is louder.
pub const HISTOGRAM_BINS: usize = 801;

/// Programme series used for bounded loudness histogram output.
#[derive(Clone, Copy, Debug, PartialEq, Eq, Structural)]
pub enum LoudnessHistogramKind {
    /// 400 ms blocks sampled every 100 ms, used for integrated loudness.
    Integrated,
    /// 3 s blocks sampled every 100 ms, used for loudness range.
    ShortTerm,
}

/// One loudness bin: how many blocks landed in it, and their summed energy.
#[derive(Clone, Copy, Debug, PartialEq, Eq)]
pub struct HistogramBin<E> {
    pub count: u64,
    pub energy: E,
}

/// The bins `first..end` that one display bucket merges, and how many blocks
/// they hold.
#[derive(Clone, Copy, Debug, PartialEq, Eq)]
pub struct HistogramSpan {
    pub first: usize,
    pub end: usize,
    pub count: u64,
}

/// How many blocks the bins `from..to` hold.
pub open spec fn counted<E>(bins: Seq<HistogramBin<E>>, from: int, to: int) -> int
    decreases to - from,
{
    if to <= from {
        0
    } else {
        counted(bins, from, to - 1) + bins[to - 1].count
    }
}

/// Where the display bucket `index` begins when the bins are shared out over
/// `amount` buckets.
pub open spec fn span_start(index: int, amount: int) -> int {
    index * HISTOGRAM_BINS / amount
}

/// How many blocks the first `index` of `amount` display buckets hold.
pub open spec fn shared_out<E>(bins: Seq<HistogramBin<E>>, index: int, amount: int) -> int
    decreases index,
{
    if index <= 0 {
        0
    } else {
        shared_out(bins, index - 1, amount) + counted(
            bins,
            span_start(index - 1, amount),
            span_start(index, amount),
        )
    }
}

/// The place of a percentile among `total` ordered items, counted from zero and
/// rounded to the nearest.
pub open spec fn percentile_place(total: int, percent: int) -> int {
    ((total - 1) * percent + 50) / 100
}

/// The places between which the loudness range of so many ordered items lies: the tenth
/// and the ninety-fifth percentile.
pub open spec fn range_places(total: int) -> (int, int) {
    (percentile_place(total, 10), percentile_place(total, 95))
}

/// The loudness range leaves out the quietest tenth and the loudest twentieth, to the
/// nearest item.
pub proof fn ranges_leave_out_the_extremes(total: int)
    requires
        0 < total,
    ensures
        0 <= range_places(total).0 <= range_places(total).1 < total,
        (total - 1) - 5 < 10 * range_places(total).0 <= (total - 1) + 5,
        19 * (total - 1) - 10 < 20 * range_places(total).1 <= 19 * (total - 1) + 10,
{
}

/// The place of a percentile among `total` ordered items, counted from zero and
/// rounded to the nearest.
pub fn percentile_rank(total: u64, percent: u64) -> (rank: u64)
    requires
        0 < total,
        percent <= 100,
    ensures
        rank == percentile_place(total as int, percent as int),
        rank < total,
{
    let last: u128 = (total - 1) as u128;
    assert(last * percent <= last * 100) by (nonlinear_arith)
        requires
            percent <= 100,
            0 <= last,
    ;
    assert(0 <= last * percent) by (nonlinear_arith)
        requires
            0 <= percent,
            0 <= last,
    ;
    let rank: u128 = (last * (percent as u128) + 50) / 100;
    assert(rank <= last) by (nonlinear_arith)
        requires
            rank == (last * percent + 50) / 100,
            last * percent <= last * 100,
    ;
    rank as u64
}

/// Whether the bin at `index` holds the item with this rank among the items of
/// the bins from `first` on.
pub open spec fn holds_rank<E>(
    bins: Seq<HistogramBin<E>>,
    first: int,
    index: int,
    rank: int,
) -> bool {
    &&& first <= index < bins.len()
    &&& counted(bins, first, index) <= rank < counted(bins, first, index + 1)
}

/// Counts are never negative, and more bins hold no fewer blocks.
proof fn counted_grows<E>(bins: Seq<HistogramBin<E>>, from: int, middle: int, to: int)
    requires
        from <= middle <= to,
    ensures
        0 <= counted(bins, from, middle) <= counted(bins, from, to),
    decreases to - from,
{
    if middle < to {
        counted_grows(bins, from, middle, to - 1);
    } else if from < to {
        counted_grows(bins, from, from, to - 1);
        counted_grows(bins, from, to - 1, to - 1);
    }
}

/// The blocks of two neighbouring runs of bins are those of the whole run.
proof fn counted_splits<E>(bins: Seq<HistogramBin<E>>, from: int, middle: int, to: int)
    requires
        from <= middle <= to,
    ensures
        counted(bins, from, to) == counted(bins, from, middle) + counted(bins, middle, to),
    decreases to - middle,
{
    if middle < to {
        counted_splits(bins, from, middle, to - 1);
    }
}

/// A run of empty bins holds nothing.
proof fn empty_bins_hold_nothing<E>(bins: Seq<HistogramBin<E>>, from: int, to: int)
    requires
        0 <= from,
        to <= bins.len(),
        forall|i: int| from <= i < to ==> #[trigger] bins[i].count == 0,
    ensures
        counted(bins, from, to) == 0,
    decreases to - from,
{
    if from < to {
        empty_bins_hold_nothing(bins, from, to - 1);
    }
}

/// One more block in a bin is one more block in every run with that bin.
proof fn one_more_block<E>(
    before: Seq<HistogramBin<E>>,
    after: Seq<HistogramBin<E>>,
    index: int,
    to: int,
)
    requires
        before.len() == after.len(),
        0 <= index < before.len(),
        0 <= to <= before.len(),
        after[index].count == before[index].count + 1,
        forall|i: int| 0 <= i < before.len() && i != index ==> #[trigger] after[i] == before[i],
    ensures
        counted(after, 0, to) == counted(before, 0, to) + (if index < to {
            1int
        } else {
            0int
        }),
    decreases to,
{
    if to > 0 {
        one_more_block(before, after, index, to - 1);
    }
}

/// The display buckets lie side by side: each begins where the one before ends.
proof fn spans_are_ordered(index: int, amount: int)
    requires
        0 < amount <= HISTOGRAM_BINS,
        0 <= index < amount,
    ensures
        0 <= span_start(index, amount) < span_start(index + 1, amount) <= HISTOGRAM_BINS,
        span_start(0, amount) == 0,
        span_start(amount, amount) == HISTOGRAM_BINS,
{
    let bins = HISTOGRAM_BINS as int;
    assert((index + 1) * bins == index * bins + bins) by (nonlinear_arith);
    assert(0 <= index * bins) by (nonlinear_arith)
        requires
            0 <= index,
            0 <= bins,
    ;
    assert((index + 1) * bins <= amount * bins) by (nonlinear_arith)
        requires
            index + 1 <= amount,
            0 <= bins,
    ;
    vstd::arithmetic::div_mod::lemma_div_pos_is_pos(index * bins, amount);
    vstd::arithmetic::div_mod::lemma_div_plus_one(index * bins, amount);
    vstd::arithmetic::div_mod::lemma_div_is_ordered(
        index * bins + amount,
        (index + 1) * bins,
        amount,
    );
    vstd::arithmetic::div_mod::lemma_div_is_ordered((index + 1) * bins, amount * bins, amount);
    vstd::arithmetic::div_mod::lemma_div_multiples_vanish(bins, amount);
    vstd::arithmetic::div_mod::lemma_div_basics(amount);
}

/// Every bin falls in exactly one display bucket, so the buckets together hold
/// exactly the blocks of the histogram, however many buckets there are.
pub proof fn buckets_share_out_every_block<E>(bins: Seq<HistogramBin<E>>, amount: int)
    requires
        0 < amount <= HISTOGRAM_BINS,
    ensures
        span_start(0, amount) == 0,
        span_start(amount, amount) == HISTOGRAM_BINS,
        forall|index: int|
            0 <= index < amount ==> #[trigger] span_start(index, amount) < span_start(
                index + 1,
                amount,
            ),
        shared_out(bins, amount, amount) == counted(bins, 0, HISTOGRAM_BINS as int),
{
    spans_are_ordered(0, amount);
    assert forall|index: int| 0 <= index < amount implies #[trigger] span_start(index, amount)
        < span_start(index + 1, amount) by {
        spans_are_ordered(index, amount);
    }
    shared_out_up_to(bins, amount, amount);
}

/// The first buckets together hold what the bins below them hold.
proof fn shared_out_up_to<E>(bins: Seq<HistogramBin<E>>, index: int, amount: int)
    requires
        0 <= index <= amount,
        0 < amount <= HISTOGRAM_BINS,
    ensures
        shared_out(bins, index, amount) == counted(bins, 0, span_start(index, amount)),
    decreases index,
{
    if index > 0 {
        shared_out_up_to(bins, index - 1, amount);
        spans_are_ordered(index - 1, amount);
        counted_splits(bins, 0, span_start(index - 1, amount), span_start(index, amount));
    } else {
        spans_are_ordered(0, amount);
    }
}

/// Only one bin holds an item of a given rank.
pub proof fn rank_is_in_one_bin<E>(
    bins: Seq<HistogramBin<E>>,
    first: int,
    one: int,
    other: int,
    rank: int,
)
    requires
        holds_rank(bins, first, one, rank),
        holds_rank(bins, first, other, rank),
    ensures
        one == other,
{
    if one < other {
        counted_grows(bins, first, one + 1, other);
    } else if other < one {
        counted_grows(bins, first, other + 1, one);
    }
}

/// A higher rank is never in a lower bin, so no spread between two percentiles
/// is negative.
pub proof fn ranks_are_ordered<E>(
    bins: Seq<HistogramBin<E>>,
    first: int,
    low: int,
    low_rank: int,
    high: int,
    high_rank: int,
)
    requires
        low_rank <= high_rank,
        holds_rank(bins, first, low, low_rank),
        holds_rank(bins, first, high, high_rank),
    ensures
        low <= high,
{
    if high < low {
        counted_grows(bins, first, high + 1, low);
    }
}

/// Block loudness distribution with running absolute-gate totals.
///
/// Gating needs two passes over the programme: one to find the relative
/// threshold, one to average whatever survives it. Binning by loudness makes
/// both passes independent of the programme's length.
#[derive(Debug)]
pub struct LoudnessHistogram<E> {
    bins: Vec<HistogramBin<E>>,
    absolute_sum: E,
    absolute_count: u64,
    blank: E,
}

impl<E: Copy> LoudnessHistogram<E> {
    /// Whether there are as many bins as there should be and the total is that
    /// of the bins.
    pub closed spec fn is_valid(self) -> bool {
        &&& self.bins@.len() == HISTOGRAM_BINS
        &&& counted(self.bins@, 0, HISTOGRAM_BINS as int) == self.absolute_count
    }

    /// The bins, quietest first.
    pub closed spec fn view(&self) -> Seq<HistogramBin<E>> {
        self.bins@
    }

    /// The summed energy of every block.
    pub closed spec fn sum(self) -> E {
        self.absolute_sum
    }

    /// The energy of no block.
    pub closed spec fn blank_energy(self) -> E {
        self.blank
    }

    /// How many blocks there are.
    pub closed spec fn blocks(self) -> u64 {
        self.absolute_count
    }

    /// The total is that of the bins.
    pub proof fn total_is_that_of_the_bins(self)
        requires
            self.is_valid(),
        ensures
            self@.len() == HISTOGRAM_BINS,
            counted(self@, 0, HISTOGRAM_BINS as int) == self.blocks(),
    {
    }

    /// A histogram without blocks.
    pub fn new(blank: E) -> (histogram: Self)
        ensures
            histogram.is_valid(),
            histogram.blocks() == 0,
            histogram.sum() == blank,
            histogram.blank_energy() == blank,
            forall|i: int|
                0 <= i < HISTOGRAM_BINS ==> #[trigger] histogram@[i] == (HistogramBin {
                    count: 0,
                    energy: blank,
                }),
    {
        let bins = filled(HistogramBin { count: 0, energy: blank }, HISTOGRAM_BINS);
        proof {
            empty_bins_hold_nothing(bins@, 0, HISTOGRAM_BINS as int);
        }
        LoudnessHistogram { bins, absolute_sum: blank, absolute_count: 0, blank }
    }

    /// Takes every block out.
    pub fn clear(&mut self)
        requires
            old(self).is_valid(),
        ensures
            final(self).is_valid(),
            final(self).blocks() == 0,
            final(self).sum() == old(self).blank_energy(),
            final(self).blank_energy() == old(self).blank_energy(),
            forall|i: int|
                0 <= i < HISTOGRAM_BINS ==> #[trigger] final(self)@[i] == (HistogramBin {
                    count: 0,
                    energy: old(self).blank_energy(),
                }),
    {
        let blank = self.blank;
        let mut index: usize = 0;
        while index < HISTOGRAM_BINS
            invariant
                index <= HISTOGRAM_BINS,
                self.bins@.len() == HISTOGRAM_BINS,
                self.blank == blank,
                forall|i: int|
                    0 <= i < index ==> #[trigger] self.bins@[i] == (HistogramBin {
                        count: 0,
                        energy: blank,
                    }),
            decreases HISTOGRAM_BINS - index,
        {
            self.bins[index] = HistogramBin { count: 0, energy: blank };
            index = index + 1;
        }
        self.absolute_sum = blank;
        self.absolute_count = 0;
        proof {
            empty_bins_hold_nothing(self.bins@, 0, HISTOGRAM_BINS as int);
        }
    }

    /// The bin of a block that lies so many bin widths above the quietest one counted.
    pub open spec fn slot_for(offset: usize) -> int {
        if offset < HISTOGRAM_BINS {
            offset as int
        } else {
            HISTOGRAM_BINS - 1
        }
    }

    /// A louder block is never filed lower. Blocks within the scale are filed by their
    /// loudness, and those beyond it in the top bin.
    pub proof fn louder_blocks_are_filed_higher(quieter: usize, louder: usize)
        requires
            quieter <= louder,
        ensures
            Self::slot_for(quieter) <= Self::slot_for(louder) < HISTOGRAM_BINS,
            quieter < louder < HISTOGRAM_BINS ==> Self::slot_for(quieter) < Self::slot_for(louder),
            Self::slot_for(0) == 0,
            louder < HISTOGRAM_BINS ==> Self::slot_for(louder) == louder,
            louder >= HISTOGRAM_BINS ==> Self::slot_for(louder) == HISTOGRAM_BINS - 1,
    {
    }

    /// The bin that a block belongs in which is so many bin widths above the
    /// absolute gate. Whatever is beyond the scale shares the top bin.
    pub fn slot(offset: usize) -> (index: usize)
        ensures
            index == Self::slot_for(offset),
            index == (if offset < HISTOGRAM_BINS {
                offset as int
            } else {
                HISTOGRAM_BINS - 1
            }),
    {
        if offset < HISTOGRAM_BINS {
            offset
        } else {
            HISTOGRAM_BINS - 1
        }
    }

    /// One bin.
    pub fn bin(&self, index: usize) -> (bin: HistogramBin<E>)
        requires
            self.is_valid(),
            index < HISTOGRAM_BINS,
        ensures
            bin == self@[index as int],
    {
        self.bins[index]
    }

    /// The summed energy of every block.
    pub fn absolute_sum(&self) -> (sum: E)
        ensures
            sum == self.sum(),
    {
        self.absolute_sum
    }

    /// How many blocks there are.
    pub fn absolute_count(&self) -> (count: u64)
        ensures
            count == self.blocks(),
    {
        self.absolute_count
    }

    /// Files one block, with the energy that its bin and the whole then have.
    /// Never allocates: the bins are sized at construction.
    pub fn push(&mut self, index: usize, bin_energy: E, absolute_sum: E)
        requires
            old(self).is_valid(),
            old(self).blocks() < u64::MAX,
            index < HISTOGRAM_BINS,
        ensures
            final(self).is_valid(),
            final(self).blocks() == old(self).blocks() + 1,
            final(self).sum() == absolute_sum,
            final(self).blank_energy() == old(self).blank_energy(),
            final(self)@ == old(self)@.update(
                index as int,
                HistogramBin {
                    count: (old(self)@[index as int].count + 1) as u64,
                    energy: bin_energy,
                },
            ),
            old(self)@[index as int].count < u64::MAX,
    {
        let ghost before = self.bins@;
        proof {
            counted_splits(before, 0, index as int, HISTOGRAM_BINS as int);
            counted_splits(before, index as int, index + 1, HISTOGRAM_BINS as int);
            counted_grows(before, 0, index as int, HISTOGRAM_BINS as int);
            counted_grows(before, index + 1, HISTOGRAM_BINS as int, HISTOGRAM_BINS as int);
            reveal_with_fuel(counted, 2);
            assert(counted(before, index as int, index + 1) == before[index as int].count);
        }
        let count: u64 = self.bins[index].count;
        self.bins[index] = HistogramBin { count: count + 1, energy: bin_energy };
        self.absolute_sum = absolute_sum;
        self.absolute_count = self.absolute_count + 1;
        proof {
            one_more_block(before, self.bins@, index as int, HISTOGRAM_BINS as int);
        }
    }

    /// How many blocks the bins `first..end` hold.
    pub fn count_between(&self, first: usize, end: usize) -> (count: u64)
        requires
            self.is_valid(),
            first <= end <= HISTOGRAM_BINS,
        ensures
            count == counted(self@, first as int, end as int),
    {
        proof {
            counted_splits(self.bins@, 0, first as int, HISTOGRAM_BINS as int);
            counted_grows(self.bins@, 0, first as int, HISTOGRAM_BINS as int);
        }
        let mut count: u64 = 0;
        let mut index: usize = first;
        while index < end
            invariant
                first <= index <= end <= HISTOGRAM_BINS,
                self.bins@.len() == HISTOGRAM_BINS,
                count == counted(self.bins@, first as int, index as int),
                counted(self.bins@, first as int, HISTOGRAM_BINS as int) <= u64::MAX,
            decreases end - index,
        {
            proof {
                counted_grows(self.bins@, first as int, index + 1, HISTOGRAM_BINS as int);
            }
            count = count + self.bins[index].count;
            index = index + 1;
        }
        count
    }

    /// The bin that holds the block with this rank among those of the bins from
    /// `first` on.
    pub fn bin_of_rank(&self, first: usize, rank: u64) -> (found: usize)
        requires
            self.is_valid(),
            first <= HISTOGRAM_BINS,
            rank < counted(self@, first as int, HISTOGRAM_BINS as int),
        ensures
            holds_rank(self@, first as int, found as int, rank as int),
    {
        proof {
            counted_splits(self.bins@, 0, first as int, HISTOGRAM_BINS as int);
            counted_grows(self.bins@, 0, first as int, HISTOGRAM_BINS as int);
        }
        let mut seen: u64 = 0;
        let mut index: usize = first;
        loop
            invariant
                first <= index < HISTOGRAM_BINS,
                self.bins@.len() == HISTOGRAM_BINS,
                seen == counted(self.bins@, first as int, index as int),
                seen <= rank,
                rank < counted(self.bins@, first as int, HISTOGRAM_BINS as int) <= u64::MAX,
            decreases HISTOGRAM_BINS - index,
        {
            proof {
                counted_grows(self.bins@, first as int, index + 1, HISTOGRAM_BINS as int);
            }
            let next: u64 = seen + self.bins[index].count;
            if next > rank {
                return index;
            }
            seen = next;
            index = index + 1;
        }
    }

    /// The bins of the tenth and the ninety-fifth percentile of the blocks from
    /// the bin `first` on, which is the lowest one above the relative gate.
    pub fn range(&self, first: usize) -> (bounds: Option<(usize, usize)>)
        requires
            self.is_valid(),
            first <= HISTOGRAM_BINS,
        ensures
            match bounds {
                None => counted(self@, first as int, HISTOGRAM_BINS as int) == 0,
                Some((low, high)) => {
                    let kept = counted(self@, first as int, HISTOGRAM_BINS as int);
                    &&& kept > 0
                    &&& holds_rank(self@, first as int, low as int, range_places(kept).0)
                    &&& holds_rank(self@, first as int, high as int, range_places(kept).1)
                    &&& holds_rank(self@, first as int, low as int, percentile_place(kept, 10))
                    &&& holds_rank(self@, first as int, high as int, percentile_place(kept, 95))
                    &&& low <= high
                },
            },
    {
        let kept: u64 = self.count_between(first, HISTOGRAM_BINS);
        if kept == 0 {
            return None;
        }
        let low_rank: u64 = percentile_rank(kept, 10);
        let high_rank: u64 = percentile_rank(kept, 95);
        let low: usize = self.bin_of_rank(first, low_rank);
        let high: usize = self.bin_of_rank(first, high_rank);
        proof {
            let last = kept - 1;
            assert(last * 10 + 50 <= last * 95 + 50) by (nonlinear_arith)
                requires
                    last >= 0,
            ;
            vstd::arithmetic::div_mod::lemma_div_is_ordered(last * 10 + 50, last * 95 + 50, 100);
            ranks_are_ordered(
                self@,
                first as int,
                low as int,
                low_rank as int,
                high as int,
                high_rank as int,
            );
        }
        Some((low, high))
    }

    /// Shares the bins out over the destination, or over as much of it as there
    /// are bins.
    pub fn copy_resampled(&self, destination: &mut [HistogramSpan]) -> (amount: usize)
        requires
            self.is_valid(),
        ensures
            amount == (if old(destination)@.len() < HISTOGRAM_BINS {
                old(destination)@.len() as int
            } else {
                HISTOGRAM_BINS as int
            }),
            final(destination)@.len() == old(destination)@.len(),
            forall|i: int|
                0 <= i < amount ==> {
                    let bucket = #[trigger] final(destination)@[i];
                    &&& bucket.first == span_start(i, amount as int)
                    &&& bucket.end == span_start(i + 1, amount as int)
                    &&& bucket.count == counted(self@, bucket.first as int, bucket.end as int)
                },
            forall|i: int|
                amount <= i < old(destination)@.len() ==> #[trigger] final(destination)@[i]
                    == old(destination)@[i],
    {
        let ghost before = destination@;
        let amount: usize = if destination.len() < HISTOGRAM_BINS {
            destination.len()
        } else {
            HISTOGRAM_BINS
        };
        let mut index: usize = 0;
        while index < amount
            invariant
                self.is_valid(),
                index <= amount <= HISTOGRAM_BINS,
                amount <= destination@.len(),
                destination@.len() == before.len(),
                forall|i: int|
                    0 <= i < index ==> {
                        let bucket = #[trigger] destination@[i];
                        &&& bucket.first == span_start(i, amount as int)
                        &&& bucket.end == span_start(i + 1, amount as int)
                        &&& bucket.count == counted(self@, bucket.first as int, bucket.end as int)
                    },
                forall|i: int| amount <= i < before.len() ==> #[trigger] destination@[i] == before[i],
            decreases amount - index,
        {
            proof {
                spans_are_ordered(index as int, amount as int);
                assert(index * HISTOGRAM_BINS <= 801 * 801 && (index + 1) * HISTOGRAM_BINS <= 801
                    * 801);
            }
            let first: usize = index * HISTOGRAM_BINS / amount;
            let end: usize = (index + 1) * HISTOGRAM_BINS / amount;
            let count: u64 = self.count_between(first, end);
            destination[index] = HistogramSpan { first, end, count };
            index = index + 1;
        }
        amount
    }
}

/// A percentile's place is the nearest whole place to its share of the way from the
/// first item to the last: at most half a place away. It never goes down as the
/// percentile goes up, and runs from the first item to the last.
pub proof fn percentiles_are_rounded_to_the_nearest(total: int, percent: int, higher: int)
    requires
        0 < total,
        0 <= percent <= higher <= 100,
    ensures
        (total - 1) * percent - 50 < 100 * percentile_place(total, percent) <= (total - 1) * percent
            + 50,
        0 <= percentile_place(total, percent) <= percentile_place(total, higher) < total,
        percentile_place(total, 0) == 0,
        percentile_place(total, 100) == total - 1,
{
    let last = total - 1;
    assert(0 <= last * percent <= last * higher <= last * 100) by (nonlinear_arith)
        requires
            0 <= last,
            0 <= percent <= higher <= 100,
    ;
    assert(last * 0 == 0);
    vstd::arithmetic::div_mod::lemma_div_is_ordered(last * percent + 50, last * higher + 50, 100);
}

/// Display buckets are shared out evenly: each begins with the last bin whose share of
/// the way up the scale is no greater than that of the bucket. With as many buckets as
/// bins, every bucket is its own bin.
pub proof fn buckets_are_even(index: int, amount: int)
    requires
        0 < amount <= HISTOGRAM_BINS,
        0 <= index <= amount,
    ensures
        span_start(index, amount) * amount <= index * HISTOGRAM_BINS < (span_start(index, amount)
            + 1) * amount,
        amount == HISTOGRAM_BINS ==> span_start(index, amount) == index,
{
    let bins = HISTOGRAM_BINS as int;
    let start = span_start(index, amount);
    vstd::arithmetic::div_mod::lemma_fundamental_div_mod(index * bins, amount);
    vstd::arithmetic::div_mod::lemma_mod_bound(index * bins, amount);
    assert(amount * start == start * amount) by (nonlinear_arith);
    assert((start + 1) * amount == start * amount + amount) by (nonlinear_arith);
    if amount == bins {
        vstd::arithmetic::div_mod::lemma_div_by_multiple(index, bins);
    }
}

/// A run of bins holds the blocks of each of its bins, once.
pub proof fn runs_hold_the_blocks_of_their_bins<E>(
    bins: Seq<HistogramBin<E>>,
    from: int,
    middle: int,
    to: int,
)
    requires
        from <= middle <= to,
    ensures
        counted(bins, from, from) == 0,
        counted(bins, middle, middle + 1) == bins[middle].count,
        counted(bins, from, to) == counted(bins, from, middle) + counted(bins, middle, to),
{
    reveal_with_fuel(counted, 2);
    counted_splits(bins, from, middle, to);
}

} // verus!
