//! Which part of the retained audio an oscilloscope shows.
use crate::scope::config::{OscilloscopeCycles, OscilloscopeMode};
use vstd::prelude::*;

verus! {

/// Where a sample lies, seen from the trigger's two thresholds.
#[derive(Clone, Copy, Debug, PartialEq, Eq, Structural)]
pub enum TriggerLevel {
    /// At or below the lower threshold.
    Low,
    /// Between the thresholds.
    Middle,
    /// At or above the upper threshold.
    High,
}

/// Whether the signal rises through both thresholds at a sample.
pub open spec fn is_crossing(levels: Seq<TriggerLevel>, index: int) -> bool {
    &&& 1 <= index < levels.len()
    &&& levels[index - 1] == TriggerLevel::Low
    &&& levels[index] == TriggerLevel::High
}

/// The last crossing in front of a sample.
pub open spec fn last_crossing(levels: Seq<TriggerLevel>, before: int) -> Option<int>
    decreases before,
{
    if before <= 0 {
        None
    } else if is_crossing(levels, before - 1) {
        Some(before - 1)
    } else {
        last_crossing(levels, before - 1)
    }
}

/// The part of the audio between a trigger and the crossing it ends at: where
/// it starts and how many frames it has. It spans one period, or up to three,
/// of the last two crossings.
pub open spec fn pitch_window(levels: Seq<TriggerLevel>, cycles: OscilloscopeCycles) -> Option<
    (int, int),
> {
    if levels.len() < 4 {
        None
    } else {
        match last_crossing(levels, levels.len() as int) {
            None => None,
            Some(latest) => match last_crossing(levels, latest) {
                None => None,
                Some(prior) => {
                    let requested = match cycles {
                        OscilloscopeCycles::Single => latest - prior,
                        OscilloscopeCycles::Multi => 3 * (latest - prior),
                    };
                    let start = if requested < latest {
                        latest - requested
                    } else {
                        0
                    };
                    Some((start, latest - start))
                },
            },
        }
    }
}

/// A crossing that is the last one in front of a sample is a crossing there,
/// and two crossings are at least two samples apart.
proof fn crossings_apart(levels: Seq<TriggerLevel>, before: int)
    requires
        0 <= before <= levels.len(),
    ensures
        match last_crossing(levels, before) {
            Some(index) => index < before && is_crossing(levels, index),
            None => true,
        },
    decreases before,
{
    if before > 0 && !is_crossing(levels, before - 1) {
        crossings_apart(levels, before - 1);
    }
}

/// Where no sample from a place on is a crossing, the last crossing in front of
/// either end is the same.
proof fn crossings_skip(levels: Seq<TriggerLevel>, from: int, before: int)
    requires
        0 <= from <= before <= levels.len(),
        forall|i: int| from <= i < before ==> !#[trigger] is_crossing(levels, i),
    ensures
        last_crossing(levels, before) == last_crossing(levels, from),
    decreases before - from,
{
    if from < before {
        assert(!is_crossing(levels, before - 1));
        crossings_skip(levels, from, before - 1);
    }
}

/// A triggered part ends at the latest sample where the signal rises through both
/// thresholds. It is as long as the distance between the last two such samples, or
/// three times as long where so many frames lie in front of the latest one; where
/// they do not, it starts with the first frame.
pub proof fn triggered_part_spans_whole_periods(
    levels: Seq<TriggerLevel>,
    cycles: OscilloscopeCycles,
    prior: int,
    latest: int,
)
    requires
        1 <= prior < latest < levels.len(),
        levels[prior - 1] == TriggerLevel::Low && levels[prior] == TriggerLevel::High,
        levels[latest - 1] == TriggerLevel::Low && levels[latest] == TriggerLevel::High,
        forall|i: int|
            prior < i < levels.len() && i != latest ==> !(#[trigger] levels[i]
                == TriggerLevel::High && levels[i - 1] == TriggerLevel::Low),
    ensures
        match pitch_window(levels, cycles) {
            Some((start, frames)) => {
                &&& 0 <= start
                &&& start + frames == latest
                &&& cycles == OscilloscopeCycles::Single ==> frames == latest - prior
                &&& cycles == OscilloscopeCycles::Multi && 3 * (latest - prior) <= latest ==> frames
                    == 3 * (latest - prior)
                &&& cycles == OscilloscopeCycles::Multi && 3 * (latest - prior) > latest ==> start
                    == 0
            },
            None => false,
        },
{
    assert(prior != latest - 1);
    assert(levels.len() >= 4);
    assert forall|i: int| latest < i < levels.len() implies !#[trigger] is_crossing(levels, i) by {
        assert(levels[i] == levels[i]);
    }
    assert forall|i: int| prior < i < latest implies !#[trigger] is_crossing(levels, i) by {
        assert(levels[i] == levels[i]);
    }
    crossings_skip(levels, latest + 1, levels.len() as int);
    crossings_skip(levels, prior + 1, latest);
    assert(is_crossing(levels, latest));
    assert(is_crossing(levels, prior));
    assert(last_crossing(levels, latest + 1) == Some(latest));
    assert(last_crossing(levels, prior + 1) == Some(prior));
}

/// Without a second sample where the signal rises through both thresholds there is
/// no triggered part.
pub proof fn one_crossing_triggers_nothing(
    levels: Seq<TriggerLevel>,
    cycles: OscilloscopeCycles,
    only: int,
)
    requires
        forall|i: int|
            1 <= i < levels.len() && i != only ==> !(#[trigger] levels[i] == TriggerLevel::High
                && levels[i - 1] == TriggerLevel::Low),
    ensures
        pitch_window(levels, cycles) is None,
{
    if pitch_window(levels, cycles) is Some {
        crossings_apart(levels, levels.len() as int);
        let latest = last_crossing(levels, levels.len() as int)->0;
        crossings_apart(levels, latest);
        let prior = last_crossing(levels, latest)->0;
        assert(is_crossing(levels, latest) && is_crossing(levels, prior));
        assert(levels[prior] == TriggerLevel::High && levels[latest] == TriggerLevel::High);
    }
}

/// The last crossing in front of a sample is the last one there.
proof fn crossing_is_last(levels: Seq<TriggerLevel>, before: int, other: int)
    requires
        0 <= before <= levels.len(),
        0 <= other < before,
        is_crossing(levels, other),
    ensures
        last_crossing(levels, before) is Some,
        last_crossing(levels, before)->0 >= other,
    decreases before,
{
    if !is_crossing(levels, before - 1) {
        crossing_is_last(levels, before - 1, other);
    }
}

/// Of a signal that repeats itself, a triggered part shows at most one period, or
/// at most three.
pub proof fn triggered_part_of_a_repeating_signal(
    levels: Seq<TriggerLevel>,
    cycles: OscilloscopeCycles,
    period: int,
)
    requires
        0 < period,
        forall|i: int, j: int|
            0 <= i < j < levels.len() && j - i == period ==> #[trigger] levels[i]
                == #[trigger] levels[j],
    ensures
        match pitch_window(levels, cycles) {
            Some((start, frames)) => frames <= 3 * period && (cycles == OscilloscopeCycles::Single
                ==> frames <= period),
            None => true,
        },
{
    if pitch_window(levels, cycles) is Some {
        crossings_apart(levels, levels.len() as int);
        let latest = last_crossing(levels, levels.len() as int)->0;
        crossings_apart(levels, latest);
        let earlier = latest - period;
        if earlier >= 1 {
            assert(levels[earlier] == levels[latest]);
            assert(levels[earlier - 1] == levels[latest - 1]);
            assert(is_crossing(levels, earlier));
            crossing_is_last(levels, latest, earlier);
        }
    }
}

/// Finds the part of the audio that a triggered oscilloscope shows.
pub fn pitch_oscilloscope_window(levels: &[TriggerLevel], cycles: OscilloscopeCycles) -> (window:
    Option<(usize, usize)>)
    ensures
        match window {
            Some((start, frames)) => {
                &&& pitch_window(levels@, cycles) == Some((start as int, frames as int))
                &&& 2 <= frames
                &&& start + frames < levels@.len()
            },
            None => pitch_window(levels@, cycles) is None,
        },
{
    if levels.len() < 4 {
        return None;
    }
    let mut prior: Option<usize> = None;
    let mut latest: Option<usize> = None;
    let mut index: usize = 1;
    proof {
        reveal_with_fuel(last_crossing, 2);
    }
    while index < levels.len()
        invariant
            1 <= index <= levels@.len(),
            match last_crossing(levels@, index as int) {
                Some(place) => latest == Some(place as usize) && 0 <= place < index && match last_crossing(
                    levels@,
                    place,
                ) {
                    Some(earlier) => prior == Some(earlier as usize) && 0 <= earlier < place,
                    None => prior is None,
                },
                None => latest is None && prior is None,
            },
        decreases levels@.len() - index,
    {
        if levels[index - 1] == TriggerLevel::Low && levels[index] == TriggerLevel::High {
            assert(is_crossing(levels@, index as int));
            prior = latest;
            latest = Some(index);
        } else {
            assert(!is_crossing(levels@, index as int));
        }
        index = index + 1;
    }
    proof {
        crossings_apart(levels@, levels@.len() as int);
    }
    match (prior, latest) {
        (Some(prior), Some(latest)) => {
            proof {
                crossings_apart(levels@, latest as int);
                assert(is_crossing(levels@, latest as int));
                assert(is_crossing(levels@, prior as int));
                assert(latest - prior >= 2);
            }
            let period: usize = latest - prior;
            let start: usize = match cycles {
                OscilloscopeCycles::Single => latest - period,
                OscilloscopeCycles::Multi => if period <= latest / 3 {
                    latest - 3 * period
                } else {
                    0
                },
            };
            Some((start, latest - start))
        },
        _ => None,
    }
}

/// The part of the retained audio that an oscilloscope of `amount` points
/// shows: the triggered part, or else the newest frames as they came.
pub fn oscilloscope_window(
    mode: OscilloscopeMode,
    count: usize,
    amount: usize,
    triggered: Option<(usize, usize)>,
) -> (window: (usize, usize))
    requires
        amount <= count,
    ensures
        window == (match (mode, triggered) {
            (OscilloscopeMode::Pitch, Some(found)) => found,
            _ => ((count - amount) as usize, amount),
        }),
{
    match (mode, triggered) {
        (OscilloscopeMode::Pitch, Some(found)) => found,
        _ => (count - amount, amount),
    }
}

/// The part of `count` frames that `amount` points show: the triggered part, or
/// else the newest frames as they came.
pub open spec fn shown_window(
    mode: OscilloscopeMode,
    count: int,
    amount: int,
    triggered: Option<(int, int)>,
) -> (int, int) {
    match (mode, triggered) {
        (OscilloscopeMode::Pitch, Some(found)) => found,
        _ => (count - amount, amount),
    }
}

/// What no trigger chose ends with the newest frame and has a frame for every
/// point; what a trigger chose is shown in pitch mode and in no other.
pub proof fn untriggered_part_is_the_newest(
    mode: OscilloscopeMode,
    count: int,
    amount: int,
    triggered: Option<(int, int)>,
)
    requires
        0 <= amount <= count,
    ensures
        ({
            let (start, frames) = shown_window(mode, count, amount, triggered);
            &&& mode != OscilloscopeMode::Pitch || triggered is None ==> start + frames == count
                && frames == amount
            &&& mode == OscilloscopeMode::Pitch && triggered is Some ==> Some((start, frames))
                == triggered
        }),
{
}

/// The two source frames between which the point at `index` lies, counted from
/// the start of the shown part. A single point, or a single frame, shows the
/// first frame.
pub open spec fn places(index: int, amount: int, frames: int) -> (int, int) {
    if amount <= 1 || frames <= 1 {
        (0, 0)
    } else {
        let first = (index * (frames - 1)) / (amount - 1);
        (
            first,
            if first + 1 < frames {
                first + 1
            } else {
                frames - 1
            },
        )
    }
}

/// The two neighbouring source frames between which a drawn point lies, where
/// `amount` points are spread evenly over `frames` frames.
pub fn neighbours(index: usize, amount: usize, frames: usize) -> (pair: (usize, usize))
    requires
        index < amount,
        1 < amount,
        1 < frames,
    ensures
        pair.0 == (index * (frames - 1)) / (amount - 1),
        pair.0 < frames,
        pair.1 == (if pair.0 + 1 < frames {
            pair.0 + 1
        } else {
            frames - 1
        }),
{
    proof {
        let width = frames as int - 1;
        assert(0 <= index * width <= 0xffff_ffff_ffff_ffff * 0xffff_ffff_ffff_ffff)
            by (nonlinear_arith)
            requires
                0 <= index <= 0xffff_ffff_ffff_ffff,
                0 <= width <= 0xffff_ffff_ffff_ffff,
        ;
        spread_bounds(index as int, amount as int - 1, width);
    }
    let wide: u128 = index as u128 * (frames - 1) as u128;
    let first: usize = (wide / (amount - 1) as u128) as usize;
    let second: usize = if first + 1 < frames {
        first + 1
    } else {
        frames - 1
    };
    (first, second)
}

/// Spreading keeps within the source.
proof fn spread_bounds(index: int, last: int, width: int)
    requires
        0 <= index <= last,
        0 < last,
        0 <= width,
    ensures
        0 <= (index * width) / last <= width,
{
    assert(0 <= index * width <= last * width) by (nonlinear_arith)
        requires
            0 <= index <= last,
            0 <= width,
    ;
    vstd::arithmetic::div_mod::lemma_div_pos_is_pos(index * width, last);
    vstd::arithmetic::div_mod::lemma_div_is_ordered(index * width, last * width, last);
    vstd::arithmetic::div_mod::lemma_div_by_multiple(width, last);
    assert(last * width == width * last) by (nonlinear_arith);
}

/// A drawn point lies between two neighbouring frames of the shown part, or on its
/// last frame. Points run from the first frame to the last without going back, and
/// each stands where its share of the way from the first point to the last is its
/// share of the way through the frames.
pub proof fn points_follow_the_frames(earlier: int, later: int, amount: int, frames: int)
    requires
        0 <= earlier <= later < amount,
        1 < amount,
        1 < frames,
    ensures
        ({
            let (first, second) = places(earlier, amount, frames);
            &&& 0 <= first <= second < frames
            &&& second == first + 1 || first == second == frames - 1
            &&& first * (amount - 1) <= earlier * (frames - 1) < (first + 1) * (amount - 1)
            &&& first <= places(later, amount, frames).0
            &&& earlier == 0 ==> first == 0
            &&& earlier == amount - 1 ==> first == frames - 1
            &&& amount == frames ==> first == earlier
        }),
{
    let width = frames - 1;
    let last = amount - 1;
    points_span_the_window(earlier, later, amount, frames);
    spread_bounds(earlier, last, width);
    let first = (earlier * width) / last;
    vstd::arithmetic::div_mod::lemma_fundamental_div_mod(earlier * width, last);
    vstd::arithmetic::div_mod::lemma_mod_bound(earlier * width, last);
    assert(last * first == first * last) by (nonlinear_arith);
    assert((first + 1) * last == first * last + last) by (nonlinear_arith);
    if amount == frames {
        vstd::arithmetic::div_mod::lemma_div_by_multiple(earlier, last);
    }
}

/// The spread points run from the first frame to the last, without going back.
pub proof fn points_span_the_window(earlier: int, later: int, amount: int, frames: int)
    requires
        0 <= earlier <= later < amount,
        1 < amount,
        1 < frames,
    ensures
        (0 * (frames - 1)) / (amount - 1) == 0,
        ((amount - 1) * (frames - 1)) / (amount - 1) == frames - 1,
        (earlier * (frames - 1)) / (amount - 1) <= (later * (frames - 1)) / (amount - 1),
{
    let width = frames - 1;
    let last = amount - 1;
    vstd::arithmetic::div_mod::lemma_div_by_multiple(width, last);
    assert(last * width == width * last) by (nonlinear_arith);
    assert(earlier * width <= later * width) by (nonlinear_arith)
        requires
            earlier <= later,
            0 <= width,
    ;
    vstd::arithmetic::div_mod::lemma_div_is_ordered(earlier * width, later * width, last);
    vstd::arithmetic::div_mod::lemma_div_of0(last);
}

} // verus!
