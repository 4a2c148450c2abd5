//! Evenly spaced picks from a longer row.
use vstd::prelude::*;

verus! {

/// The source of a drawn point when `count` points are picked from `len`: all
/// of them where they fit, else an even spread from the first to the last.
pub open spec fn spaced(index: int, count: int, len: int) -> int {
    if count <= 1 || len <= count {
        index
    } else {
        index * (len - 1) / (count - 1)
    }
}

/// The source of a displayed point when a row is stretched or squeezed onto
/// `output` points: from the first to the last.
pub open spec fn stretched(index: int, output: int, input: int) -> int {
    if input <= 1 || output <= 1 {
        0
    } else {
        index * (input - 1) / (output - 1)
    }
}

/// How many of `len` points are drawn.
pub open spec fn drawn(len: int, limit: int) -> int {
    if len < limit {
        len
    } else {
        limit
    }
}

/// A spread from the first to the last stays inside and moves forward.
proof fn spread_bounds(index: int, count: int, len: int)
    requires
        1 < count,
        1 <= len,
        0 <= index < count,
    ensures
        0 <= index * (len - 1) / (count - 1) < len,
        0 * (len - 1) / (count - 1) == 0,
        (count - 1) * (len - 1) / (count - 1) == len - 1,
        len >= count && index + 1 < count ==> index * (len - 1) / (count - 1) < (index + 1) * (len
            - 1) / (count - 1),
{
    let steps = count - 1;
    let last = len - 1;
    assert(0 <= index * last <= steps * last) by (nonlinear_arith)
        requires
            0 <= index <= steps,
            0 <= last,
    ;
    vstd::arithmetic::div_mod::lemma_div_pos_is_pos(index * last, steps);
    vstd::arithmetic::div_mod::lemma_div_is_ordered(index * last, steps * last, steps);
    assert(steps * last == last * steps) by (nonlinear_arith);
    vstd::arithmetic::div_mod::lemma_div_multiples_vanish(last, steps);
    vstd::arithmetic::div_mod::lemma_div_basics(steps);
    assert(0 * last == 0);
    if len >= count {
        assert((index + 1) * last == index * last + last) by (nonlinear_arith);
        vstd::arithmetic::div_mod::lemma_div_plus_one(index * last, steps);
        vstd::arithmetic::div_mod::lemma_div_is_ordered(
            index * last + steps,
            index * last + last,
            steps,
        );
    }
}

/// Picked points run from the first to the last of the row in order, inside the
/// row, and none is picked twice.
pub proof fn picks_are_in_order(index: int, later: int, count: int, len: int)
    requires
        0 <= index < later < count <= len,
    ensures
        0 <= spaced(index, count, len) < spaced(later, count, len) < len,
        spaced(0, count, len) == 0,
        spaced(count - 1, count, len) == len - 1,
    decreases later - index,
{
    if len > count {
        spread_bounds(index, count, len);
        spread_bounds(later, count, len);
        if later > index + 1 {
            picks_are_in_order(index + 1, later, count, len);
        }
    }
}

/// A stretched row shows its first point first and its last point last, and
/// never reaches past its end.
pub proof fn stretching_keeps_the_ends(index: int, output: int, input: int)
    requires
        0 <= index < output,
        0 < input,
    ensures
        0 <= stretched(index, output, input) < input,
        stretched(0, output, input) == 0,
        output > 1 ==> stretched(output - 1, output, input) == input - 1,
{
    if input > 1 && output > 1 {
        spread_bounds(index, output, input);
    }
}

/// No more is drawn than there is, nor than the limit allows, and nothing is left
/// out that fits.
pub proof fn as_much_is_drawn_as_fits(len: int, limit: int)
    ensures
        drawn(len, limit) <= len,
        drawn(len, limit) <= limit,
        drawn(len, limit) == len || drawn(len, limit) == limit,
{
}

/// Picks are spread evenly: each is the last point of the row whose share of the
/// way to the end is no greater than that of the drawn point. A row that fits is
/// picked point for point.
pub proof fn picks_are_even(index: int, count: int, len: int)
    requires
        0 <= index < count <= len,
    ensures
        spaced(index, count, len) * (count - 1) <= index * (len - 1),
        count > 1 ==> index * (len - 1) < (spaced(index, count, len) + 1) * (count - 1),
        count == len ==> spaced(index, count, len) == index,
        index == 0 ==> spaced(index, count, len) == 0,
        0 <= spaced(index, count, len) < len,
{
    if count > 1 {
        spread_bounds(index, count, len);
        share_bounds(index, count - 1, len - 1);
        if count == len {
            vstd::arithmetic::div_mod::lemma_div_by_multiple(index, len - 1);
        }
    } else {
        assert(index * (len - 1) == 0) by (nonlinear_arith)
            requires
                index == 0,
        ;
    }
}

/// What a share of a row is rounded down to.
proof fn share_bounds(index: int, steps: int, last: int)
    requires
        steps > 0,
    ensures
        index * last / steps * steps <= index * last,
        index * last < (index * last / steps + 1) * steps,
{
    let whole = index * last / steps;
    vstd::arithmetic::div_mod::lemma_fundamental_div_mod(index * last, steps);
    vstd::arithmetic::div_mod::lemma_mod_bound(index * last, steps);
    assert(steps * whole == whole * steps) by (nonlinear_arith);
    assert((whole + 1) * steps == whole * steps + steps) by (nonlinear_arith);
}

/// A stretched row is spread evenly and never goes back; one that has as many points
/// as are displayed is shown point for point.
pub proof fn stretching_is_even(index: int, later: int, output: int, input: int)
    requires
        0 <= index <= later < output,
        0 < input,
    ensures
        stretched(index, output, input) <= stretched(later, output, input),
        stretched(index, output, input) * (output - 1) <= index * (input - 1),
        output > 1 ==> index * (input - 1) < (stretched(index, output, input) + 1) * (output - 1),
        input == output ==> stretched(index, output, input) == index,
{
    if input > 1 && output > 1 {
        share_bounds(index, output - 1, input - 1);
        assert(index * (input - 1) <= later * (input - 1)) by (nonlinear_arith)
            requires
                index <= later,
                0 < input - 1,
        ;
        vstd::arithmetic::div_mod::lemma_div_is_ordered(
            index * (input - 1),
            later * (input - 1),
            output - 1,
        );
        if input == output {
            vstd::arithmetic::div_mod::lemma_div_by_multiple(index, input - 1);
        }
    } else {
        assert(0 <= index * (input - 1)) by (nonlinear_arith)
            requires
                0 <= index,
                0 < input,
        ;
        assert(index * (input - 1) == 0) by (nonlinear_arith)
            requires
                index == 0 || input == 1,
        ;
    }
}

/// A product over a divisor, in a wider type.
fn share(index: usize, factor: usize, divisor: usize) -> (result: u128)
    requires
        divisor > 0,
    ensures
        result == index * factor / divisor as int,
{
    assert(0 <= index * factor <= u64::MAX * u64::MAX) by (nonlinear_arith)
        requires
            0 <= index <= u64::MAX,
            0 <= factor <= u64::MAX,
    ;
    (index as u128) * (factor as u128) / (divisor as u128)
}

/// How many of `len` points are drawn.
pub fn bounded_count(len: usize, limit: usize) -> (count: usize)
    ensures
        count == drawn(len as int, limit as int),
{
    if len < limit {
        len
    } else {
        limit
    }
}

/// The source of a drawn point when `count` points are picked from `len`.
pub fn bounded_index(index: usize, count: usize, len: usize) -> (source: usize)
    requires
        index < count,
    ensures
        source == spaced(index as int, count as int, len as int),
        count <= len ==> source < len,
{
    if count <= 1 || len <= count {
        index
    } else {
        proof {
            spread_bounds(index as int, count as int, len as int);
        }
        share(index, len - 1, count - 1) as usize
    }
}

/// The source of a displayed point when a row is stretched or squeezed onto
/// `output` points.
pub fn evenly_spaced_index(index: usize, output: usize, input: usize) -> (source: usize)
    requires
        index < output,
    ensures
        source == stretched(index as int, output as int, input as int),
        input > 0 ==> source < input,
{
    if input <= 1 || output <= 1 {
        0
    } else {
        proof {
            spread_bounds(index as int, output as int, input as int);
        }
        share(index, input - 1, output - 1) as usize
    }
}

} // verus!
