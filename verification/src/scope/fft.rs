//! The places that a fast Fourier transform reads and writes, and the bins that
//! a display band covers.
use vstd::arithmetic::power::pow;
use vstd::arithmetic::power2::{lemma_pow2_pos, lemma_pow2_unfold, pow2};
use vstd::prelude::*;

verus! {

/// The number whose lowest binary digits are those of `value` in reverse.
pub open spec fn reversed(value: nat, digits: nat) -> nat
    decreases digits,
{
    if digits == 0 {
        0
    } else {
        (value % 2) * pow2((digits - 1) as nat) + reversed(value / 2, (digits - 1) as nat)
    }
}

/// Reversed digits stay below the power of two.
pub proof fn reversed_is_bounded(value: nat, digits: nat)
    ensures
        reversed(value, digits) < pow2(digits),
    decreases digits,
{
    lemma_pow2_pos(digits);
    if digits > 0 {
        let fewer = (digits - 1) as nat;
        reversed_is_bounded(value / 2, fewer);
        lemma_pow2_unfold(digits);
        let power = pow2(fewer);
        assert((value % 2) * power <= power) by (nonlinear_arith)
            requires
                value % 2 <= 1,
                power >= 0,
        ;
    }
}

/// A digit in front becomes the lowest digit.
proof fn reversed_front(high: nat, low: nat, digits: nat)
    requires
        digits > 0,
        high <= 1,
        low < pow2((digits - 1) as nat),
    ensures
        reversed((high * pow2((digits - 1) as nat) + low) as nat, digits) == reversed(
            low,
            (digits - 1) as nat,
        ) * 2 + high,
    decreases digits,
{
    let fewer = (digits - 1) as nat;
    let value = (high * pow2(fewer) + low) as nat;
    if fewer == 0 {
        vstd::arithmetic::power2::lemma2_to64();
        assert(low == 0);
        assert(value == high);
        assert(reversed(value / 2, 0) == 0);
        assert(reversed(low, 0) == 0);
        assert(pow2(0) == 1);
        assert((value % 2) * 1 == value % 2);
    } else {
        let least = (fewer - 1) as nat;
        let power = pow2(least);
        lemma_pow2_unfold(fewer);
        assert(pow2(fewer) == 2 * power);
        let inner = (high * power + low / 2) as nat;
        assert(high * (2 * power) == 2 * (high * power)) by (nonlinear_arith);
        assert(value == 2 * (high * power) + low);
        assert(value % 2 == low % 2);
        assert(value / 2 == inner);
        assert(low / 2 < power);
        reversed_front(high, low / 2, fewer);
        assert(reversed(value, digits) == (low % 2) * pow2(fewer) + reversed(inner, fewer));
        assert(reversed(inner, fewer) == reversed(low / 2, least) * 2 + high);
        assert((low % 2) * (2 * power) == 2 * ((low % 2) * power)) by (nonlinear_arith);
        assert(reversed(low, fewer) == (low % 2) * power + reversed(low / 2, least));
    }
}

/// Reversing twice gives the number back: the reversal is a permutation of the
/// places, and its own inverse.
pub proof fn reversal_undoes_itself(value: nat, digits: nat)
    requires
        value < pow2(digits),
    ensures
        reversed(reversed(value, digits), digits) == value,
    decreases digits,
{
    if digits == 0 {
        vstd::arithmetic::power2::lemma2_to64();
    } else {
        let fewer = (digits - 1) as nat;
        lemma_pow2_unfold(digits);
        assert(value / 2 < pow2(fewer));
        reversal_undoes_itself(value / 2, fewer);
        reversed_is_bounded(value / 2, fewer);
        reversed_front(value % 2, reversed(value / 2, fewer), digits);
    }
}

/// The digits stand in reverse: the digit at a place is the one as far from the
/// other end.
pub proof fn digits_are_mirrored(value: nat, digits: nat, place: nat)
    requires
        place < digits,
    ensures
        (reversed(value, digits) / pow2(place)) % 2 == (value / pow2(
            (digits - 1 - place) as nat,
        )) % 2,
    decreases digits,
{
    let fewer = (digits - 1) as nat;
    let rest = reversed(value / 2, fewer);
    let lowest = value % 2;
    reversed_is_bounded(value / 2, fewer);
    lemma_pow2_pos(place);
    lemma_pow2_pos(fewer);
    if place == fewer {
        vstd::arithmetic::power2::lemma2_to64();
        let power = pow2(fewer) as int;
        vstd::arithmetic::div_mod::lemma_fundamental_div_mod_converse(
            lowest * power + rest,
            power,
            lowest as int,
            rest as int,
        );
        assert(value as int / 1 == value);
    } else {
        let gap = (fewer - place) as nat;
        let unit = pow2(place) as int;
        let half = pow2((gap - 1) as nat) as int;
        digits_are_mirrored(value / 2, fewer, place);
        vstd::arithmetic::power2::lemma_pow2_adds(gap, place);
        lemma_pow2_unfold(gap);
        lemma_pow2_pos((gap - 1) as nat);
        assert(lowest * pow2(fewer) == (lowest * (2 * half)) * unit) by (nonlinear_arith)
            requires
                pow2(fewer) == (2 * half) * unit,
        ;
        let shifted = lowest * (2 * half);
        vstd::arithmetic::div_mod::lemma_fundamental_div_mod(rest as int, unit);
        let quotient = rest as int / unit;
        vstd::arithmetic::div_mod::lemma_mod_bound(rest as int, unit);
        assert(shifted * unit + rest == (shifted + quotient) * unit + rest % pow2(place))
            by (nonlinear_arith)
            requires
                rest as int == unit * quotient + rest % pow2(place),
        ;
        vstd::arithmetic::div_mod::lemma_fundamental_div_mod_converse(
            shifted * unit + rest,
            unit,
            shifted + quotient,
            rest as int % unit,
        );
        assert(shifted == 2 * (lowest * half)) by (nonlinear_arith)
            requires
                shifted == lowest * (2 * half),
        ;
        assert((shifted + quotient) % 2 == quotient % 2);
        let lower = pow2((gap - 1) as nat);
        vstd::arithmetic::div_mod::lemma_div_denominator(value as int, 2, lower as int);
        assert((value / 2) / lower == value / pow2(gap));
    }
}

/// A word holds every number of as many binary digits as it has.
proof fn words_hold_their_bits(digits: nat)
    requires
        digits <= usize::BITS,
    ensures
        pow2(digits) <= usize::MAX + 1,
{
    vstd::arithmetic::power2::lemma2_to64();
    vstd::layout::unsigned_int_max_values();
    if digits < usize::BITS {
        vstd::arithmetic::power2::lemma_pow2_strictly_increases(digits, usize::BITS as nat);
    }
}

/// A power of two that is a word has fewer digits than a word.
proof fn power_in_a_word(digits: nat)
    requires
        pow2(digits) <= usize::MAX,
    ensures
        digits < usize::BITS,
{
    vstd::arithmetic::power2::lemma2_to64();
    vstd::layout::unsigned_int_max_values();
    if digits > usize::BITS {
        vstd::arithmetic::power2::lemma_pow2_strictly_increases(usize::BITS as nat, digits);
    }
}

/// Reverses the lowest `bit_count` binary digits.
pub fn reverse_low_bits(value: usize, bit_count: u32) -> (result: usize)
    requires
        bit_count <= usize::BITS,
    ensures
        result == reversed(value as nat, bit_count as nat),
        result < pow2(bit_count as nat),
{
    let mut source: usize = value;
    let mut result: usize = 0;
    let mut left: u32 = bit_count;
    proof {
        reversed_is_bounded(value as nat, bit_count as nat);
        assert(0 * pow2(bit_count as nat) == 0);
        vstd::arithmetic::power2::lemma2_to64();
        words_hold_their_bits(bit_count as nat);
    }
    while left > 0
        invariant
            left <= bit_count,
            pow2(bit_count as nat) <= usize::MAX + 1,
            reversed(value as nat, bit_count as nat) < pow2(bit_count as nat),
            reversed(value as nat, bit_count as nat) == result * pow2(left as nat) + reversed(
                source as nat,
                left as nat,
            ),
        decreases left,
    {
        let ghost fewer = (left - 1) as nat;
        proof {
            let power = pow2(fewer) as int;
            lemma_pow2_unfold(left as nat);
            lemma_pow2_pos(fewer);
            let digit = (source % 2) as int;
            assert(result * (2 * power) + digit * power == (2 * result + digit) * power)
                by (nonlinear_arith);
            assert((2 * result + digit) * power >= 2 * result + digit) by (nonlinear_arith)
                requires
                    power >= 1,
                    2 * result + digit >= 0,
            ;
        }
        result = result * 2 + source % 2;
        source = source / 2;
        left = left - 1;
    }
    proof {
        vstd::arithmetic::power2::lemma2_to64();
        assert(pow2(0) == 1);
        assert(result * 1 == result);
    }
    result
}

/// The places of all the bit reversals below a power of two.
pub fn bit_reversal(size: usize, bit_count: u32) -> (places: Vec<usize>)
    requires
        size == pow2(bit_count as nat),
    ensures
        places@.len() == size,
        forall|i: int|
            0 <= i < size ==> #[trigger] places@[i] == reversed(i as nat, bit_count as nat)
                && places@[i] < size,
        is_involution(places@),
{
    proof {
        power_in_a_word(bit_count as nat);
    }
    let mut places: Vec<usize> = Vec::with_capacity(size);
    while places.len() < size
        invariant
            bit_count < usize::BITS,
            size == pow2(bit_count as nat),
            places@.len() <= size,
            forall|i: int|
                0 <= i < places@.len() ==> #[trigger] places@[i] == reversed(
                    i as nat,
                    bit_count as nat,
                ) && places@[i] < size,
        decreases size - places@.len(),
    {
        let place: usize = reverse_low_bits(places.len(), bit_count);
        places.push(place);
    }
    proof {
        assert forall|i: int| 0 <= i < places@.len() implies (#[trigger] places@[i]) < places@.len()
            && places@[places@[i] as int] == i by {
            reversal_undoes_itself(i as nat, bit_count as nat);
        }
    }
    places
}

/// Whether places pair up: where one points to, the other points back.
pub open spec fn is_involution(places: Seq<usize>) -> bool {
    forall|i: int|
        0 <= i < places.len() ==> (#[trigger] places[i]) < places.len() && places[places[i] as int]
            == i
}

/// Puts each value at its place. Every value lands somewhere, and every place is
/// filled.
pub fn scatter<T: Copy>(values: &[T], places: &[usize], destination: &mut [T])
    requires
        is_involution(places@),
        values@.len() == places@.len(),
        old(destination)@.len() == places@.len(),
    ensures
        final(destination)@.len() == old(destination)@.len(),
        forall|i: int|
            0 <= i < values@.len() ==> #[trigger] final(destination)@[i]
                == values@[places@[i] as int],
{
    let mut index: usize = 0;
    while index < values.len()
        invariant
            is_involution(places@),
            values@.len() == places@.len(),
            destination@.len() == places@.len(),
            index <= values@.len(),
            forall|i: int| 0 <= i < index ==> destination@[#[trigger] places@[i] as int] == values@[i],
        decreases values@.len() - index,
    {
        let ghost before = destination@;
        let place: usize = places[index];
        destination[place] = values[index];
        assert forall|i: int| 0 <= i < index + 1 implies destination@[#[trigger] places@[i] as int]
            == values@[i] by {
            if i < index {
                assert(places@[places@[i] as int] == i);
                assert(places@[place as int] == index);
                assert(destination@[places@[i] as int] == before[places@[i] as int]);
            }
        }
        index = index + 1;
    }
    assert forall|i: int| 0 <= i < values@.len() implies #[trigger] destination@[i]
        == values@[places@[i] as int] by {
        let source = places@[i] as int;
        assert(places@[source] == i);
    }
}

/// Two places that one step of the transform combines, and the place of the
/// factor that it combines them with.
#[derive(Clone, Copy, Debug, PartialEq, Eq)]
pub struct Butterfly {
    pub lower: usize,
    pub upper: usize,
    pub twiddle: usize,
}

/// The step of a number in a stage. A stage of width `2 * half` works on groups
/// of that many neighbours; a step combines a place in the first half of a
/// group with its counterpart in the second half.
pub open spec fn step(size: int, half: int, index: int) -> (int, int, int) {
    let lower = index / half * (2 * half) + index % half;
    (lower, lower + half, index % half * (size / (2 * half)))
}

/// A step of a stage stays within the values and the factors.
proof fn step_bounds(groups: int, half: int, index: int)
    requires
        groups > 0,
        half > 0,
        0 <= index < groups * half,
    ensures
        ({
            let size = groups * (2 * half);
            let (lower, upper, twiddle) = step(size, half, index);
            &&& size / (2 * half) == groups
            &&& 0 <= index / half < groups
            &&& 0 <= index % half < half
            &&& 0 <= lower < upper < size
            &&& 0 <= index / half * (2 * half) <= size - 2 * half
            &&& 0 <= twiddle < groups * half
        }),
{
    let size = groups * (2 * half);
    let group = index / half;
    let offset = index % half;
    vstd::arithmetic::div_mod::lemma_fundamental_div_mod(index, half);
    vstd::arithmetic::div_mod::lemma_mod_bound(index, half);
    vstd::arithmetic::div_mod::lemma_div_pos_is_pos(index, half);
    vstd::arithmetic::div_mod::lemma_div_by_multiple(groups, 2 * half);
    assert(group < groups) by (nonlinear_arith)
        requires
            half * group + offset == index,
            index < groups * half,
            offset >= 0,
            half > 0,
    ;
    assert(group * (2 * half) + 2 * half <= size) by (nonlinear_arith)
        requires
            group + 1 <= groups,
            size == groups * (2 * half),
            half > 0,
    ;
    assert(0 <= group * (2 * half)) by (nonlinear_arith)
        requires
            group >= 0,
            half > 0,
    ;
    assert(0 <= offset * groups) by (nonlinear_arith)
        requires
            offset >= 0,
            groups > 0,
    ;
    assert(offset * groups < groups * half) by (nonlinear_arith)
        requires
            0 <= offset < half,
            groups > 0,
    ;
}

/// The factor of a step has turned by the same share of the whole circle as the
/// lower place lies behind the start of its group.
pub proof fn step_turns_with_its_offset(groups: int, half: int, index: int)
    requires
        groups > 0,
        half > 0,
        0 <= index < groups * half,
    ensures
        ({
            let size = groups * (2 * half);
            let (lower, upper, twiddle) = step(size, half, index);
            &&& upper - lower == half
            &&& 0 <= lower % (2 * half) < half
            &&& twiddle * (2 * half) == size * (lower % (2 * half))
        }),
{
    let size = groups * (2 * half);
    let group = index / half;
    let offset = index % half;
    step_bounds(groups, half, index);
    let (lower, upper, twiddle) = step(size, half, index);
    assert(lower == (2 * half) * group + offset) by (nonlinear_arith)
        requires
            lower == group * (2 * half) + offset,
    ;
    vstd::arithmetic::div_mod::lemma_fundamental_div_mod_converse(lower, 2 * half, group, offset);
    assert(lower % (2 * half) == offset);
    assert(twiddle == offset * groups);
    assert(offset * groups * (2 * half) == (groups * (2 * half)) * offset) by (nonlinear_arith);
}

/// The step of a number in a stage. There are half as many steps in a stage as
/// there are values.
pub fn butterfly(size: usize, half: usize, index: usize) -> (result: Butterfly)
    requires
        half > 0,
        2 * half <= size,
        size as int % (2 * half) == 0,
        index < size / 2,
    ensures
        (result.lower as int, result.upper as int, result.twiddle as int) == step(
            size as int,
            half as int,
            index as int,
        ),
        result.lower < result.upper < size,
        result.twiddle < size / 2,
        // The two places lie in one group, half a group apart, and the factor
        // has turned by the share of the group that lies in front of them.
        result.upper - result.lower == half,
        result.lower as int % (2 * half) < half,
        result.twiddle * (2 * half) == size * (result.lower as int % (2 * half)),
{
    let ghost groups = size as int / (2 * half);
    proof {
        vstd::arithmetic::div_mod::lemma_fundamental_div_mod(size as int, 2 * half);
        assert(2 * half * groups == groups * (2 * half)) by (nonlinear_arith);
        assert(groups * (2 * half) == 2 * (groups * half)) by (nonlinear_arith);
        assert(groups > 0) by (nonlinear_arith)
            requires
                groups * (2 * half) == size,
                size > 0,
                half > 0,
        ;
        assert(size / 2 == groups * half);
        step_bounds(groups, half as int, index as int);
        step_turns_with_its_offset(groups, half as int, index as int);
    }
    let width: usize = 2 * half;
    let lower: usize = index / half * width + index % half;
    let twiddle: usize = index % half * (size / width);
    Butterfly { lower, upper: lower + half, twiddle }
}

/// The steps of a stage touch every value exactly once: each place belongs to
/// the step that this gives for it, as its lower or its upper place, and to no
/// other.
pub proof fn stages_touch_every_value_once(groups: int, half: int, place: int) -> (index: int)
    requires
        groups > 0,
        half > 0,
        0 <= place < groups * (2 * half),
    ensures
        ({
            let size = groups * (2 * half);
            &&& 0 <= index < groups * half
            &&& step(size, half, index).0 == place || step(size, half, index).1 == place
            &&& forall|other: int|
                0 <= other < groups * half && ((#[trigger] step(size, half, other)).0 == place
                    || step(size, half, other).1 == place) ==> other == index
        }),
{
    let size = groups * (2 * half);
    let width = 2 * half;
    let group = place / width;
    let within = place % width;
    let offset = if within < half {
        within
    } else {
        within - half
    };
    vstd::arithmetic::div_mod::lemma_fundamental_div_mod(place, width);
    vstd::arithmetic::div_mod::lemma_mod_bound(place, width);
    vstd::arithmetic::div_mod::lemma_div_pos_is_pos(place, width);
    assert(group < groups) by (nonlinear_arith)
        requires
            width * group + within == place,
            place < groups * width,
            within >= 0,
            width > 0,
    ;
    let index = group * half + offset;
    assert(0 <= group * half) by (nonlinear_arith)
        requires
            group >= 0,
            half > 0,
    ;
    assert(group * half + half <= groups * half) by (nonlinear_arith)
        requires
            group + 1 <= groups,
            half > 0,
    ;
    vstd::arithmetic::div_mod::lemma_fundamental_div_mod_converse(index, half, group, offset);
    assert(width * group == group * width) by (nonlinear_arith);
    assert forall|other: int|
        0 <= other < groups * half && ((#[trigger] step(size, half, other)).0 == place || step(
            size,
            half,
            other,
        ).1 == place) implies other == index by {
        step_bounds(groups, half, other);
        let its_group = other / half;
        let its_offset = other % half;
        vstd::arithmetic::div_mod::lemma_fundamental_div_mod(other, half);
        let its_within = place - its_group * width;
        assert(its_within == its_offset || its_within == its_offset + half);
        vstd::arithmetic::div_mod::lemma_fundamental_div_mod_converse(
            place,
            width,
            its_group,
            its_within,
        );
        assert(its_group == group && its_within == within);
        assert(half * its_group == group * half) by (nonlinear_arith)
            requires
                its_group == group,
        ;
    }
    index
}

/// The values after the first `count` steps of a stage, one after the other, where
/// the factor at a place is the root to the power of that place: the upper value is
/// turned by the factor, and the two become their sum and their difference.
pub open spec fn after_steps(values: Seq<int>, root: int, half: int, count: int) -> Seq<int>
    decreases count,
{
    if count <= 0 {
        values
    } else {
        let earlier = after_steps(values, root, half, count - 1);
        let (lower, upper, twiddle) = step(values.len() as int, half, count - 1);
        let turned = earlier[upper] * pow(root, twiddle as nat);
        earlier.update(lower, earlier[lower] + turned).update(upper, earlier[lower] - turned)
    }
}

/// The values after so many stages, each twice as wide as the one before it.
pub open spec fn after_stages(values: Seq<int>, root: int, stages: nat) -> Seq<int>
    decreases stages,
{
    if stages == 0 {
        values
    } else {
        let fewer = (stages - 1) as nat;
        after_steps(
            after_stages(values, root, fewer),
            root,
            pow2(fewer) as int,
            values.len() as int / 2,
        )
    }
}

/// The sum of the first `count` samples, each times the root to the power of its
/// place times the bin.
pub open spec fn fourier(samples: Seq<int>, root: int, bin: nat, count: nat) -> int
    decreases count,
{
    if count == 0 {
        0
    } else {
        fourier(samples, root, bin, (count - 1) as nat) + samples[count - 1] * pow(
            root,
            ((count - 1) * bin) as nat,
        )
    }
}

/// The same sum over samples at equal distances.
spec fn picked(
    samples: Seq<int>,
    first: int,
    stride: nat,
    count: nat,
    root: int,
    bin: nat,
) -> int
    decreases count,
{
    if count == 0 {
        0
    } else {
        let last = (count - 1) as nat;
        picked(samples, first, stride, last, root, bin) + samples[first + last * stride] * pow(
            root,
            last * stride * bin,
        )
    }
}

/// Whether two numbers differ by a multiple of the modulus.
spec fn near(one: int, other: int, modulus: int) -> bool {
    (one - other) % modulus == 0
}

proof fn near_from(one: int, other: int, times: int, modulus: int)
    requires
        modulus > 0,
        one - other == times * modulus,
    ensures
        near(one, other, modulus),
{
    vstd::arithmetic::div_mod::lemma_mod_multiples_basic(times, modulus);
}

proof fn near_by(one: int, other: int, modulus: int) -> (times: int)
    requires
        modulus > 0,
        near(one, other, modulus),
    ensures
        one - other == times * modulus,
{
    let times = (one - other) / modulus;
    vstd::arithmetic::div_mod::lemma_fundamental_div_mod(one - other, modulus);
    assert(modulus * times == times * modulus) by (nonlinear_arith);
    times
}

/// Sums, differences and products of near numbers are near.
proof fn near_keeps(a: int, b: int, c: int, d: int, modulus: int)
    requires
        modulus > 0,
        near(a, b, modulus),
        near(c, d, modulus),
    ensures
        near(a + c, b + d, modulus),
        near(a - c, b - d, modulus),
        near(a * c, b * d, modulus),
{
    let x = near_by(a, b, modulus);
    let y = near_by(c, d, modulus);
    assert((a + c) - (b + d) == (x + y) * modulus) by (nonlinear_arith)
        requires
            a - b == x * modulus,
            c - d == y * modulus,
    ;
    near_from(a + c, b + d, x + y, modulus);
    assert((a - c) - (b - d) == (x - y) * modulus) by (nonlinear_arith)
        requires
            a - b == x * modulus,
            c - d == y * modulus,
    ;
    near_from(a - c, b - d, x - y, modulus);
    assert(a * c - b * d == (x * c + b * y) * modulus) by (nonlinear_arith)
        requires
            a - b == x * modulus,
            c - d == y * modulus,
    ;
    near_from(a * c, b * d, x * c + b * y, modulus);
}

/// A whole number of turns leaves a root where it is.
proof fn whole_turns(root: int, size: nat, turns: nat, modulus: int)
    requires
        modulus > 0,
        size % 2 == 0,
        near(pow(root, size / 2), -1, modulus),
    ensures
        near(pow(root, size * turns), 1, modulus),
    decreases turns,
{
    vstd::arithmetic::power::lemma_pow0(root);
    if turns == 0 {
        assert(size * turns == 0) by (nonlinear_arith)
            requires
                turns == 0,
        ;
        near_from(1, 1, 0, modulus);
    } else {
        let fewer = (turns - 1) as nat;
        whole_turns(root, size, fewer, modulus);
        vstd::arithmetic::power::lemma_pow_adds(root, size / 2, size / 2);
        near_keeps(pow(root, size / 2), -1, pow(root, size / 2), -1, modulus);
        assert((-1int) * (-1int) == 1);
        assert(size / 2 + size / 2 == size);
        assert(size * turns == size * fewer + size) by (nonlinear_arith)
            requires
                turns == fewer + 1,
        ;
        vstd::arithmetic::power::lemma_pow_adds(root, size * fewer, size);
        near_keeps(pow(root, size * fewer), 1, pow(root, size), 1, modulus);
    }
}

/// A sum over samples is the sum over every second one, and the sum over the
/// others turned by one distance.
proof fn sums_split(
    samples: Seq<int>,
    first: int,
    stride: nat,
    count: nat,
    root: int,
    bin: nat,
)
    ensures
        picked(samples, first, stride, 2 * count, root, bin) == picked(
            samples,
            first,
            2 * stride,
            count,
            root,
            bin,
        ) + pow(root, bin * stride) * picked(
            samples,
            first + stride,
            2 * stride,
            count,
            root,
            bin,
        ),
    decreases count,
{
    if count == 0 {
        assert(pow(root, bin * stride) * 0 == 0);
    } else {
        let last = (count - 1) as nat;
        sums_split(samples, first, stride, last, root, bin);
        let factor = pow(root, bin * stride);
        let even = samples[first + last * (2 * stride)];
        let odd = samples[first + stride + last * (2 * stride)];
        let turn = pow(root, last * (2 * stride) * bin);
        let rest = picked(samples, first + stride, 2 * stride, last, root, bin);
        reveal_with_fuel(picked, 3);
        assert((2 * last) * stride == last * (2 * stride)) by (nonlinear_arith);
        assert((2 * last + 1) * stride == stride + last * (2 * stride)) by (nonlinear_arith);
        assert((2 * last + 1) * stride * bin == last * (2 * stride) * bin + bin * stride)
            by (nonlinear_arith);
        vstd::arithmetic::power::lemma_pow_adds(root, last * (2 * stride) * bin, bin * stride);
        let two = (2 * last) as nat;
        assert(2 * count == two + 2);
        assert(picked(samples, first, stride, two + 2, root, bin) == picked(
            samples,
            first,
            stride,
            two,
            root,
            bin,
        ) + even * turn + odd * (turn * factor)) by {
            assert(picked(samples, first, stride, (two + 2) as nat, root, bin) == picked(
                samples,
                first,
                stride,
                (two + 1) as nat,
                root,
                bin,
            ) + odd * pow(root, (two + 1) * stride * bin));
            assert(picked(samples, first, stride, (two + 1) as nat, root, bin) == picked(
                samples,
                first,
                stride,
                two,
                root,
                bin,
            ) + even * pow(root, two * stride * bin));
        }
        assert(factor * (rest + odd * turn) == factor * rest + odd * (turn * factor))
            by (nonlinear_arith);
    }
}

/// A bin half a group further on turns the samples of a group by whole circles.
proof fn further_bin_sums_alike(
    samples: Seq<int>,
    first: int,
    stride: nat,
    count: nat,
    root: int,
    bin: nat,
    half: nat,
    modulus: int,
)
    requires
        modulus > 0,
        (stride * half) % 2 == 0,
        near(pow(root, stride * half / 2), -1, modulus),
    ensures
        near(
            picked(samples, first, stride, count, root, bin + half),
            picked(samples, first, stride, count, root, bin),
            modulus,
        ),
    decreases count,
{
    if count == 0 {
        near_from(0, 0, 0, modulus);
    } else {
        let last = (count - 1) as nat;
        further_bin_sums_alike(samples, first, stride, last, root, bin, half, modulus);
        let sample = samples[first + last * stride];
        let near_turn = pow(root, last * stride * bin);
        let circles = stride * half;
        assert(last * stride * (bin + half) == last * stride * bin + circles * last)
            by (nonlinear_arith)
            requires
                circles == stride * half,
        ;
        vstd::arithmetic::power::lemma_pow_adds(root, last * stride * bin, circles * last);
        whole_turns(root, circles, last, modulus);
        near_from(near_turn, near_turn, 0, modulus);
        near_keeps(near_turn, near_turn, pow(root, circles * last), 1, modulus);
        near_from(sample, sample, 0, modulus);
        let far_turn = pow(root, last * stride * (bin + half));
        assert(far_turn == near_turn * pow(root, circles * last));
        near_keeps(sample, sample, far_turn, near_turn, modulus);
        near_keeps(
            picked(samples, first, stride, last, root, bin + half),
            picked(samples, first, stride, last, root, bin),
            sample * far_turn,
            sample * near_turn,
            modulus,
        );
    }
}

/// Two steps of a stage share no place.
proof fn steps_are_apart(groups: int, half: int, one: int, other: int)
    requires
        groups > 0,
        half > 0,
        0 <= one < groups * half,
        0 <= other < groups * half,
        one != other,
    ensures
        ({
            let size = groups * (2 * half);
            let a = step(size, half, one);
            let b = step(size, half, other);
            a.0 != b.0 && a.0 != b.1 && a.1 != b.0 && a.1 != b.1
        }),
{
    let size = groups * (2 * half);
    step_bounds(groups, half, one);
    step_bounds(groups, half, other);
    let a = step(size, half, one);
    let lower = stages_touch_every_value_once(groups, half, a.0);
    let upper = stages_touch_every_value_once(groups, half, a.1);
    assert(step(size, half, one).0 == a.0);
    assert(lower == one && upper == one);
    assert(step(size, half, other).0 == step(size, half, other).0);
}

/// What the steps of a stage have made of the values so far.
proof fn steps_combine_pairs(
    values: Seq<int>,
    root: int,
    groups: int,
    half: int,
    count: int,
    index: int,
)
    requires
        groups > 0,
        half > 0,
        values.len() == groups * (2 * half),
        0 <= count <= groups * half,
        0 <= index < groups * half,
    ensures
        after_steps(values, root, half, count).len() == values.len(),
        ({
            let after = after_steps(values, root, half, count);
            let (lower, upper, twiddle) = step(values.len() as int, half, index);
            let turned = values[upper] * pow(root, twiddle as nat);
            if index < count {
                after[lower] == values[lower] + turned && after[upper] == values[lower] - turned
            } else {
                after[lower] == values[lower] && after[upper] == values[upper]
            }
        }),
    decreases count,
{
    if count > 0 {
        steps_combine_pairs(values, root, groups, half, count - 1, index);
        step_bounds(groups, half, index);
        step_bounds(groups, half, count - 1);
        if index != count - 1 {
            steps_are_apart(groups, half, index, count - 1);
        }
    }
}

/// Whether each block of the values holds the sums of the samples that belong to
/// it, one for each bin.
spec fn holds_sums(
    values: Seq<int>,
    samples: Seq<int>,
    root: int,
    modulus: int,
    digits: nat,
    stages: nat,
) -> bool {
    let left = (digits - stages) as nat;
    &&& values.len() == pow2(digits)
    &&& forall|block: int, bin: int|
        0 <= block < pow2(left) && 0 <= bin < pow2(stages) ==> near(
            #[trigger] values[block * pow2(stages) + bin],
            picked(
                samples,
                reversed(block as nat, left) as int,
                pow2(left),
                pow2(stages),
                root,
                bin as nat,
            ),
            modulus,
        )
}

/// One place of a stage.
proof fn stage_makes_a_sum(
    values: Seq<int>,
    samples: Seq<int>,
    root: int,
    modulus: int,
    digits: nat,
    stages: nat,
    block: int,
    bin: int,
)
    requires
        modulus > 0,
        stages < digits,
        near(pow(root, pow2(digits) / 2), -1, modulus),
        holds_sums(values, samples, root, modulus, digits, stages),
        0 <= block < pow2((digits - stages - 1) as nat),
        0 <= bin < pow2(stages),
    ensures
        ({
            let half = pow2(stages) as int;
            let stride = pow2((digits - stages - 1) as nat);
            let after = after_steps(values, root, half, values.len() as int / 2);
            let first = reversed(block as nat, (digits - stages - 1) as nat) as int;
            &&& near(
                after[block * (2 * half) + bin],
                picked(samples, first, stride, (2 * half) as nat, root, bin as nat),
                modulus,
            )
            &&& near(
                after[block * (2 * half) + bin + half],
                picked(samples, first, stride, (2 * half) as nat, root, (bin + half) as nat),
                modulus,
            )
        }),
{
    let left = (digits - stages) as nat;
    let fewer = (left - 1) as nat;
    let half = pow2(stages);
    let stride = pow2(fewer);
    let size = pow2(digits);
    lemma_pow2_pos(stages);
    lemma_pow2_pos(fewer);
    lemma_pow2_unfold(left);
    vstd::arithmetic::power2::lemma_pow2_adds(left, stages);
    let groups = stride as int;
    assert(size == groups * (2 * half)) by (nonlinear_arith)
        requires
            size == (2 * stride) * half,
            groups == stride,
    ;
    assert(groups * (2 * half) == 2 * (groups * half)) by (nonlinear_arith);
    let steps = groups * half;
    assert(size as int / 2 == steps);
    // The step that makes the two places.
    let index = block * half + bin;
    assert(0 <= index < steps) by (nonlinear_arith)
        requires
            index == block * half + bin,
            0 <= block <= groups - 1,
            0 <= bin < half,
            steps == groups * half,
    ;
    vstd::arithmetic::div_mod::lemma_fundamental_div_mod_converse(
        index,
        half as int,
        block,
        bin,
    );
    step_bounds(groups, half as int, index);
    let (lower, upper, twiddle) = step(size as int, half as int, index);
    assert(lower == block * (2 * half) + bin);
    assert(twiddle == bin * stride);
    steps_combine_pairs(values, root, groups, half as int, steps, index);
    let after = after_steps(values, root, half as int, values.len() as int / 2);
    let turn = pow(root, (bin * stride) as nat);
    // What stands there before.
    assert(lower == (2 * block) * half + bin) by (nonlinear_arith)
        requires
            lower == block * (2 * half) + bin,
    ;
    assert(upper == (2 * block + 1) * half + bin) by (nonlinear_arith)
        requires
            upper == block * (2 * half) + bin + half,
    ;
    let first = reversed(block as nat, fewer) as int;
    assert(reversed((2 * block) as nat, left) == first) by {
        assert((2 * block) % 2 == 0 && (2 * block) / 2 == block);
        assert(0 * pow2(fewer) == 0);
    }
    assert(reversed((2 * block + 1) as nat, left) == first + stride) by {
        assert((2 * block + 1) % 2 == 1 && (2 * block + 1) / 2 == block);
        assert(1 * pow2(fewer) == pow2(fewer));
    }
    let k = bin as nat;
    let even = picked(samples, first, 2 * stride, half, root, k);
    let odd = picked(samples, first + stride, 2 * stride, half, root, k);
    assert(near(values[(2 * block) * half + bin], even, modulus));
    assert(near(values[(2 * block + 1) * half + bin], odd, modulus));
    near_from(turn, turn, 0, modulus);
    near_keeps(values[upper], odd, turn, turn, modulus);
    near_keeps(values[lower], even, values[upper] * turn, odd * turn, modulus);
    assert(odd * turn == turn * odd) by (nonlinear_arith);
    // The near bin.
    sums_split(samples, first, stride, half, root, k);
    assert(near(after[lower], picked(samples, first, stride, 2 * half, root, k), modulus));
    // The bin half a group further on.
    let far = (bin + half) as nat;
    sums_split(samples, first, stride, half, root, far);
    assert((2 * stride) * half == size) by (nonlinear_arith)
        requires
            size == groups * (2 * half),
            groups == stride,
    ;
    assert(size % 2 == 0 && size / 2 == stride * half) by (nonlinear_arith)
        requires
            size == 2 * (groups * half),
            groups == stride,
    ;
    further_bin_sums_alike(samples, first, 2 * stride, half, root, k, half, modulus);
    further_bin_sums_alike(samples, first + stride, 2 * stride, half, root, k, half, modulus);
    let far_even = picked(samples, first, 2 * stride, half, root, far);
    let far_odd = picked(samples, first + stride, 2 * stride, half, root, far);
    assert(far * stride == k * stride + stride * half) by (nonlinear_arith)
        requires
            far == k + half,
    ;
    vstd::arithmetic::power::lemma_pow_adds(root, k * stride, stride * half);
    near_keeps(turn, turn, pow(root, stride * half), -1, modulus);
    let far_turn = pow(root, far * stride);
    assert(turn * (-1) == -turn);
    near_keeps(far_turn, -turn, far_odd, odd, modulus);
    near_keeps(far_even, even, far_turn * far_odd, (-turn) * odd, modulus);
    assert((-turn) * odd == -(turn * odd)) by (nonlinear_arith);
    let target = picked(samples, first, stride, 2 * half, root, far);
    assert(near(target, even - turn * odd, modulus));
    let x = near_by(target, even - turn * odd, modulus);
    let y = near_by(after[upper], even - turn * odd, modulus);
    assert(after[upper] - target == (y - x) * modulus) by (nonlinear_arith)
        requires
            target - (even - turn * odd) == x * modulus,
            after[upper] - (even - turn * odd) == y * modulus,
    ;
    near_from(after[upper], target, y - x, modulus);
}

/// What the stages have made of the samples so far.
proof fn stages_make_sums(
    samples: Seq<int>,
    root: int,
    modulus: int,
    digits: nat,
    stages: nat,
)
    requires
        modulus > 0,
        stages <= digits,
        samples.len() == pow2(digits),
        near(pow(root, pow2(digits) / 2), -1, modulus),
    ensures
        holds_sums(
            after_stages(
                Seq::new(pow2(digits), |i: int| samples[reversed(i as nat, digits) as int]),
                root,
                stages,
            ),
            samples,
            root,
            modulus,
            digits,
            stages,
        ),
    decreases stages,
{
    let input = Seq::new(pow2(digits), |i: int| samples[reversed(i as nat, digits) as int]);
    let after = after_stages(input, root, stages);
    let left = (digits - stages) as nat;
    vstd::arithmetic::power2::lemma2_to64();
    if stages == 0 {
        assert forall|block: int, bin: int|
            0 <= block < pow2(left) && 0 <= bin < pow2(stages) implies near(
            #[trigger] after[block * pow2(stages) + bin],
            picked(
                samples,
                reversed(block as nat, left) as int,
                pow2(left),
                pow2(stages),
                root,
                bin as nat,
            ),
            modulus,
        ) by {
            assert(block * 1 == block);
            let first = reversed(block as nat, left) as int;
            reveal_with_fuel(picked, 2);
            vstd::arithmetic::power::lemma_pow0(root);
            assert(0 * pow2(left) == 0 && 0 * pow2(left) * (bin as nat) == 0) by (nonlinear_arith);
            assert(samples[first] * 1 == samples[first]);
            near_from(samples[first], samples[first], 0, modulus);
        }
    } else {
        let fewer = (stages - 1) as nat;
        stages_make_sums(samples, root, modulus, digits, fewer);
        let values = after_stages(input, root, fewer);
        let half = pow2(fewer) as int;
        lemma_pow2_unfold(stages);
        lemma_pow2_pos(fewer);
        lemma_pow2_pos(left);
        vstd::arithmetic::power2::lemma_pow2_adds(left, stages);
        let groups = pow2(left) as int;
        assert(pow2(digits) == groups * (2 * half));
        assert(groups * (2 * half) == 2 * (groups * half)) by (nonlinear_arith);
        assert(0 <= 0 < groups * half) by (nonlinear_arith)
            requires
                groups > 0,
                half > 0,
        ;
        steps_combine_pairs(values, root, groups, half, groups * half, 0);
        assert forall|block: int, bin: int|
            0 <= block < pow2(left) && 0 <= bin < pow2(stages) implies near(
            #[trigger] after[block * pow2(stages) + bin],
            picked(
                samples,
                reversed(block as nat, left) as int,
                pow2(left),
                pow2(stages),
                root,
                bin as nat,
            ),
            modulus,
        ) by {
            let inner = if bin < half {
                bin
            } else {
                bin - half
            };
            stage_makes_a_sum(
                values,
                samples,
                root,
                modulus,
                digits,
                fewer,
                block,
                inner,
            );
        }
    }
}

/// A sum over all samples is the sum over samples at distance one.
proof fn picked_is_fourier(samples: Seq<int>, root: int, bin: nat, count: nat)
    ensures
        picked(samples, 0, 1, count, root, bin) == fourier(samples, root, bin, count),
    decreases count,
{
    if count > 0 {
        picked_is_fourier(samples, root, bin, (count - 1) as nat);
    }
}

/// The steps are those of a Fourier transform. With samples in bit-reversed order,
/// and the powers of a root of unity for factors, one whose power at half the size is
/// minus one, the stages leave at every place the sum of all the samples, each turned
/// by its place times that bin. Numbers are counted around a modulus, where such
/// roots are whole.
pub proof fn stages_are_a_fourier_transform(
    samples: Seq<int>,
    root: int,
    modulus: int,
    digits: nat,
    bin: int,
)
    requires
        modulus > 0,
        samples.len() == pow2(digits),
        (pow(root, pow2(digits) / 2) + 1) % modulus == 0,
        0 <= bin < pow2(digits),
    ensures
        ({
            let input = Seq::new(
                pow2(digits),
                |i: int| samples[reversed(i as nat, digits) as int],
            );
            (after_stages(input, root, digits)[bin] - fourier(
                samples,
                root,
                bin as nat,
                samples.len(),
            )) % modulus == 0
        }),
{
    stages_make_sums(samples, root, modulus, digits, digits);
    let input = Seq::new(pow2(digits), |i: int| samples[reversed(i as nat, digits) as int]);
    let after = after_stages(input, root, digits);
    vstd::arithmetic::power2::lemma2_to64();
    assert(near(
        after[0 * pow2(digits) + bin],
        picked(samples, reversed(0, 0) as int, pow2(0), pow2(digits), root, bin as nat),
        modulus,
    ));
    assert(0 * pow2(digits) == 0);
    picked_is_fourier(samples, root, bin as nat, samples.len());
}

/// The number moved into the range.
pub open spec fn clamped(number: int, least: int, most: int) -> int {
    if number < least {
        least
    } else if number > most {
        most
    } else {
        number
    }
}

/// A number in the range stays what it is; any other is moved to the end that it lies
/// behind.
pub proof fn clamping_moves_to_the_nearest(number: int, least: int, most: int)
    requires
        least <= most,
    ensures
        least <= clamped(number, least, most) <= most,
        least <= number <= most ==> clamped(number, least, most) == number,
        number < least ==> clamped(number, least, most) == least,
        number > most ==> clamped(number, least, most) == most,
{
}

/// The bins that a display band covers, from the bins of its two edges. A band
/// has at least one bin, never the constant part, and none past Nyquist.
pub fn band_bins(low: usize, high: usize, fft_size: usize) -> (bins: (usize, usize))
    requires
        fft_size >= 2,
    ensures
        bins.0 == clamped(low as int, 1, fft_size as int / 2),
        bins.1 == clamped(high as int, bins.0 as int, fft_size as int / 2),
        1 <= bins.0 <= bins.1 <= fft_size / 2,
        1 <= low <= fft_size / 2 ==> bins.0 == low,
        1 <= low <= high <= fft_size / 2 ==> bins.1 == high,
{
    let nyquist: usize = fft_size / 2;
    let first: usize = if low < 1 {
        1
    } else if low > nyquist {
        nyquist
    } else {
        low
    };
    let last: usize = if high < first {
        first
    } else if high > nyquist {
        nyquist
    } else {
        high
    };
    (first, last)
}

} // verus!
