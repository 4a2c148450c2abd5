//! The loudness range of whole programme history: gates, order and percentiles.
//!
//! A loudness is a 64-bit float. Its key is an integer that is larger exactly
//! where the number is larger, so that gates and ranks are decided on integers.
use crate::meter::histogram::{percentile_place, percentile_rank, range_places};
use vstd::prelude::*;

verus! {

/// The bits of positive infinity: magnitudes above it are no numbers.
pub const INFINITE_MAGNITUDE: u64 = 0x7ff0_0000_0000_0000;

/// The bit of the sign.
pub const SIGN: u64 = 0x8000_0000_0000_0000;

/// The key of what is no number: it lies below every number.
pub const NO_NUMBER: i64 = i64::MIN;

/// The key of a float.
pub open spec fn key_of(bits: u64) -> int {
    if bits < SIGN {
        if bits <= INFINITE_MAGNITUDE {
            bits as int
        } else {
            NO_NUMBER as int
        }
    } else {
        if bits - SIGN <= INFINITE_MAGNITUDE {
            SIGN - bits
        } else {
            NO_NUMBER as int
        }
    }
}

/// The float of a key. Both zeros have the key of the positive one.
pub open spec fn bits_of(key: i64) -> int {
    if key >= 0 {
        key as int
    } else {
        SIGN - key
    }
}

/// The key of a float that is given by its bits.
pub fn loudness_key(bits: u64) -> (key: i64)
    ensures
        key == key_of(bits),
{
    if bits < SIGN {
        if bits <= INFINITE_MAGNITUDE {
            bits as i64
        } else {
            NO_NUMBER
        }
    } else {
        let magnitude: u64 = bits - SIGN;
        if magnitude <= INFINITE_MAGNITUDE {
            -(magnitude as i64)
        } else {
            NO_NUMBER
        }
    }
}

/// The bits of the float that a key stands for.
pub fn key_bits(key: i64) -> (bits: u64)
    requires
        key != NO_NUMBER,
    ensures
        bits == bits_of(key),
{
    if key >= 0 {
        key as u64
    } else {
        SIGN + (-key) as u64
    }
}

/// A number other than negative zero reads back from its key.
pub proof fn keys_read_back(bits: u64)
    requires
        key_of(bits) != NO_NUMBER,
        bits != SIGN,
    ensures
        bits_of(key_of(bits) as i64) == bits,
{
}

/// Keys order numbers: of two with the same sign the larger magnitude is the
/// larger one if positive and the smaller one if negative, and no negative
/// number lies above a positive one.
pub proof fn keys_order_numbers(one: u64, other: u64)
    requires
        key_of(one) != NO_NUMBER,
        key_of(other) != NO_NUMBER,
    ensures
        one < SIGN && other < SIGN ==> (key_of(one) < key_of(other) <==> one < other),
        one >= SIGN && other >= SIGN ==> (key_of(one) < key_of(other) <==> one > other),
        one >= SIGN && other < SIGN ==> key_of(one) <= key_of(other),
{
}

/// The keys that both gates let through, in order.
pub open spec fn gated(keys: Seq<i64>, absolute: i64, relative: i64) -> Seq<i64> {
    keys.filter(|key: i64| key > absolute && key > relative)
}

/// Whether keys rise.
pub open spec fn is_sorted(keys: Seq<i64>) -> bool {
    forall|i: int, j: int| 0 <= i < j < keys.len() ==> keys[i] <= keys[j]
}

/// Whether keys are those of others in rising order.
pub open spec fn sorts(sorted: Seq<i64>, keys: Seq<i64>) -> bool {
    is_sorted(sorted) && sorted.to_multiset() == keys.to_multiset()
}

/// `<[i64]>::sort_unstable` puts the same elements in rising order.
#[verifier::external_body]
fn sort_unstable(keys: &mut [i64])
    ensures
        sorts(final(keys)@, old(keys)@),
{
    keys.sort_unstable();
}

/// As many keys come out of sorting as go in.
proof fn sorting_keeps_the_count(sorted: Seq<i64>, keys: Seq<i64>)
    requires
        sorts(sorted, keys),
    ensures
        sorted.len() == keys.len(),
{
    sorted.to_multiset_ensures();
    keys.to_multiset_ensures();
}

/// The tenth and the ninety-fifth percentile of the loudness that both gates let
/// through, if they let any through. `scratch` is reused from call to call.
pub fn loudness_range(
    keys: &[i64],
    absolute: i64,
    relative: i64,
    scratch: &mut Vec<i64>,
) -> (range: Option<(i64, i64)>)
    ensures
        sorts(final(scratch)@, gated(keys@, absolute, relative)),
        match range {
            None => gated(keys@, absolute, relative).len() == 0,
            Some((low, high)) => {
                let kept = final(scratch)@.len() as int;
                &&& kept > 0
                &&& kept == gated(keys@, absolute, relative).len()
                &&& low == final(scratch)@[range_places(kept).0]
                &&& high == final(scratch)@[range_places(kept).1]
                &&& low == final(scratch)@[percentile_place(kept, 10)]
                &&& high == final(scratch)@[percentile_place(kept, 95)]
                &&& low <= high
            },
        },
{
    scratch.clear();
    let ghost passes = |key: i64| key > absolute && key > relative;
    let mut index: usize = 0;
    proof {
        reveal(Seq::filter);
        assert(keys@.take(0).filter(passes) =~= Seq::<i64>::empty());
    }
    while index < keys.len()
        invariant
            index <= keys@.len(),
            passes == (|key: i64| key > absolute && key > relative),
            scratch@ == keys@.take(index as int).filter(passes),
        decreases keys@.len() - index,
    {
        let key: i64 = keys[index];
        proof {
            reveal(Seq::filter);
            assert(keys@.take(index + 1).drop_last() =~= keys@.take(index as int));
        }
        if key > absolute && key > relative {
            scratch.push(key);
        }
        index = index + 1;
    }
    assert(keys@.take(index as int) =~= keys@);
    let ghost kept = scratch@;
    sort_unstable(scratch.as_mut_slice());
    proof {
        sorting_keeps_the_count(scratch@, kept);
    }
    let count: usize = scratch.len();
    if count == 0 {
        return None;
    }
    let low: usize = percentile_rank(count as u64, 10) as usize;
    let high: usize = percentile_rank(count as u64, 95) as usize;
    assert(low <= high) by {
        vstd::arithmetic::div_mod::lemma_div_is_ordered(
            (count - 1) * 10 + 50,
            (count - 1) * 95 + 50,
            100,
        );
    }
    Some((scratch[low], scratch[high]))
}

/// The range does not depend on the order of the blocks: two orders of the same
/// loudness values sort to the same.
pub proof fn order_of_blocks_does_not_matter(
    one: Seq<i64>,
    other: Seq<i64>,
    keys: Seq<i64>,
    shuffled: Seq<i64>,
)
    requires
        sorts(one, keys),
        sorts(other, shuffled),
        keys.to_multiset() == shuffled.to_multiset(),
    ensures
        one == other,
{
    let rises = |left: i64, right: i64| left <= right;
    vstd::seq_lib::lemma_sorted_unique(one, other, rises);
}

/// Every number has a key, infinities among them, and what is no number has none. Both
/// zeros have the same key.
pub proof fn numbers_have_keys(bits: u64)
    ensures
        key_of(bits) == NO_NUMBER <==> (if bits < SIGN {
            bits as int
        } else {
            bits - SIGN
        }) > INFINITE_MAGNITUDE,
        key_of(bits) != NO_NUMBER ==> key_of(bits) >= -(INFINITE_MAGNITUDE as int),
        key_of(SIGN) == key_of(0),
        key_of(0) == 0,
        bits < SIGN && key_of(bits) != NO_NUMBER ==> key_of(bits) == -key_of((bits + SIGN) as u64),
{
}

/// Both gates let through exactly what lies above both of them, in the order in which
/// it came.
pub proof fn gates_let_through_what_lies_above(
    keys: Seq<i64>,
    key: i64,
    absolute: i64,
    relative: i64,
)
    ensures
        gated(Seq::empty(), absolute, relative) == Seq::<i64>::empty(),
        key > absolute && key > relative ==> gated(keys.push(key), absolute, relative) == gated(
            keys,
            absolute,
            relative,
        ).push(key),
        key <= absolute || key <= relative ==> gated(keys.push(key), absolute, relative) == gated(
            keys,
            absolute,
            relative,
        ),
{
    reveal(Seq::filter);
    assert(keys.push(key).drop_last() =~= keys);
}

} // verus!
