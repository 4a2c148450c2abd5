//! A fixed-rate cadence that is counted in audio frames.
use vstd::prelude::*;

verus! {

/// The interval that a cadence keeps: at least one frame.
pub open spec fn kept_interval(interval: usize) -> int {
    if interval == 0 {
        1
    } else {
        interval as int
    }
}

/// The frames that remain until the next tick.
pub open spec fn remaining_after(remaining: int, interval: usize, frames: int) -> int {
    if frames < remaining {
        remaining - frames
    } else {
        kept_interval(interval) - (frames - remaining) % kept_interval(interval)
    }
}

/// Advances a fixed-rate visual cadence without accumulating block-size
/// drift. At 48 kHz/512, for example, it alternates 512/1024-frame gaps
/// around 60 Hz instead of silently degrading to 46.9 Hz.
pub fn interval_due(remaining: &mut usize, interval: usize, frames: usize) -> (due: bool)
    ensures
        due == (frames >= *old(remaining)),
        *final(remaining) == remaining_after(*old(remaining) as int, interval, frames as int),
{
    let interval: usize = if interval == 0 {
        1
    } else {
        interval
    };
    if frames < *remaining {
        *remaining = *remaining - frames;
        return false;
    }
    let overshoot: usize = frames - *remaining;
    *remaining = interval - overshoot % interval;
    true
}

/// Ticks stay on their grid whatever the block sizes are: the next tick is a
/// whole number of intervals after the tick that was awaited, never more than
/// one interval ahead, and a tick is reported exactly when one has passed.
pub proof fn ticks_stay_on_the_grid(now: int, remaining: int, interval: usize, frames: int)
    requires
        0 <= remaining,
        0 <= frames,
    ensures
        ((now + frames + remaining_after(remaining, interval, frames)) - (now + remaining))
            % kept_interval(interval) == 0,
        remaining_after(remaining, interval, frames) > 0,
        frames >= remaining ==> remaining_after(remaining, interval, frames) <= kept_interval(
            interval,
        ),
        frames < remaining ==> now + frames + remaining_after(remaining, interval, frames) == now
            + remaining,
{
    let step = kept_interval(interval);
    let after = remaining_after(remaining, interval, frames);
    if frames >= remaining {
        let overshoot = frames - remaining;
        vstd::arithmetic::div_mod::lemma_fundamental_div_mod(overshoot, step);
        let whole = overshoot / step + 1;
        assert(step * (overshoot / step) + step == whole * step) by (nonlinear_arith)
            requires
                whole == overshoot / step + 1,
        ;
        vstd::arithmetic::div_mod::lemma_mod_multiples_basic(whole, step);
        assert(frames + after - remaining == whole * step);
    } else {
        vstd::arithmetic::div_mod::lemma_small_mod(0, step as nat);
    }
}

/// A tick comes every interval: behind a block that ends on a tick the next one is a
/// whole interval away, and frames in between only bring it nearer. An interval of no
/// frames is one of a single frame.
pub proof fn a_tick_comes_every_interval(remaining: int, interval: usize, frames: int)
    requires
        0 < remaining,
        0 <= frames,
    ensures
        interval > 0 ==> remaining_after(remaining, interval, remaining) == interval,
        interval > 0 && frames < interval ==> remaining_after(
            remaining,
            interval,
            remaining + frames,
        ) == interval - frames,
        frames < remaining ==> remaining_after(remaining, interval, frames) == remaining - frames,
        interval == 0 ==> remaining_after(remaining, interval, remaining + frames) == 1,
{
    if interval > 0 {
        vstd::arithmetic::div_mod::lemma_small_mod(0, interval as nat);
        if frames < interval {
            vstd::arithmetic::div_mod::lemma_small_mod(frames as nat, interval as nat);
        }
    }
}

} // verus!
