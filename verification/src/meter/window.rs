//! The energies of the momentary and the short-term window, and the schedule of
//! the blocks that are cut from them.
use crate::scope::history::{newest, History};
use vstd::prelude::*;

verus! {

/// Whether a block of `window` frames ends at this frame: the first as soon as
/// the window is full, the next ones every `step` frames.
pub open spec fn block_due(processed: int, window: int, step: int) -> bool {
    processed >= window && (processed - window) % step == 0
}

/// The item that leaves a window of `frames` when one more arrives.
pub open spec fn leaving<E>(energies: Seq<E>, frames: int) -> Option<E> {
    if energies.len() >= frames {
        Some(energies[energies.len() - frames])
    } else {
        None
    }
}

/// The sum of a sequence of whole numbers.
pub open spec fn total(items: Seq<int>) -> int
    decreases items.len(),
{
    if items.len() == 0 {
        0
    } else {
        total(items.drop_last()) + items.last()
    }
}

/// What one energy does to the windows.
#[derive(Clone, Copy, Debug, PartialEq, Eq)]
pub struct EnergyStep<E> {
    /// The energy that left the momentary window, if it was full.
    pub leaving_momentary: Option<E>,
    /// The energy that left the short-term window, if it was full.
    pub leaving_short_term: Option<E>,
    /// Whether the momentary window is full now.
    pub momentary_full: bool,
    /// Whether the short-term window is full now.
    pub short_term_full: bool,
    /// Whether a momentary block ends with this energy.
    pub integrated_due: bool,
    /// Whether a short-term block ends with this energy.
    pub short_term_due: bool,
}

/// The newest energies, long enough for the short-term window.
#[derive(Debug)]
pub struct EnergyWindow<E> {
    energies: History<E>,
    momentary_frames: usize,
    step_frames: usize,
    processed: u64,
}

impl<E: Copy> EnergyWindow<E> {
    /// Whether the windows nest and the count agrees with what is kept.
    pub closed spec fn is_valid(self) -> bool {
        &&& self.energies.is_valid()
        &&& 0 < self.momentary_frames <= self.energies.limit()
        &&& 0 < self.step_frames
        &&& self.energies@.len() == (if self.processed < self.energies.limit() {
            self.processed as int
        } else {
            self.energies.limit()
        })
    }

    /// The kept energies, oldest first.
    pub closed spec fn view(&self) -> Seq<E> {
        self.energies@
    }

    /// Frames in the momentary window.
    pub closed spec fn momentary(self) -> int {
        self.momentary_frames as int
    }

    /// Frames in the short-term window.
    pub closed spec fn short_term(self) -> int {
        self.energies.limit()
    }

    /// Frames from one block to the next.
    pub closed spec fn step(self) -> int {
        self.step_frames as int
    }

    /// How many energies there have been since the last reset.
    pub closed spec fn count(self) -> u64 {
        self.processed
    }

    /// The windows nest, and as much is kept as has been seen and fits.
    pub proof fn keeps_what_fits(self)
        requires
            self.is_valid(),
        ensures
            0 < self.momentary() <= self.short_term(),
            0 < self.step(),
            self@.len() == (if self.count() < self.short_term() {
                self.count() as int
            } else {
                self.short_term()
            }),
    {
    }

    /// Allocates the windows.
    pub fn new(
        momentary_frames: usize,
        short_term_frames: usize,
        step_frames: usize,
        blank: E,
    ) -> (window: Self)
        requires
            0 < momentary_frames <= short_term_frames,
            0 < step_frames,
        ensures
            window.is_valid(),
            window.momentary() == momentary_frames,
            window.short_term() == short_term_frames,
            window.step() == step_frames,
            window.count() == 0,
            window@ == Seq::<E>::empty(),
    {
        EnergyWindow {
            energies: History::new(short_term_frames, blank),
            momentary_frames,
            step_frames,
            processed: 0,
        }
    }

    /// How many energies there have been since the last reset.
    pub fn processed(&self) -> (processed: u64)
        ensures
            processed == self.count(),
    {
        self.processed
    }

    /// Frames in the momentary window.
    pub fn momentary_frames(&self) -> (frames: usize)
        ensures
            frames == self.momentary(),
    {
        self.momentary_frames
    }

    /// Frames in the short-term window.
    pub fn short_term_frames(&self) -> (frames: usize)
        ensures
            frames == self.short_term(),
    {
        self.energies.capacity()
    }

    /// Whether the momentary window is full.
    pub fn momentary_full(&self) -> (full: bool)
        requires
            self.is_valid(),
        ensures
            full == (self@.len() >= self.momentary()),
    {
        self.energies.len() >= self.momentary_frames
    }

    /// Whether the short-term window is full.
    pub fn short_term_full(&self) -> (full: bool)
        requires
            self.is_valid(),
        ensures
            full == (self@.len() >= self.short_term()),
    {
        self.energies.len() >= self.energies.capacity()
    }

    /// Takes one energy in, and tells what left each window and which blocks
    /// end here.
    pub fn push(&mut self, energy: E) -> (step: EnergyStep<E>)
        requires
            old(self).is_valid(),
            old(self).count() < u64::MAX,
        ensures
            final(self).is_valid(),
            final(self).momentary() == old(self).momentary(),
            final(self).short_term() == old(self).short_term(),
            final(self).step() == old(self).step(),
            final(self).count() == old(self).count() + 1,
            final(self)@ == newest(old(self)@.push(energy), old(self).short_term()),
            step.leaving_momentary == leaving(old(self)@, old(self).momentary()),
            step.leaving_short_term == leaving(old(self)@, old(self).short_term()),
            step.momentary_full == (final(self)@.len() >= old(self).momentary()),
            step.short_term_full == (final(self)@.len() >= old(self).short_term()),
            step.integrated_due == block_due(
                final(self).count() as int,
                old(self).momentary(),
                old(self).step(),
            ),
            step.short_term_due == block_due(
                final(self).count() as int,
                old(self).short_term(),
                old(self).step(),
            ),
    {
        let kept: usize = self.energies.len();
        let short_term: usize = self.energies.capacity();
        let leaving_momentary = if kept >= self.momentary_frames {
            self.energies.get(kept - self.momentary_frames)
        } else {
            None
        };
        let leaving_short_term = if kept >= short_term {
            self.energies.get(0)
        } else {
            None
        };
        self.energies.push(energy);
        self.processed = self.processed + 1;
        let momentary: u64 = self.momentary_frames as u64;
        let step: u64 = self.step_frames as u64;
        let whole: u64 = short_term as u64;
        EnergyStep {
            leaving_momentary,
            leaving_short_term,
            momentary_full: self.energies.len() >= self.momentary_frames,
            short_term_full: self.energies.len() >= short_term,
            integrated_due: self.processed >= momentary && (self.processed - momentary) % step == 0,
            short_term_due: self.processed >= whole && (self.processed - whole) % step == 0,
        }
    }

    /// Forgets every energy and starts to count again.
    pub fn reset(&mut self)
        requires
            old(self).is_valid(),
        ensures
            final(self).is_valid(),
            final(self).momentary() == old(self).momentary(),
            final(self).short_term() == old(self).short_term(),
            final(self).step() == old(self).step(),
            final(self).count() == 0,
            final(self)@ == Seq::<E>::empty(),
    {
        self.energies.reset();
        self.processed = 0;
    }
}

/// Blocks follow each other at every step and never in between: with a step of
/// a quarter of the window, neighbouring blocks share three quarters.
pub proof fn blocks_come_at_every_step(processed: int, window: int, step: int, later: int)
    requires
        step > 0,
        block_due(processed, window, step),
        0 < later <= step,
    ensures
        block_due(processed + later, window, step) == (later == step),
{
    let offset = processed - window;
    vstd::arithmetic::div_mod::lemma_fundamental_div_mod(offset, step);
    if later < step {
        vstd::arithmetic::div_mod::lemma_fundamental_div_mod_converse(
            offset + later,
            step,
            offset / step,
            later,
        );
    } else {
        vstd::arithmetic::div_mod::lemma_mod_add_multiples_vanish(offset, step);
        assert(step + offset == processed + later - window);
    }
}

/// A running sum that adds what arrives and takes away what leaves is the sum
/// of the window: nothing drifts, however long the stream is.
pub proof fn running_sum_is_the_window_sum(energies: Seq<int>, energy: int, frames: int)
    requires
        frames > 0,
    ensures
        total(newest(energies.push(energy), frames)) == total(newest(energies, frames)) + energy
            - (match leaving(energies, frames) {
            Some(gone) => gone,
            None => 0,
        }),
{
    let before = newest(energies, frames);
    let after = newest(energies.push(energy), frames);
    assert(before.push(energy).drop_last() =~= before);
    assert(total(before.push(energy)) == total(before) + energy);
    if energies.len() >= frames {
        assert(before.push(energy) =~= seq![energies[energies.len() - frames]] + after);
        total_of_first_and_rest(energies[energies.len() - frames], after);
    } else {
        assert(after =~= before.push(energy));
    }
}

/// A sum splits off its first item.
proof fn total_of_first_and_rest(first: int, rest: Seq<int>)
    ensures
        total(seq![first] + rest) == first + total(rest),
    decreases rest.len(),
{
    let whole = seq![first] + rest;
    if rest.len() == 0 {
        assert(whole.drop_last() =~= Seq::<int>::empty());
        assert(total(whole.drop_last()) == 0);
    } else {
        assert(whole.drop_last() =~= seq![first] + rest.drop_last());
        total_of_first_and_rest(first, rest.drop_last());
    }
}

/// No block ends before its window is full, and the first one ends as soon as it is;
/// later ones end whole steps behind it.
pub proof fn first_block_ends_with_the_full_window(window: int, step: int, processed: int)
    requires
        window > 0,
        step > 0,
        0 <= processed,
    ensures
        processed < window ==> !block_due(processed, window, step),
        block_due(window, window, step),
        block_due(processed, window, step) ==> exists|steps: int|
            steps >= 0 && processed == window + #[trigger] (steps * step),
        forall|steps: int| steps >= 0 ==> block_due(window + #[trigger] (steps * step), window, step),
{
    vstd::arithmetic::div_mod::lemma_small_mod(0, step as nat);
    if block_due(processed, window, step) {
        let offset = processed - window;
        vstd::arithmetic::div_mod::lemma_fundamental_div_mod(offset, step);
        vstd::arithmetic::div_mod::lemma_div_pos_is_pos(offset, step);
        let steps = offset / step;
        assert(steps * step == step * steps) by (nonlinear_arith);
        assert(processed == window + steps * step);
    }
    assert forall|steps: int| steps >= 0 implies block_due(
        window + #[trigger] (steps * step),
        window,
        step,
    ) by {
        vstd::arithmetic::div_mod::lemma_mod_multiples_basic(steps, step);
        assert(0 <= steps * step) by (nonlinear_arith)
            requires
                steps >= 0,
                step > 0,
        ;
    }
}

/// What leaves a window is its oldest item: the one that came as many items ago as the
/// window has room for. While there is room, nothing leaves.
pub proof fn the_oldest_leaves<E>(energies: Seq<E>, energy: E, frames: int)
    requires
        frames > 0,
    ensures
        energies.len() < frames ==> leaving(energies, frames) is None,
        energies.len() >= frames ==> leaving(energies, frames) == Some(newest(energies, frames)[0]),
        energies.len() >= frames ==> newest(energies, frames).push(energy) == seq![
            leaving(energies, frames)->0,
        ] + newest(energies.push(energy), frames),
{
    if energies.len() >= frames {
        assert(newest(energies, frames).push(energy) =~= seq![leaving(energies, frames)->0]
            + newest(energies.push(energy), frames));
    }
}

} // verus!
