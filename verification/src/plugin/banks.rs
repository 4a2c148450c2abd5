//! Which of the preallocated spectrum banks is active, and what has to be
//! cleared before one is used.
use vstd::prelude::*;

verus! {

/// How many banks there are: one for each FFT size.
pub const BANK_COUNT: usize = 5;

/// What a selection has to clear.
#[derive(Clone, Copy, Debug, PartialEq, Eq, Structural)]
pub enum BankAction {
    /// The bank was active already: nothing.
    Keep,
    /// An FFT-size choice only invalidates FFT-derived views.
    ClearSpectrum,
    /// The bank holds what was measured before a reset: everything.
    ClearAll,
}

/// Five preallocated FFT-only banks. A reset invalidates every bank logically;
/// inactive storage is cleared when it is selected rather than all at once
/// inside one audio callback.
#[derive(Clone, Copy, Debug)]
pub struct ScopeBanks {
    active: usize,
    generation: u32,
    bank_generation: [u32; 5],
}

impl ScopeBanks {
    /// Whether a bank is active and no bank is newer than the last reset.
    pub closed spec fn is_valid(self) -> bool {
        &&& self.active < BANK_COUNT
        &&& self.generation > 0
        &&& forall|i: int| 0 <= i < 5 ==> #[trigger] self.bank_generation@[i] <= self.generation
    }

    /// The bank that takes audio in.
    pub closed spec fn current(self) -> int {
        self.active as int
    }

    /// Whether a bank has been cleared since the last reset.
    pub closed spec fn is_fresh(self, bank: int) -> bool {
        self.bank_generation@[bank] == self.generation
    }

    /// The bank that an index stands for: the last one for every index beyond.
    pub open spec fn bank_at(index: usize) -> int {
        if index < BANK_COUNT {
            index as int
        } else {
            BANK_COUNT - 1
        }
    }

    /// Banks of which none has been used.
    pub fn new() -> (banks: Self)
        ensures
            banks.is_valid(),
            banks.current() == 1,
            forall|bank: int| 0 <= bank < 5 ==> !#[trigger] banks.is_fresh(bank),
    {
        ScopeBanks { active: 1, generation: 1, bank_generation: [0, 0, 0, 0, 0] }
    }

    /// The bank that takes audio in.
    pub fn active(&self) -> (bank: usize)
        requires
            self.is_valid(),
        ensures
            bank == self.current(),
            bank < BANK_COUNT,
    {
        self.active
    }

    /// Makes a bank the active one, and tells what of it has to be cleared.
    pub fn select(&mut self, index: usize) -> (action: BankAction)
        requires
            old(self).is_valid(),
        ensures
            final(self).is_valid(),
            final(self).current() == ScopeBanks::bank_at(index),
            action == (if old(self).current() == ScopeBanks::bank_at(index) {
                BankAction::Keep
            } else if old(self).is_fresh(ScopeBanks::bank_at(index)) {
                BankAction::ClearSpectrum
            } else {
                BankAction::ClearAll
            }),
            forall|bank: int|
                0 <= bank < 5 ==> #[trigger] final(self).is_fresh(bank) == (old(self).is_fresh(bank)
                    || (action == BankAction::ClearAll && bank == ScopeBanks::bank_at(index))),
            // After a reset no bank is used before it has been cleared.
            action != BankAction::Keep ==> final(self).is_fresh(final(self).current()),
            old(self).is_fresh(old(self).current()) ==> final(self).is_fresh(
                final(self).current(),
            ),
    {
        let index: usize = if index < BANK_COUNT {
            index
        } else {
            BANK_COUNT - 1
        };
        if self.active == index {
            return BankAction::Keep;
        }
        self.active = index;
        if self.bank_generation[index] != self.generation {
            self.bank_generation[index] = self.generation;
            BankAction::ClearAll
        } else {
            BankAction::ClearSpectrum
        }
    }

    /// Starts anew. The active bank has to be cleared now; each other one has to
    /// be cleared when it is next selected.
    pub fn reset(&mut self)
        requires
            old(self).is_valid(),
        ensures
            final(self).is_valid(),
            final(self).current() == old(self).current(),
            forall|bank: int|
                0 <= bank < 5 ==> #[trigger] final(self).is_fresh(bank) == (bank
                    == old(self).current()),
    {
        if self.generation < u32::MAX {
            self.generation = self.generation + 1;
        } else {
            // Zero is the stale epoch used at construction. A wrap makes
            // every bank stale and starts to count again.
            self.generation = 1;
            self.bank_generation = [0, 0, 0, 0, 0];
        }
        let active: usize = self.active;
        self.bank_generation[active] = self.generation;
    }
}

/// Every index within the banks stands for its own bank, and every other for the last.
pub proof fn indices_stand_for_banks(index: usize)
    ensures
        index < 5 ==> ScopeBanks::bank_at(index) == index,
        index >= 5 ==> ScopeBanks::bank_at(index) == 4,
{
}

} // verus!
