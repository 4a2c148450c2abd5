//! Which representations of the audio are kept up to date, and the names that
//! the scope's callers use.
use vstd::prelude::*;

verus! {

/// Bounded scope work selected for one input block.
///
/// Disabling a flag preserves its retained result until callers reset it or
/// process that flag again. This lets a shell avoid FFT work while Spectrum
/// and Spectrogram are hidden without changing audio or allocating.
#[derive(Clone, Copy, Debug, PartialEq, Eq, Structural)]
pub struct ScopeWork(pub u8);

impl Default for ScopeWork {
    fn default() -> (work: Self)
        ensures
            work == ScopeWork(0),
    {
        ScopeWork(0)
    }
}

impl ScopeWork {
    /// Whether the work set asks for the task of a number.
    pub open spec fn has(self, task: u8) -> bool {
        (self.0 >> task) & 1 == 1
    }

    /// Do rolling correlation and M/S scalar measurements.
    pub fn correlation() -> (work: Self)
        ensures
            work == ScopeWork(1),
            forall|task: u8| task < 8 ==> #[trigger] work.has(task) == (task == 0),
    {
        proof {
            single_task(1, 0);
        }
        ScopeWork(1)
    }

    /// Fill min/max waveform envelope buckets.
    pub fn waveform() -> (work: Self)
        ensures
            work == ScopeWork(2),
            forall|task: u8| task < 8 ==> #[trigger] work.has(task) == (task == 1),
    {
        proof {
            single_task(2, 1);
        }
        ScopeWork(2)
    }

    /// Fill vectorscope points.
    pub fn goniometer() -> (work: Self)
        ensures
            work == ScopeWork(4),
            forall|task: u8| task < 8 ==> #[trigger] work.has(task) == (task == 2),
    {
        proof {
            single_task(4, 2);
        }
        ScopeWork(4)
    }

    /// Retain original samples for oscilloscope drawing.
    pub fn oscilloscope() -> (work: Self)
        ensures
            work == ScopeWork(8),
            forall|task: u8| task < 8 ==> #[trigger] work.has(task) == (task == 3),
    {
        proof {
            single_task(8, 3);
        }
        ScopeWork(8)
    }

    /// Run FFT, display spectrum, and spectrogram history.
    pub fn spectrum() -> (work: Self)
        ensures
            work == ScopeWork(16),
            forall|task: u8| task < 8 ==> #[trigger] work.has(task) == (task == 4),
    {
        proof {
            single_task(16, 4);
        }
        ScopeWork(16)
    }

    /// Process no optional scope representation.
    pub fn none() -> (work: Self)
        ensures
            work == ScopeWork(0),
            forall|task: u8| task < 8 ==> !#[trigger] work.has(task),
    {
        assert forall|task: u8| task < 8 implies !#[trigger] ScopeWork(0).has(task) by {
            assert((0u8 >> task) & 1 == 0) by (bit_vector);
        }
        ScopeWork(0)
    }

    /// Process every representation.
    pub fn all() -> (work: Self)
        ensures
            work == ScopeWork(31),
            forall|task: u8| task < 8 ==> #[trigger] work.has(task) == (task < 5),
    {
        assert forall|task: u8| task < 8 implies #[trigger] ScopeWork(31).has(task) == (task
            < 5) by {
            assert(task < 8 ==> ((31u8 >> task) & 1 == 1) == (task < 5)) by (bit_vector);
        }
        ScopeWork(31)
    }

    /// Returns whether `flag` is enabled by this work set.
    pub fn contains(self, flag: Self) -> (result: bool)
        ensures
            result == forall|task: u8| task < 8 && flag.has(task) ==> #[trigger] self.has(task),
    {
        let result = self.0 & flag.0 == flag.0;
        proof {
            let own = self.0;
            let asked = flag.0;
            if result {
                assert forall|task: u8| task < 8 && flag.has(task) implies #[trigger] self.has(
                    task,
                ) by {
                    assert(own & asked == asked && (asked >> task) & 1 == 1 ==> (own >> task) & 1
                        == 1) by (bit_vector);
                }
            } else {
                let missing = asked & !own;
                assert(own & asked != asked ==> asked & !own != 0) by (bit_vector);
                let task = lowest_task(missing);
                assert(task < 8 && ((asked & !own) >> task) & 1 == 1 ==> (asked >> task) & 1 == 1
                    && (own >> task) & 1 == 0) by (bit_vector);
                assert(!self.has(task));
            }
        }
        result
    }

    /// Returns this work set with `flag` enabled.
    pub fn with(self, flag: Self) -> (work: Self)
        ensures
            forall|task: u8|
                task < 8 ==> #[trigger] work.has(task) == (self.has(task) || flag.has(task)),
    {
        proof {
            let own = self.0;
            let asked = flag.0;
            assert forall|task: u8| task < 8 implies #[trigger] ScopeWork(own | asked).has(task) == (
            self.has(task) || flag.has(task)) by {
                assert(((own | asked) >> task) & 1 == ((own >> task) & 1) | ((asked >> task) & 1))
                    by (bit_vector);
                assert(((own >> task) & 1 == 0 || (own >> task) & 1 == 1) && ((asked >> task) & 1
                    == 0 || (asked >> task) & 1 == 1)) by (bit_vector);
                assert(0u8 | 0u8 == 0 && 0u8 | 1u8 == 1 && 1u8 | 0u8 == 1 && 1u8 | 1u8 == 1)
                    by (bit_vector);
            }
        }
        ScopeWork(self.0 | flag.0)
    }

    /// Returns this work set with `flag` disabled.
    pub fn without(self, flag: Self) -> (work: Self)
        ensures
            forall|task: u8|
                task < 8 ==> #[trigger] work.has(task) == (self.has(task) && !flag.has(task)),
    {
        proof {
            let own = self.0;
            let asked = flag.0;
            assert forall|task: u8| task < 8 implies #[trigger] ScopeWork(own & !asked).has(task)
                == (self.has(task) && !flag.has(task)) by {
                assert(task < 8 ==> (((own & !asked) >> task) & 1 == 1) == ((own >> task) & 1 == 1
                    && (asked >> task) & 1 != 1)) by (bit_vector);
            }
        }
        ScopeWork(self.0 & !flag.0)
    }

    /// Whether the set asks for no task at all.
    pub fn is_empty(self) -> (result: bool)
        ensures
            result == forall|task: u8| task < 8 ==> !#[trigger] self.has(task),
    {
        proof {
            if self.0 == 0 {
                assert forall|task: u8| task < 8 implies !#[trigger] self.has(task) by {
                    assert((0u8 >> task) & 1 == 0) by (bit_vector);
                }
            } else {
                let task = lowest_task(self.0);
                assert(self.has(task));
            }
        }
        self.0 == 0
    }

    /// Whether the set asks for the task of a number.
    pub fn does(self, task: u8) -> (result: bool)
        requires
            task < 8,
        ensures
            result == self.has(task),
    {
        (self.0 >> task) & 1 == 1
    }
}

/// One bit is one task.
proof fn single_task(bits: u8, place: u8)
    requires
        (bits == 1 && place == 0) || (bits == 2 && place == 1) || (bits == 4 && place == 2) || (bits
            == 8 && place == 3) || (bits == 16 && place == 4),
    ensures
        forall|task: u8| task < 8 ==> #[trigger] ScopeWork(bits).has(task) == (task == place),
{
    assert(1u8 << 0u8 == 1 && 1u8 << 1u8 == 2 && 1u8 << 2u8 == 4 && 1u8 << 3u8 == 8 && 1u8 << 4u8
        == 16) by (bit_vector);
    assert forall|task: u8| task < 8 implies #[trigger] ScopeWork(bits).has(task) == (task
        == place) by {
        assert(task < 8 && place < 8 ==> (((1u8 << place) >> task) & 1 == 1) == (task == place))
            by (bit_vector);
    }
}

/// The number of some task that a nonempty set asks for.
proof fn lowest_task(bits: u8) -> (task: u8)
    requires
        bits != 0,
    ensures
        task < 8,
        (bits >> task) & 1 == 1,
{
    assert(bits != 0 ==> (bits >> 0u8) & 1 == 1 || (bits >> 1u8) & 1 == 1 || (bits >> 2u8) & 1
        == 1 || (bits >> 3u8) & 1 == 1 || (bits >> 4u8) & 1 == 1 || (bits >> 5u8) & 1 == 1 || (bits
        >> 6u8) & 1 == 1 || (bits >> 7u8) & 1 == 1) by (bit_vector);
    choose|task: u8| task < 8 && (bits >> task) & 1 == 1
}

} // verus!
