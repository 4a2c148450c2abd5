//! Histories that do not take every frame as it comes: the waveform's buckets,
//! the goniometer's points and the spectrum's input.
use crate::scope::history::{newest, History};
use vstd::prelude::*;

verus! {

/// A waveform: so many frames to a bucket, the newest buckets in fixed storage.
#[derive(Debug)]
pub struct Envelope<B> {
    buckets: History<B>,
    frames_in_current: usize,
    frames_per_bucket: usize,
}

impl<B: Copy> Envelope<B> {
    /// Whether the newest bucket is the one that is being filled.
    pub closed spec fn is_valid(self) -> bool {
        &&& self.buckets.is_valid()
        &&& 0 < self.frames_per_bucket
        &&& self.frames_in_current <= self.frames_per_bucket
        &&& (self.frames_in_current == 0) == (self.buckets@.len() == 0)
    }

    /// The buckets, oldest first.
    pub closed spec fn view(&self) -> Seq<B> {
        self.buckets@
    }

    /// How many buckets fit.
    pub closed spec fn limit(self) -> int {
        self.buckets.limit()
    }

    /// How many frames the newest bucket has.
    pub closed spec fn filled(self) -> int {
        self.frames_in_current as int
    }

    /// How many frames a bucket takes.
    pub closed spec fn width(self) -> int {
        self.frames_per_bucket as int
    }

    /// Whether the next frame goes into the newest bucket.
    pub open spec fn is_open(self) -> bool {
        0 < self.filled() < self.width()
    }

    /// Buckets take equally many frames: the first of them starts with the first frame,
    /// and from there on every bucket starts exactly its width behind the one in front
    /// of it. The states are those in front of the first frame and behind each one.
    pub proof fn buckets_take_equally_many_frames(states: Seq<Self>, width: int, frames: int)
        requires
            width > 0,
            states.len() > 0,
            0 <= frames < states.len(),
            states[0].filled() == 0,
            forall|i: int| 0 <= i < states.len() ==> (#[trigger] states[i]).width() == width,
            forall|i: int, j: int|
                0 <= i && j == i + 1 && j < states.len() ==> (#[trigger] states[j]).filled() == (
                if (#[trigger] states[i]).is_open() {
                    states[i].filled() + 1
                } else {
                    1
                }),
        ensures
            states[frames].is_open() <==> frames % width != 0,
            frames > 0 ==> states[frames].filled() == (frames - 1) % width + 1,
        decreases frames,
    {
        if frames > 0 {
            Self::buckets_take_equally_many_frames(states, width, frames - 1);
            step_modulo(frames - 1, width);
            if frames > 1 {
                step_modulo(frames - 2, width);
            } else {
                vstd::arithmetic::div_mod::lemma_small_mod(0, width as nat);
            }
            assert(states[frames].filled() == states[frames].filled() && states[frames - 1].is_open()
                == states[frames - 1].is_open());
        } else {
            vstd::arithmetic::div_mod::lemma_small_mod(0, width as nat);
        }
    }

    /// Allocates room for `limit` buckets of `frames_per_bucket` frames.
    pub fn new(limit: usize, frames_per_bucket: usize, blank: B) -> (envelope: Self)
        requires
            limit > 0,
            frames_per_bucket > 0,
        ensures
            envelope.is_valid(),
            envelope.limit() == limit,
            envelope.width() == frames_per_bucket,
            envelope.filled() == 0,
            envelope@ == Seq::<B>::empty(),
    {
        Envelope { buckets: History::new(limit, blank), frames_in_current: 0, frames_per_bucket }
    }

    /// How many buckets there are.
    pub fn len(&self) -> (count: usize)
        requires
            self.is_valid(),
        ensures
            count == self@.len(),
    {
        self.buckets.len()
    }

    /// The bucket that is behind `index` older ones.
    pub fn get(&self, index: usize) -> (bucket: Option<B>)
        requires
            self.is_valid(),
        ensures
            bucket == (if index < self@.len() {
                Some(self@[index as int])
            } else {
                None
            }),
    {
        self.buckets.get(index)
    }

    /// The bucket that the next frame goes into, if it does not start one.
    pub fn current(&self) -> (bucket: Option<B>)
        requires
            self.is_valid(),
        ensures
            bucket == (if self.is_open() {
                Some(self@.last())
            } else {
                None
            }),
    {
        if 0 < self.frames_in_current && self.frames_in_current < self.frames_per_bucket {
            self.buckets.get(self.buckets.len() - 1)
        } else {
            None
        }
    }

    /// Takes one frame in: `bucket` is the current bucket with the frame, or a
    /// fresh bucket of that frame alone where there is no current one.
    pub fn push(&mut self, bucket: B)
        requires
            old(self).is_valid(),
        ensures
            final(self).is_valid(),
            final(self).limit() == old(self).limit(),
            final(self).width() == old(self).width(),
            old(self).is_open() ==> final(self)@ == old(self)@.drop_last().push(bucket)
                && final(self).filled() == old(self).filled() + 1,
            !old(self).is_open() ==> final(self)@ == newest(
                old(self)@.push(bucket),
                old(self).limit(),
            ) && final(self).filled() == 1,
    {
        proof {
            self.buckets.has_room();
        }
        if 0 < self.frames_in_current && self.frames_in_current < self.frames_per_bucket {
            self.buckets.replace_newest(bucket);
            self.frames_in_current = self.frames_in_current + 1;
        } else {
            self.buckets.push(bucket);
            self.frames_in_current = 1;
        }
    }

    /// Copies the newest buckets, oldest first, into as much of the destination
    /// as they fill.
    pub fn copy_newest(&self, destination: &mut [B]) -> (amount: usize)
        requires
            self.is_valid(),
        ensures
            final(destination)@.len() == old(destination)@.len(),
            amount == newest(self@, old(destination)@.len() as int).len(),
            final(destination)@.take(amount as int) == newest(
                self@,
                old(destination)@.len() as int,
            ),
            forall|i: int|
                amount <= i < old(destination)@.len() ==> #[trigger] final(destination)@[i]
                    == old(destination)@[i],
    {
        self.buckets.copy_newest(destination)
    }

    /// Forgets every bucket and keeps the storage.
    pub fn reset(&mut self)
        requires
            old(self).is_valid(),
        ensures
            final(self).is_valid(),
            final(self).limit() == old(self).limit(),
            final(self).width() == old(self).width(),
            final(self).filled() == 0,
            final(self)@ == Seq::<B>::empty(),
    {
        self.buckets.reset();
        self.frames_in_current = 0;
    }
}

/// Every so many frames, one point.
#[derive(Debug)]
pub struct Decimated<P> {
    points: History<P>,
    until_point: usize,
    every: usize,
}

impl<P: Copy> Decimated<P> {
    /// Whether the countdown runs within its period.
    pub closed spec fn is_valid(self) -> bool {
        &&& self.points.is_valid()
        &&& 0 < self.every
        &&& self.until_point < self.every
    }

    /// The points, oldest first.
    pub closed spec fn view(&self) -> Seq<P> {
        self.points@
    }

    /// How many points fit.
    pub closed spec fn limit(self) -> int {
        self.points.limit()
    }

    /// How many frames are passed over before the next point.
    pub closed spec fn countdown(self) -> int {
        self.until_point as int
    }

    /// How many frames there are to a point.
    pub closed spec fn period(self) -> int {
        self.every as int
    }

    /// Allocates room for `limit` points, one out of `every` frames.
    pub fn new(limit: usize, every: usize, blank: P) -> (points: Self)
        requires
            limit > 0,
            every > 0,
        ensures
            points.is_valid(),
            points.limit() == limit,
            points.period() == every,
            points.countdown() == 0,
            points@ == Seq::<P>::empty(),
    {
        Decimated { points: History::new(limit, blank), until_point: 0, every }
    }

    /// How many points there are.
    pub fn len(&self) -> (count: usize)
        requires
            self.is_valid(),
        ensures
            count == self@.len(),
    {
        self.points.len()
    }

    /// The point that is behind `index` older ones.
    pub fn get(&self, index: usize) -> (point: Option<P>)
        requires
            self.is_valid(),
        ensures
            point == (if index < self@.len() {
                Some(self@[index as int])
            } else {
                None
            }),
    {
        self.points.get(index)
    }

    /// Takes one frame in: it becomes a point when the countdown has run out.
    pub fn push(&mut self, point: P)
        requires
            old(self).is_valid(),
        ensures
            final(self).is_valid(),
            final(self).limit() == old(self).limit(),
            final(self).period() == old(self).period(),
            final(self).countdown() == countdown_after(old(self).countdown(), old(self).period()),
            final(self)@ == (if old(self).countdown() == 0 {
                newest(old(self)@.push(point), old(self).limit())
            } else {
                old(self)@
            }),
    {
        if self.until_point == 0 {
            self.points.push(point);
            self.until_point = self.every - 1;
        } else {
            self.until_point = self.until_point - 1;
        }
    }

    /// Copies the newest points, oldest first, into as much of the destination
    /// as they fill.
    pub fn copy_newest(&self, destination: &mut [P]) -> (amount: usize)
        requires
            self.is_valid(),
        ensures
            final(destination)@.len() == old(destination)@.len(),
            amount == newest(self@, old(destination)@.len() as int).len(),
            final(destination)@.take(amount as int) == newest(
                self@,
                old(destination)@.len() as int,
            ),
            forall|i: int|
                amount <= i < old(destination)@.len() ==> #[trigger] final(destination)@[i]
                    == old(destination)@[i],
    {
        self.points.copy_newest(destination)
    }

    /// Forgets every point and keeps the storage.
    pub fn reset(&mut self)
        requires
            old(self).is_valid(),
        ensures
            final(self).is_valid(),
            final(self).limit() == old(self).limit(),
            final(self).period() == old(self).period(),
            final(self).countdown() == 0,
            final(self)@ == Seq::<P>::empty(),
    {
        self.points.reset();
        self.until_point = 0;
    }
}

/// The countdown after one more frame.
pub open spec fn countdown_after(countdown: int, period: int) -> int {
    if countdown == 0 {
        period - 1
    } else {
        countdown - 1
    }
}

/// The countdown after so many frames from the start.
pub open spec fn countdown_at(frames: nat, period: int) -> int
    decreases frames,
{
    if frames == 0 {
        0
    } else {
        countdown_after(countdown_at((frames - 1) as nat, period), period)
    }
}

/// The frames that become points are those at whole multiples of the period,
/// counted from the start or the last reset.
pub proof fn points_are_evenly_spaced(frames: nat, period: int)
    requires
        period > 0,
    ensures
        (countdown_at(frames, period) == 0) == (frames as int % period == 0),
        countdown_at(frames, period) == (period - frames as int % period) % period,
    decreases frames,
{
    if frames == 0 {
        vstd::arithmetic::div_mod::lemma_mod_self_0(period);
        vstd::arithmetic::div_mod::lemma_small_mod(0, period as nat);
    } else {
        let earlier = (frames - 1) as nat;
        points_are_evenly_spaced(earlier, period);
        step_modulo(earlier as int, period);
        let before = earlier as int % period;
        let after = frames as int % period;
        if before == 0 {
            vstd::arithmetic::div_mod::lemma_mod_self_0(period);
        } else {
            vstd::arithmetic::div_mod::lemma_small_mod((period - before) as nat, period as nat);
        }
        if after == 0 {
            vstd::arithmetic::div_mod::lemma_mod_self_0(period);
        } else {
            vstd::arithmetic::div_mod::lemma_small_mod((period - after) as nat, period as nat);
        }
    }
}

/// One more makes the remainder one more, or zero.
pub proof fn step_modulo(number: int, divisor: int)
    requires
        number >= 0,
        divisor > 0,
    ensures
        0 <= number % divisor < divisor,
        (number + 1) % divisor == (if number % divisor == divisor - 1 {
            0
        } else {
            number % divisor + 1
        }),
{
    let quotient = number / divisor;
    let rest = number % divisor;
    vstd::arithmetic::div_mod::lemma_fundamental_div_mod(number, divisor);
    if rest == divisor - 1 {
        assert((quotient + 1) * divisor == divisor * quotient + divisor) by (nonlinear_arith);
        vstd::arithmetic::div_mod::lemma_fundamental_div_mod_converse(
            number + 1,
            divisor,
            quotient + 1,
            0,
        );
    } else {
        assert(quotient * divisor == divisor * quotient) by (nonlinear_arith);
        vstd::arithmetic::div_mod::lemma_fundamental_div_mod_converse(
            number + 1,
            divisor,
            quotient,
            rest + 1,
        );
    }
}

/// The newest samples for a spectrum, and when to look at them: as soon as
/// there are enough, and then after every hop.
#[derive(Debug)]
pub struct SpectrumInput<F> {
    samples: History<F>,
    since_analysis: usize,
    hop: usize,
}

impl<F: Copy> SpectrumInput<F> {
    /// Whether the count of fresh frames is below the hop.
    pub closed spec fn is_valid(self) -> bool {
        &&& self.samples.is_valid()
        &&& 0 < self.hop
        &&& self.since_analysis < self.hop
    }

    /// The samples, oldest first.
    pub closed spec fn view(&self) -> Seq<F> {
        self.samples@
    }

    /// How many samples a spectrum takes.
    pub closed spec fn size(self) -> int {
        self.samples.limit()
    }

    /// How many frames came since the last analysis.
    pub closed spec fn fresh(self) -> int {
        self.since_analysis as int
    }

    /// How many frames lie between two analyses.
    pub closed spec fn hop_frames(self) -> int {
        self.hop as int
    }

    /// Allocates room for `size` samples, to be looked at every `hop` frames.
    pub fn new(size: usize, hop: usize, blank: F) -> (input: Self)
        requires
            size > 0,
            hop > 0,
        ensures
            input.is_valid(),
            input.size() == size,
            input.hop_frames() == hop,
            input.fresh() == 0,
            input@ == Seq::<F>::empty(),
    {
        SpectrumInput { samples: History::new(size, blank), since_analysis: 0, hop }
    }

    /// The sample that is behind `index` older ones.
    pub fn get(&self, index: usize) -> (sample: Option<F>)
        requires
            self.is_valid(),
        ensures
            sample == (if index < self@.len() {
                Some(self@[index as int])
            } else {
                None
            }),
    {
        self.samples.get(index)
    }

    /// Takes one sample in and tells whether a spectrum is due.
    pub fn push(&mut self, sample: F) -> (due: bool)
        requires
            old(self).is_valid(),
        ensures
            final(self).is_valid(),
            final(self).size() == old(self).size(),
            final(self).hop_frames() == old(self).hop_frames(),
            final(self)@ == newest(old(self)@.push(sample), old(self).size()),
            due == analysis_due(
                old(self)@.len() as int,
                old(self).fresh(),
                old(self).size(),
                old(self).hop_frames(),
            ),
            final(self).fresh() == fresh_after(
                old(self)@.len() as int,
                old(self).fresh(),
                old(self).size(),
                old(self).hop_frames(),
            ),
    {
        let count: usize = self.samples.len();
        let size: usize = self.samples.capacity();
        self.samples.push(sample);
        if count < size {
            if count + 1 == size {
                self.since_analysis = 0;
                true
            } else {
                false
            }
        } else if self.since_analysis + 1 == self.hop {
            self.since_analysis = 0;
            true
        } else {
            self.since_analysis = self.since_analysis + 1;
            false
        }
    }

    /// Forgets every sample and keeps the storage.
    pub fn reset(&mut self)
        requires
            old(self).is_valid(),
        ensures
            final(self).is_valid(),
            final(self).size() == old(self).size(),
            final(self).hop_frames() == old(self).hop_frames(),
            final(self).fresh() == 0,
            final(self)@ == Seq::<F>::empty(),
    {
        self.samples.reset();
        self.since_analysis = 0;
    }
}

/// Whether one more sample makes a spectrum due.
pub open spec fn analysis_due(count: int, fresh: int, size: int, hop: int) -> bool {
    if count < size {
        count + 1 == size
    } else {
        fresh + 1 == hop
    }
}

/// The count of fresh frames after one more sample.
pub open spec fn fresh_after(count: int, fresh: int, size: int, hop: int) -> int {
    if analysis_due(count, fresh, size, hop) {
        0
    } else if count < size {
        fresh
    } else {
        fresh + 1
    }
}

/// The count of fresh frames after so many frames from the start.
pub open spec fn fresh_at(frames: nat, size: int, hop: int) -> int
    decreases frames,
{
    if frames == 0 {
        0
    } else {
        let earlier = (frames - 1) as nat;
        let count = if earlier < size {
            earlier as int
        } else {
            size
        };
        fresh_after(count, fresh_at(earlier, size, hop), size, hop)
    }
}

/// Spectra are due exactly at the frame that fills the input and at every whole
/// hop behind it.
pub proof fn spectra_come_at_every_hop(frames: nat, size: int, hop: int)
    requires
        size > 0,
        hop > 0,
    ensures
        ({
            let count = if frames < size {
                frames as int
            } else {
                size
            };
            &&& fresh_at(frames, size, hop) == (if frames < size {
                0
            } else {
                (frames - size) % hop
            })
            &&& analysis_due(count, fresh_at(frames, size, hop), size, hop) == (frames + 1 >= size
                && (frames + 1 - size) % hop == 0)
        }),
    decreases frames,
{
    vstd::arithmetic::div_mod::lemma_small_mod(0, hop as nat);
    if frames > 0 {
        let earlier = (frames - 1) as nat;
        spectra_come_at_every_hop(earlier, size, hop);
        if earlier >= size {
            step_modulo(earlier - size, hop);
        }
    }
    if frames >= size {
        step_modulo(frames - size, hop);
    }
}

} // verus!
