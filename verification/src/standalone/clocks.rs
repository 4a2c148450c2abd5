//! The clocks of the window: when it redraws, when it tries a lost GPU again,
//! how many blocks of the demo programme a tick makes, and when the slow readings
//! are taken.
//!
//! Moments are nanoseconds since the instrument was started.
use vstd::prelude::*;

verus! {

/// From one frame to the next.
pub const FRAME_INTERVAL: u64 = 16_666_667;

/// From one attempt to make a renderer to the next.
pub const GPU_RECOVERY_INTERVAL: u64 = 1_000_000_000;

/// Frames in one block of the programme.
pub const BLOCK_FRAMES: usize = 800;

/// The most blocks of the demo programme that one tick makes.
pub const MAX_DEMO_BLOCKS_PER_TICK: usize = 8;

/// A moment that is so much later, or the last one there is.
pub open spec fn later(now: u64, by: u64) -> u64 {
    if now + by <= u64::MAX {
        (now + by) as u64
    } else {
        u64::MAX
    }
}

/// What the window does next.
#[derive(Clone, Copy, Debug, PartialEq, Eq, Structural)]
pub enum Idle {
    /// Sleep until something happens.
    Wait,
    /// Sleep until a moment, after asking for a redraw where one is due.
    Until { moment: u64, redraw: bool },
}

/// When the window redraws, and when it tries a lost GPU again.
#[derive(Clone, Copy, Debug, PartialEq, Eq, Structural)]
pub struct FrameClock {
    pub next_frame: u64,
    pub next_gpu_recovery: u64,
    pub occluded: bool,
}

impl FrameClock {
    /// Whether a frame is due: the window is seen and its moment has come.
    pub open spec fn is_due(self, now: u64) -> bool {
        !self.occluded && now >= self.next_frame
    }

    /// The clock after the window had nothing else to do.
    pub open spec fn after_idle(self, now: u64) -> Self {
        if self.is_due(now) {
            FrameClock { next_frame: later(now, FRAME_INTERVAL), ..self }
        } else {
            self
        }
    }

    /// Whether a lost renderer is tried again.
    pub open spec fn is_retried(self, has_renderer: bool, now: u64) -> bool {
        !has_renderer && now >= self.next_gpu_recovery
    }

    /// The clock after a renderer was or was not tried.
    pub open spec fn after_retry(self, has_renderer: bool, now: u64) -> Self {
        if self.is_retried(has_renderer, now) {
            FrameClock { next_gpu_recovery: later(now, GPU_RECOVERY_INTERVAL), ..self }
        } else {
            self
        }
    }

    /// A clock that is due at once.
    pub fn new(now: u64) -> (clock: Self)
        ensures
            clock == (FrameClock { next_frame: now, next_gpu_recovery: now, occluded: false }),
    {
        FrameClock { next_frame: now, next_gpu_recovery: now, occluded: false }
    }

    /// The window can be drawn from now on.
    pub fn start(&mut self, now: u64)
        ensures
            *final(self) == (FrameClock { next_frame: now, ..*old(self) }),
    {
        self.next_frame = now;
    }

    /// Something covers the window, or no longer does; a window that is seen
    /// again redraws at once.
    pub fn set_occluded(&mut self, occluded: bool, now: u64) -> (redraw: bool)
        ensures
            redraw == !occluded,
            *final(self) == (FrameClock {
                occluded,
                next_frame: if occluded {
                    old(self).next_frame
                } else {
                    now
                },
                ..*old(self)
            }),
    {
        self.occluded = occluded;
        if !occluded {
            self.next_frame = now;
        }
        !occluded
    }

    /// What the window does when it has nothing else to do. Nothing is drawn
    /// while it is covered; else a redraw is asked for when a frame is due, and
    /// the next one is due an interval later.
    pub fn idle(&mut self, now: u64) -> (idle: Idle)
        ensures
            *final(self) == old(self).after_idle(now),
            idle matches Idle::Until { moment, redraw } ==> redraw == old(self).is_due(now),
            idle == Idle::Wait <==> old(self).occluded,
            old(self).occluded ==> idle == Idle::Wait && *final(self) == *old(self),
            !old(self).occluded ==> {
                &&& idle == (Idle::Until {
                    moment: final(self).next_frame,
                    redraw: now >= old(self).next_frame,
                })
                &&& *final(self) == (FrameClock {
                    next_frame: if now >= old(self).next_frame {
                        later(now, FRAME_INTERVAL)
                    } else {
                        old(self).next_frame
                    },
                    ..*old(self)
                })
            },
    {
        if self.occluded {
            return Idle::Wait;
        }
        let redraw = now >= self.next_frame;
        if redraw {
            self.next_frame = now.saturating_add(FRAME_INTERVAL);
        }
        Idle::Until { moment: self.next_frame, redraw }
    }

    /// The renderer was lost: it is tried again at the next occasion.
    pub fn lose_renderer(&mut self, now: u64)
        ensures
            *final(self) == (FrameClock { next_gpu_recovery: now, ..*old(self) }),
    {
        self.next_gpu_recovery = now;
    }

    /// Whether a renderer is to be made now. One that exists is left alone;
    /// attempts are no closer together than the recovery interval.
    pub fn try_recovery(&mut self, has_renderer: bool, now: u64) -> (attempt: bool)
        ensures
            attempt == old(self).is_retried(has_renderer, now),
            *final(self) == old(self).after_retry(has_renderer, now),
            attempt == (!has_renderer && now >= old(self).next_gpu_recovery),
            *final(self) == (FrameClock {
                next_gpu_recovery: if attempt {
                    later(now, GPU_RECOVERY_INTERVAL)
                } else {
                    old(self).next_gpu_recovery
                },
                ..*old(self)
            }),
    {
        if has_renderer || now < self.next_gpu_recovery {
            return false;
        }
        self.next_gpu_recovery = now.saturating_add(GPU_RECOVERY_INTERVAL);
        true
    }
}

/// The blocks of the demo programme that one tick makes. Time is kept in floating
/// point outside; a tick is told, before each block, whether the time of a whole
/// block is still pending.
#[derive(Clone, Copy, Debug, PartialEq, Eq, Structural)]
pub struct DemoTick {
    made: usize,
}

impl DemoTick {
    /// Whether no more blocks were made than one tick makes.
    pub closed spec fn is_valid(self) -> bool {
        self.made <= MAX_DEMO_BLOCKS_PER_TICK
    }

    /// How many blocks were made.
    pub closed spec fn count(self) -> int {
        self.made as int
    }

    /// A tick that has made no block yet.
    pub fn new() -> (tick: Self)
        ensures
            tick.is_valid(),
            tick.count() == 0,
    {
        DemoTick { made: 0 }
    }

    /// Whether another block is made: the time of one is pending, and the tick has
    /// not made all that it may. What is pending then stays for the next tick.
    pub fn another(&mut self, block_pending: bool) -> (make: bool)
        requires
            old(self).is_valid(),
        ensures
            final(self).is_valid(),
            make == (block_pending && old(self).count() < MAX_DEMO_BLOCKS_PER_TICK),
            final(self).count() == old(self).count() + (if make {
                1int
            } else {
                0int
            }),
            final(self).count() <= MAX_DEMO_BLOCKS_PER_TICK,
    {
        if block_pending && self.made < MAX_DEMO_BLOCKS_PER_TICK {
            self.made = self.made + 1;
            true
        } else {
            false
        }
    }
}

/// When the readings that scan the whole programme are taken: no more than once
/// for each second of audio.
#[derive(Clone, Copy, Debug, PartialEq, Eq, Structural)]
pub struct SlowRefresh {
    pub next_frame: u64,
}

impl SlowRefresh {
    /// Whether the readings are taken after so many frames.
    pub open spec fn is_due(self, processed_frames: u64) -> bool {
        processed_frames >= self.next_frame
    }

    /// What is awaited after the readings were or were not taken.
    pub open spec fn after(self, processed_frames: u64, sample_rate: u32) -> Self {
        if self.is_due(processed_frames) {
            SlowRefresh { next_frame: later(processed_frames, sample_rate as u64) }
        } else {
            self
        }
    }

    /// A first reading that is due at once.
    pub fn new() -> (refresh: Self)
        ensures
            refresh.next_frame == 0,
    {
        SlowRefresh { next_frame: 0 }
    }

    /// Whether the readings are taken after so many frames.
    pub fn due(&mut self, processed_frames: u64, sample_rate: u32) -> (due: bool)
        ensures
            due == old(self).is_due(processed_frames),
            *final(self) == old(self).after(processed_frames, sample_rate),
            due == (processed_frames >= old(self).next_frame),
            final(self).next_frame == (if due {
                later(processed_frames, sample_rate as u64)
            } else {
                old(self).next_frame
            }),
    {
        if processed_frames < self.next_frame {
            return false;
        }
        self.next_frame = processed_frames.saturating_add(sample_rate as u64);
        true
    }
}

/// A later moment is so much later, as far as moments can be counted, and never earlier.
pub proof fn later_is_later(now: u64, by: u64)
    ensures
        later(now, by) >= now,
        now + by <= u64::MAX ==> later(now, by) - now == by,
        now + by > u64::MAX ==> later(now, by) == u64::MAX,
{
}

/// Frames are drawn no closer together than a sixtieth of a second: behind one that is
/// drawn the next is due an interval later and not before. While a window is covered none
/// is.
pub proof fn frames_are_an_interval_apart(clock: FrameClock, now: u64, moment: u64)
    requires
        clock.is_due(now),
        now <= moment,
    ensures
        clock.after_idle(now).is_due(moment) ==> moment - now >= 16_666_667 || moment == u64::MAX,
        moment - now >= 16_666_667 ==> clock.after_idle(now).is_due(moment),
        !(FrameClock { occluded: true, ..clock }).is_due(moment),
        clock.after_idle(now).next_gpu_recovery == clock.next_gpu_recovery,
{
}

/// A window that is not due is left alone, and a frame that is awaited comes at its moment.
pub proof fn awaited_frames_come_at_their_moment(clock: FrameClock, now: u64)
    requires
        !clock.occluded,
    ensures
        now < clock.next_frame ==> !clock.is_due(now) && clock.after_idle(now) == clock,
        clock.is_due(clock.next_frame),
{
}

/// A lost renderer is tried again no more than once a second, and one that exists never.
pub proof fn retries_are_a_second_apart(clock: FrameClock, now: u64, moment: u64)
    requires
        clock.is_retried(false, now),
        now <= moment,
    ensures
        clock.after_retry(false, now).is_retried(false, moment) ==> moment - now >= 1_000_000_000
            || moment == u64::MAX,
        moment - now >= 1_000_000_000 ==> clock.after_retry(false, now).is_retried(false, moment),
        !clock.is_retried(true, moment),
        clock.after_retry(true, now) == clock,
        clock.after_retry(false, now).next_frame == clock.next_frame,
{
}

/// Slow readings are taken no more than once for each second of audio.
pub proof fn slow_readings_are_a_second_apart(
    refresh: SlowRefresh,
    processed: u64,
    further: u64,
    sample_rate: u32,
)
    requires
        refresh.is_due(processed),
        processed <= further,
    ensures
        refresh.after(processed, sample_rate).is_due(further) ==> further - processed >= sample_rate
            || further == u64::MAX,
        further - processed >= sample_rate ==> refresh.after(processed, sample_rate).is_due(further),
{
}

} // verus!
