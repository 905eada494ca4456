use vstd::prelude::*;

verus! {

pub const NANOS_PER_SEC: u64 = 1_000_000_000;

/// The timers and the display run at 60 Hz.
pub const TICK_HZ: u64 = 60;

/// Length of one timer tick.
pub const TICK_NANOS: u64 = NANOS_PER_SEC / TICK_HZ;

/// What the run loop does after one instruction.
#[derive(Clone, Copy, Debug, PartialEq, Eq, Structural)]
pub struct Pace {
    /// A tick is due: count the timers down and hand over the frame.
    pub tick: bool,
    /// How long to sleep so that instructions keep to the configured rate.
    pub pause_nanos: u64,
}

/// Time from `from` to `to` on a monotonic clock; zero if `to` is earlier.
pub open spec fn elapsed(from: u64, to: u64) -> int {
    if to >= from {
        to - from
    } else {
        0
    }
}

/// The two clocks of the run loop: the budget of one instruction, and the time
/// of the last tick. Times are nanoseconds on a monotonic clock.
pub struct Pacer {
    per_instruction: u64,
    last_tick: u64,
}

impl Pacer {
    pub closed spec fn per_instruction(&self) -> u64 {
        self.per_instruction
    }

    pub closed spec fn last_tick(&self) -> u64 {
        self.last_tick
    }

    /// Paces `ips` instructions per second, counting ticks from `now`.
    pub fn new(ips: usize, now: u64) -> (p: Pacer)
        requires
            ips > 0,
        ensures
            p.per_instruction() == NANOS_PER_SEC as int / ips as int,
            p.last_tick() == now,
    {
        Pacer { per_instruction: NANOS_PER_SEC / ips as u64, last_tick: now }
    }

    /// The decision after an instruction that started at `started` and ended at
    /// `now`: a tick is due once more than one tick period has passed since the
    /// last, and the loop sleeps for what is left of the instruction's budget.
    pub fn after_instruction(&mut self, started: u64, now: u64) -> (p: Pace)
        ensures
            p.tick == (elapsed(old(self).last_tick(), now) > TICK_NANOS),
            final(self).last_tick() == if p.tick {
                now
            } else {
                old(self).last_tick()
            },
            final(self).per_instruction() == old(self).per_instruction(),
            p.pause_nanos == if elapsed(started, now) < old(self).per_instruction() {
                old(self).per_instruction() - elapsed(started, now)
            } else {
                0
            },
    {
        let since_tick = now.saturating_sub(self.last_tick);
        let tick = since_tick > TICK_NANOS;
        if tick {
            self.last_tick = now;
        }
        let busy = now.saturating_sub(started);
        let pause_nanos = if busy < self.per_instruction {
            self.per_instruction - busy
        } else {
            0
        };
        Pace { tick, pause_nanos }
    }
}

} // verus!
