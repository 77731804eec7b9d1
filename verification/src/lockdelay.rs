use vstd::prelude::*;
use std::time::Duration;
use instant::Instant;

verus! {

/// How many moves or rotations may restart the lock delay.
pub const MAX_MOVE_RESETS: u32 = 15;

/// Wall-clock lock delay in milliseconds.
pub const LOCK_DELAY_MS: u64 = 500;

/// Tick-based lock delay in fixed ticks.
pub const LOCK_DELAY_TICKS: u8 = 30;

#[verifier::external_type_specification]
#[verifier::external_body]
pub struct ExInstant(Instant);

/// The current instant, from `instant::Instant::now`. Nothing is promised
/// of its value.
#[verifier::external_body]
pub(crate) fn instant_now() -> Instant {
    Instant::now()
}

/// A duration of `ms` milliseconds, from `Duration::from_millis`.
#[verifier::external_body]
pub(crate) fn millis(ms: u64) -> Duration {
    Duration::from_millis(ms)
}

/// `t` moved forward by `d`, from `Instant::checked_add`: `None` where the
/// platform cannot represent the sum. Nothing more is promised.
#[verifier::external_body]
fn instant_checked_add(t: Instant, d: Duration) -> Option<Instant> {
    t.checked_add(d)
}

/// Whether `now` is at or after `deadline`, from `Instant`'s `>=`. Nothing
/// is promised of the answer.
#[verifier::external_body]
fn instant_reached(now: Instant, deadline: Instant) -> bool {
    now >= deadline
}

/// Time from `now` until `deadline`, zero if it has passed, from
/// `Instant::saturating_duration_since`.
#[verifier::external_body]
pub(crate) fn duration_until(deadline: Instant, now: Instant) -> Duration {
    deadline.saturating_duration_since(now)
}

/// Whole milliseconds in `d`, from `Duration::as_millis`.
#[verifier::external_body]
pub(crate) fn duration_as_millis(d: Duration) -> u128 {
    d.as_millis()
}

/// The instant `LOCK_DELAY_MS` from now (now itself, should the clock be
/// unable to represent it).
fn deadline_from_now() -> Instant {
    let now = instant_now();
    match instant_checked_add(now, millis(LOCK_DELAY_MS)) {
        Some(t) => t,
        None => now,
    }
}

/// Client-side lock delay that runs on the wall clock: the piece locks once
/// the deadline has passed.
#[derive(Debug, Clone, Copy)]
pub struct LockDelay {
    pub active: bool,
    pub move_reset_count: u32,
    pub lock_deadline: Instant,
}

impl LockDelay {
    /// An inactive timer with no resets used.
    pub fn new() -> (r: Self)
        ensures
            !r.active,
            r.move_reset_count == 0,
    {
        LockDelay { active: false, move_reset_count: 0, lock_deadline: instant_now() }
    }

    /// Arms the timer if it is not running; a running timer keeps its
    /// deadline.
    pub fn start(&mut self)
        ensures
            final(self).active,
            final(self).move_reset_count == old(self).move_reset_count,
            old(self).active ==> *final(self) == *old(self),
    {
        if !self.active {
            self.active = true;
            self.lock_deadline = deadline_from_now();
        }
    }

    /// Restarts the timer after a move: it runs again from now and one more
    /// reset is counted.
    pub fn reset(&mut self)
        requires
            old(self).move_reset_count < u32::MAX,
        ensures
            final(self).active,
            final(self).move_reset_count == old(self).move_reset_count + 1,
    {
        self.active = true;
        self.move_reset_count = self.move_reset_count + 1;
        self.lock_deadline = deadline_from_now();
    }

    /// The timer once the clock has answered whether its deadline has
    /// passed (`reached`): a running timer whose deadline has passed fires,
    /// which stops it and clears the resets; otherwise nothing changes.
    pub fn expire(&mut self, reached: bool) -> (r: bool)
        ensures
            r == (old(self).active && reached),
            r ==> *final(self) == (LockDelay { active: false, move_reset_count: 0, ..*old(self) }),
            !r ==> *final(self) == *old(self),
    {
        if self.active && reached {
            self.active = false;
            self.move_reset_count = 0;
            return true;
        }
        false
    }

    /// Whether the piece locks now: asks the clock whether the deadline has
    /// passed and acts on the answer as `expire` does; a stopped timer does
    /// not ask.
    pub fn update(&mut self) -> (r: bool)
        ensures
            !old(self).active ==> !r,
            r ==> *final(self) == (LockDelay { active: false, move_reset_count: 0, ..*old(self) }),
            !r ==> *final(self) == *old(self),
    {
        if !self.active {
            return false;
        }
        let reached = instant_reached(instant_now(), self.lock_deadline);
        self.expire(reached)
    }

    /// Stops the timer and clears the resets.
    pub fn cancel(&mut self)
        ensures
            !final(self).active,
            final(self).move_reset_count == 0,
    {
        self.active = false;
        self.move_reset_count = 0;
    }

    /// What the timer shows once the clock has answered how many whole
    /// milliseconds are left before the deadline (`left_ms`): that count
    /// truncated to `i32` as a cast would, or 0 when the timer is not
    /// running.
    pub fn shown_ms(&self, left_ms: u128) -> (r: i32)
        ensures
            r == (if self.active {
                left_ms as i32
            } else {
                0i32
            }),
    {
        if !self.active {
            return 0;
        }
        #[verifier::truncate]
        (left_ms as i32)
    }

    /// Milliseconds left before the lock, as `shown_ms` shows the clock's
    /// answer; 0 when the timer is not running, which does not ask.
    pub fn remaining_ms(&self) -> (r: i32)
        ensures
            !self.active ==> r == 0,
    {
        if !self.active {
            return 0;
        }
        let left = duration_as_millis(duration_until(self.lock_deadline, instant_now()));
        self.shown_ms(left)
    }
}

impl Default for LockDelay {
    fn default() -> (r: Self)
        ensures
            !r.active,
            r.move_reset_count == 0,
    {
        LockDelay::new()
    }
}

/// Server-side lock delay counted in fixed ticks: deterministic.
#[derive(Debug, Clone, Copy, PartialEq, Eq, Structural)]
pub struct LockDelayTicks {
    pub active: bool,
    pub move_reset_count: u8,
    pub accumulated_ticks: u8,
}

/// An inactive tick timer with nothing counted.
pub open spec fn idle_ticks() -> LockDelayTicks {
    LockDelayTicks { active: false, move_reset_count: 0, accumulated_ticks: 0 }
}

/// The tick timer after one update, and whether the piece locks: a running
/// timer counts one tick (saturating) and fires on reaching
/// `LOCK_DELAY_TICKS`, which stops it and clears it.
pub open spec fn ticked(ld: LockDelayTicks) -> (LockDelayTicks, bool) {
    if !ld.active {
        (ld, false)
    } else {
        let t = if ld.accumulated_ticks == u8::MAX {
            u8::MAX as int
        } else {
            ld.accumulated_ticks + 1
        };
        if t >= LOCK_DELAY_TICKS {
            (idle_ticks(), true)
        } else {
            (LockDelayTicks { accumulated_ticks: t as u8, ..ld }, false)
        }
    }
}

impl LockDelayTicks {
    /// An inactive timer with nothing counted.
    pub fn new() -> (r: Self)
        ensures
            r == idle_ticks(),
    {
        LockDelayTicks { active: false, move_reset_count: 0, accumulated_ticks: 0 }
    }

    /// Arms the timer; a running timer is left as it is.
    pub fn start(&mut self)
        ensures
            *final(self) == (LockDelayTicks { active: true, ..*old(self) }),
    {
        if !self.active {
            self.active = true;
        }
    }

    /// Restarts the count after a move and counts the reset (saturating).
    pub fn reset(&mut self)
        ensures
            *final(self) == (LockDelayTicks {
                active: true,
                move_reset_count: if old(self).move_reset_count == u8::MAX {
                    u8::MAX
                } else {
                    (old(self).move_reset_count + 1) as u8
                },
                accumulated_ticks: 0,
            }),
    {
        self.active = true;
        self.move_reset_count = self.move_reset_count.saturating_add(1);
        self.accumulated_ticks = 0;
    }

    /// Counts one tick and says whether the piece locks; see `ticked`.
    pub fn update(&mut self) -> (r: bool)
        ensures
            (*final(self), r) == ticked(*old(self)),
    {
        if !self.active {
            return false;
        }
        if self.move_reset_count >= MAX_MOVE_RESETS as u8 {
            self.accumulated_ticks = self.accumulated_ticks.saturating_add(1);
            if self.accumulated_ticks >= LOCK_DELAY_TICKS {
                self.active = false;
                self.move_reset_count = 0;
                self.accumulated_ticks = 0;
                return true;
            }
            return false;
        }
        self.accumulated_ticks = self.accumulated_ticks.saturating_add(1);
        if self.accumulated_ticks >= LOCK_DELAY_TICKS {
            self.active = false;
            self.move_reset_count = 0;
            self.accumulated_ticks = 0;
            return true;
        }
        false
    }

    /// Stops the timer and clears its counts.
    pub fn cancel(&mut self)
        ensures
            *final(self) == idle_ticks(),
    {
        self.active = false;
        self.move_reset_count = 0;
        self.accumulated_ticks = 0;
    }

    /// Ticks left before the lock; 0 when the timer is not running.
    pub fn remaining_ticks(&self) -> (r: u8)
        ensures
            r == (if !self.active || self.accumulated_ticks >= LOCK_DELAY_TICKS {
                0
            } else {
                LOCK_DELAY_TICKS - self.accumulated_ticks
            }),
    {
        if !self.active {
            return 0;
        }
        LOCK_DELAY_TICKS.saturating_sub(self.accumulated_ticks)
    }
}

impl Default for LockDelayTicks {
    fn default() -> (r: Self)
        ensures
            r == idle_ticks(),
    {
        LockDelayTicks::new()
    }
}

/// A running tick timer fires after exactly `LOCK_DELAY_TICKS` updates
/// from a fresh start, however many resets were used: the first
/// `LOCK_DELAY_TICKS - 1` updates keep it running.
pub proof fn lemma_ticks_fire_after_delay(ld: LockDelayTicks)
    requires
        ld.active,
        ld.accumulated_ticks < LOCK_DELAY_TICKS,
    ensures
        ld.accumulated_ticks + 1 < LOCK_DELAY_TICKS ==> !ticked(ld).1 && ticked(ld).0.active
            && ticked(ld).0.accumulated_ticks == ld.accumulated_ticks + 1
            && ticked(ld).0.move_reset_count == ld.move_reset_count,
        ld.accumulated_ticks + 1 == LOCK_DELAY_TICKS ==> ticked(ld).1 && ticked(ld).0 == idle_ticks(),
{
}

} // verus!
