use vstd::prelude::*;
use crate::app_state::{Key, Message};
use crate::cli::CliConfig;

verus! {

/// Nanoseconds in a millisecond.
pub const NANOS_PER_MS: u64 = 1_000_000;
/// Time between two game ticks of the client loop, in milliseconds.
pub const TICK_INTERVAL_MS: u64 = 20;
/// Time between two drawn frames of the client loop, in milliseconds.
pub const FRAME_INTERVAL_MS: u64 = 16;

/// When a held key went down and when it last repeated, in nanoseconds on
/// the caller's monotonic clock.
#[derive(Debug, Clone, Copy, PartialEq, Eq, Structural)]
pub struct KeyState {
    pub pressed_at: u64,
    pub last_repeat: u64,
}

/// Whether holding `key` repeats it: the left, right and down arrows.
pub open spec fn repeatable(key: Key) -> bool {
    key == Key::Left || key == Key::Right || key == Key::Down
}

/// Whether holding `code` repeats it; see `repeatable`.
pub fn is_repeatable(code: &Key) -> (r: bool)
    ensures
        r == repeatable(*code),
{
    match code {
        Key::Left | Key::Right | Key::Down => true,
        _ => false,
    }
}

/// Whole milliseconds from `then` to `now`, zero if `now` is not later.
pub open spec fn elapsed_ms(now: u64, then: u64) -> u64 {
    if now > then {
        ((now - then) / (NANOS_PER_MS as int)) as u64
    } else {
        0
    }
}

/// Whether a held key repeats at `now`: its repeat delay `das` passed since
/// it went down, and its repeat interval `arr` passed since it last
/// repeated (an interval of zero repeats on every check).
pub open spec fn repeat_due(s: KeyState, now: u64, das: u64, arr: u64) -> bool {
    elapsed_ms(now, s.pressed_at) >= das && (arr == 0 || elapsed_ms(now, s.last_repeat) >= arr)
}

/// The key messages the held keys `held` repeat at `now`, in order.
pub open spec fn repeats(held: Seq<(Key, KeyState)>, now: u64, das: u64, arr: u64) -> Seq<Message>
    decreases held.len(),
{
    if held.len() == 0 {
        Seq::empty()
    } else {
        let r = repeats(held.drop_last(), now, das, arr);
        if repeat_due(held.last().1, now, das, arr) {
            r.push(Message::Key(held.last().0))
        } else {
            r
        }
    }
}

/// The held keys other than `key`, in order.
pub open spec fn without_key(held: Seq<(Key, KeyState)>, key: Key) -> Seq<(Key, KeyState)>
    decreases held.len(),
{
    if held.len() == 0 {
        held
    } else {
        let r = without_key(held.drop_last(), key);
        if held.last().0 != key {
            r.push(held.last())
        } else {
            r
        }
    }
}

/// No key is held twice.
pub open spec fn keys_distinct(held: Seq<(Key, KeyState)>) -> bool {
    forall|i: int, j: int| 0 <= i < j < held.len() ==> #[trigger] held[i].0 != #[trigger] held[j].0
}

/// Every key left after removing `key` was held before, and `key` is gone.
pub proof fn lemma_without_key(held: Seq<(Key, KeyState)>, key: Key)
    ensures
        without_key(held, key).len() <= held.len(),
        forall|k: int| 0 <= k < without_key(held, key).len() ==> exists|j: int|
            0 <= j < held.len() && #[trigger] without_key(held, key)[k] == held[j] && held[j].0 != key,
    decreases held.len(),
{
    if held.len() > 0 {
        let r = without_key(held.drop_last(), key);
        lemma_without_key(held.drop_last(), key);
        assert forall|k: int| 0 <= k < without_key(held, key).len() implies exists|j: int|
            0 <= j < held.len() && #[trigger] without_key(held, key)[k] == held[j] && held[j].0 != key by {
            if k < r.len() {
                let j = choose|j: int| 0 <= j < held.drop_last().len() && r[k] == held.drop_last()[j] && held.drop_last()[j].0 != key;
                assert(held[j] == held.drop_last()[j]);
            } else {
                assert(without_key(held, key)[k] == held[held.len() - 1]);
            }
        }
    }
}

/// Removing a key keeps the held keys distinct.
proof fn lemma_without_key_distinct(held: Seq<(Key, KeyState)>, key: Key)
    requires
        keys_distinct(held),
    ensures
        keys_distinct(without_key(held, key)),
    decreases held.len(),
{
    if held.len() > 0 {
        let d = held.drop_last();
        let r = without_key(d, key);
        assert(keys_distinct(d)) by {
            assert forall|i: int, j: int| 0 <= i < j < d.len() implies #[trigger] d[i].0 != #[trigger] d[j].0 by {
                assert(held[i].0 != held[j].0);
            }
        }
        lemma_without_key_distinct(d, key);
        lemma_without_key(d, key);
        if held.last().0 != key {
            let t = r.push(held.last());
            assert forall|i: int, j: int| 0 <= i < j < t.len() implies #[trigger] t[i].0 != #[trigger] t[j].0 by {
                if j < r.len() {
                    assert(r[i].0 != r[j].0);
                } else {
                    let m = choose|m: int| 0 <= m < d.len() && #[trigger] r[i] == d[m] && d[m].0 != key;
                    assert(held[m] == d[m]);
                    assert(held[m].0 != held[held.len() - 1].0);
                }
            }
        }
    }
}

/// Turns terminal key events into client messages, repeating held arrows
/// after the repeat delay (`das_ms`) every repeat interval (`arr_ms`).
pub struct InputHandler {
    pub held_keys: Vec<(Key, KeyState)>,
    pub das_ms: u64,
    pub arr_ms: u64,
}

impl InputHandler {
    /// No key held, with the configured repeat delay and interval.
    pub fn new(config: &CliConfig) -> (h: Self)
        ensures
            h.held_keys@.len() == 0,
            h.das_ms == config.das_ms,
            h.arr_ms == config.arr_ms,
    {
        InputHandler { held_keys: Vec::new(), das_ms: config.das_ms as u64, arr_ms: config.arr_ms as u64 }
    }

    fn remove_key(&mut self, key: Key)
        ensures
            final(self).held_keys@ == without_key(old(self).held_keys@, key),
            final(self).das_ms == old(self).das_ms,
            final(self).arr_ms == old(self).arr_ms,
            keys_distinct(old(self).held_keys@) ==> keys_distinct(final(self).held_keys@),
    {
        let mut rest: Vec<(Key, KeyState)> = Vec::new();
        std::mem::swap(&mut rest, &mut self.held_keys);
        let ghost orig = rest@;
        let mut kept: Vec<(Key, KeyState)> = Vec::new();
        let mut i: usize = 0;
        while i < rest.len()
            invariant
                i <= rest@.len(),
                rest@ == orig,
                kept@ == without_key(orig.take(i as int), key),
            decreases rest@.len() - i,
        {
            assert(orig.take(i + 1).drop_last() =~= orig.take(i as int));
            let entry = rest[i];
            if entry.0 != key {
                kept.push(entry);
            }
            i = i + 1;
        }
        assert(orig.take(i as int) =~= orig);
        self.held_keys = kept;
        proof {
            if keys_distinct(orig) {
                lemma_without_key_distinct(orig, key);
            }
        }
    }

    /// A key went down at `now`: it becomes a message, and a repeatable key
    /// is (re)held from `now`.
    pub fn key_pressed(&mut self, key: Key, now: u64) -> (m: Message)
        ensures
            m == Message::Key(key),
            final(self).das_ms == old(self).das_ms,
            final(self).arr_ms == old(self).arr_ms,
            repeatable(key) ==> final(self).held_keys@ == without_key(old(self).held_keys@, key).push(
                (key, KeyState { pressed_at: now, last_repeat: now }),
            ),
            !repeatable(key) ==> final(self).held_keys@ == old(self).held_keys@,
            keys_distinct(old(self).held_keys@) ==> keys_distinct(final(self).held_keys@),
    {
        if is_repeatable(&key) {
            self.remove_key(key);
            let ghost before = self.held_keys@;
            proof {
                lemma_without_key(old(self).held_keys@, key);
            }
            self.held_keys.push((key, KeyState { pressed_at: now, last_repeat: now }));
            proof {
                if keys_distinct(old(self).held_keys@) {
                    let t = self.held_keys@;
                    assert forall|i: int, j: int| 0 <= i < j < t.len() implies #[trigger] t[i].0 != #[trigger] t[j].0 by {
                        if j < before.len() {
                            assert(before[i].0 != before[j].0);
                        } else {
                            let m = choose|m: int| 0 <= m < old(self).held_keys@.len() && #[trigger] before[i] == old(self).held_keys@[m]
                                && old(self).held_keys@[m].0 != key;
                        }
                    }
                }
            }
        }
        Message::Key(key)
    }

    /// A key came up: it is no longer held.
    pub fn key_released(&mut self, key: Key)
        ensures
            final(self).held_keys@ == without_key(old(self).held_keys@, key),
            final(self).das_ms == old(self).das_ms,
            final(self).arr_ms == old(self).arr_ms,
            keys_distinct(old(self).held_keys@) ==> keys_distinct(final(self).held_keys@),
    {
        self.remove_key(key);
    }

    /// The repeats due at `now` (see `repeats`); each repeated key's last
    /// repeat becomes `now`.
    pub fn process_repeats(&mut self, now: u64) -> (msgs: Vec<Message>)
        ensures
            msgs@ == repeats(old(self).held_keys@, now, old(self).das_ms, old(self).arr_ms),
            final(self).held_keys@.len() == old(self).held_keys@.len(),
            forall|i: int| 0 <= i < old(self).held_keys@.len() ==> #[trigger] final(self).held_keys@[i] == ({
                let (k, s) = old(self).held_keys@[i];
                if repeat_due(s, now, old(self).das_ms, old(self).arr_ms) {
                    (k, KeyState { last_repeat: now, ..s })
                } else {
                    (k, s)
                }
            }),
            final(self).das_ms == old(self).das_ms,
            final(self).arr_ms == old(self).arr_ms,
    {
        let ghost orig = self.held_keys@;
        let mut msgs: Vec<Message> = Vec::new();
        let mut i: usize = 0;
        while i < self.held_keys.len()
            invariant
                i <= self.held_keys@.len(),
                self.held_keys@.len() == orig.len(),
                self.das_ms == old(self).das_ms,
                self.arr_ms == old(self).arr_ms,
                msgs@ == repeats(orig.take(i as int), now, self.das_ms, self.arr_ms),
                forall|j: int| i <= j < orig.len() ==> #[trigger] self.held_keys@[j] == orig[j],
                forall|j: int| 0 <= j < i ==> #[trigger] self.held_keys@[j] == ({
                    let (k, s) = orig[j];
                    if repeat_due(s, now, self.das_ms, self.arr_ms) {
                        (k, KeyState { last_repeat: now, ..s })
                    } else {
                        (k, s)
                    }
                }),
            decreases self.held_keys@.len() - i,
        {
            assert(orig.take(i + 1).drop_last() =~= orig.take(i as int));
            let (key, state) = self.held_keys[i];
            let elapsed: u64 = if now > state.pressed_at { (now - state.pressed_at) / NANOS_PER_MS } else { 0 };
            let since_last: u64 = if now > state.last_repeat { (now - state.last_repeat) / NANOS_PER_MS } else { 0 };
            if elapsed >= self.das_ms && (self.arr_ms == 0 || since_last >= self.arr_ms) {
                msgs.push(Message::Key(key));
                self.held_keys.set(i, (key, KeyState { last_repeat: now, ..state }));
            }
            i = i + 1;
        }
        assert(orig.take(i as int) =~= orig);
        msgs
    }
}

/// When the client loop last ticked and last drew, in nanoseconds on the
/// caller's monotonic clock.
pub struct LoopClock {
    pub last_tick: u64,
    pub last_frame: u64,
}

/// How many whole tick intervals passed from `last` to `now`.
pub open spec fn ticks_due(last: u64, now: u64) -> u64 {
    if now > last {
        ((now - last) / ((TICK_INTERVAL_MS * NANOS_PER_MS) as int)) as u64
    } else {
        0
    }
}

impl LoopClock {
    /// A clock that last ticked and drew at `now`.
    pub fn new(now: u64) -> (c: Self)
        ensures
            c.last_tick == now && c.last_frame == now,
    {
        LoopClock { last_tick: now, last_frame: now }
    }

    /// The ticks the loop owes at `now`: one per whole tick interval since
    /// the last tick, which moves forward by that many intervals.
    pub fn due_ticks(&mut self, now: u64) -> (n: u64)
        ensures
            n == ticks_due(old(self).last_tick, now),
            final(self).last_tick == old(self).last_tick + n * (TICK_INTERVAL_MS * NANOS_PER_MS),
            final(self).last_frame == old(self).last_frame,
    {
        if now <= self.last_tick {
            return 0;
        }
        let interval: u64 = TICK_INTERVAL_MS * NANOS_PER_MS;
        let diff: u64 = now - self.last_tick;
        let n = diff / interval;
        proof {
            assert(n * interval <= diff) by (nonlinear_arith)
                requires
                    n == diff / interval,
                    interval > 0,
            ;
        }
        self.last_tick = self.last_tick + n * interval;
        n
    }

    /// Whether a frame is due at `now` (a frame interval passed since the
    /// last one); if so the frame is taken now.
    pub fn frame_due(&mut self, now: u64) -> (due: bool)
        ensures
            due == (now >= old(self).last_frame && now - old(self).last_frame >= FRAME_INTERVAL_MS * NANOS_PER_MS),
            final(self).last_frame == (if due { now } else { old(self).last_frame }),
            final(self).last_tick == old(self).last_tick,
    {
        if now >= self.last_frame && now - self.last_frame >= FRAME_INTERVAL_MS * NANOS_PER_MS {
            self.last_frame = now;
            true
        } else {
            false
        }
    }
}

} // verus!
