use vstd::prelude::*;
use crate::attack::AttackResult;
use crate::board::{Board, ClearResult, dims_ok};
use crate::engine::{Action, Engine, engine_dims, room_for, gravity_ms};

verus! {

/// A playfield of rows that pieces are written into and cleared from.
pub trait TetrisBoard: Sized {
    /// Whether the board's dimensions are supported.
    spec fn well_sized() -> bool;

    /// Whether `y` is a row of the board.
    spec fn has_row(y: int) -> bool;

    /// The value of a row with every cell occupied.
    fn full_mask() -> u64
        requires
            Self::well_sized(),
    ;

    /// An empty board.
    fn new() -> Self;

    /// Whether `mask` overlaps row `y`.
    fn collide(&self, y: u8, mask: u64) -> bool
        requires
            Self::has_row(y as int),
    ;

    /// Occupies the cells of `mask` in row `y`.
    fn place(&mut self, y: u8, mask: u64)
        requires
            Self::well_sized(),
            Self::has_row(y as int),
    ;

    /// Whether row `y` is completely occupied.
    fn full(&self, y: u8) -> bool
        requires
            Self::well_sized(),
            Self::has_row(y as int),
    ;

    /// Whether no cell is occupied.
    fn is_empty(&self) -> bool;

    /// Removes the full rows.
    fn clear_lines(&mut self) -> ClearResult
        requires
            Self::well_sized(),
    ;

    /// Pushes garbage rows up from the bottom.
    fn insert_garbage(&mut self, lines: u8, hole_x: u8)
        requires
            Self::well_sized(),
    ;
}

impl<const W: usize, const H: usize> TetrisBoard for Board<W, H> {
    open spec fn well_sized() -> bool {
        dims_ok(W, H)
    }

    open spec fn has_row(y: int) -> bool {
        0 <= y < H
    }

    fn full_mask() -> (r: u64)
        ensures
            r == Board::<W, H>::full_bits(),
    {
        Board::<W, H>::full_mask()
    }

    fn new() -> (b: Self)
        ensures
            b.empty(),
    {
        Board::<W, H>::new()
    }

    fn collide(&self, y: u8, mask: u64) -> (r: bool)
        ensures
            r == (self.rows[y as int] & mask != 0),
    {
        Board::<W, H>::collide(self, y, mask)
    }

    fn place(&mut self, y: u8, mask: u64)
        ensures
            final(self).rows[y as int] == old(self).rows[y as int] | (mask & Board::<W, H>::full_bits()),
            forall|i: int| 0 <= i < H && i != y ==> #[trigger] final(self).rows[i] == old(self).rows[i],
    {
        Board::<W, H>::place(self, y, mask)
    }

    fn full(&self, y: u8) -> (r: bool)
        ensures
            r == (self.rows[y as int] == Board::<W, H>::full_bits()),
    {
        Board::<W, H>::full(self, y)
    }

    fn is_empty(&self) -> (r: bool)
        ensures
            r == self.empty(),
    {
        Board::<W, H>::is_empty(self)
    }

    fn clear_lines(&mut self) -> (res: ClearResult)
        ensures
            final(self).rows@ == old(self).cleared_rows(),
            res.count == old(self).full_count_from(0),
    {
        Board::<W, H>::clear_lines(self)
    }

    fn insert_garbage(&mut self, lines: u8, hole_x: u8)
        ensures
            final(self).rows@ == old(self).garbage_inserted(lines as int, hole_x as int),
    {
        Board::<W, H>::insert_garbage(self, lines, hole_x)
    }
}

/// A game that takes actions and time and locks pieces.
pub trait GameEngine: Sized {
    /// Whether an engine can be made for these dimensions.
    spec fn constructible() -> bool;

    /// Whether the engine may take an action or a spawn.
    spec fn can_act(&self) -> bool;

    /// Whether the engine may run `delta_ms` of gravity.
    spec fn can_run(&self, delta_ms: u32) -> bool;

    /// A new engine with no game running.
    fn new() -> Self
        requires
            Self::constructible(),
    ;

    /// Starts a new game from `seed`.
    fn reset(&mut self, seed: u32)
        requires
            old(self).can_act(),
    ;

    /// Brings in the next piece.
    fn spawn(&mut self)
        requires
            old(self).can_act(),
    ;

    /// Acts on one input and returns the attack it sent.
    fn handle_action(&mut self, action: Action) -> AttackResult
        requires
            old(self).can_act(),
    ;

    /// Runs `delta_ms` milliseconds of gravity and returns the last attack.
    fn tick(&mut self, delta_ms: u32) -> AttackResult
        requires
            old(self).can_run(delta_ms),
    ;

    /// Milliseconds left before the active piece locks.
    fn get_lock_timer(&self) -> i32;
}

impl<const W: usize, const H: usize> GameEngine for Engine<W, H> {
    open spec fn constructible() -> bool {
        engine_dims(W, H)
    }

    open spec fn can_act(&self) -> bool {
        engine_dims(W, H) && self@.wf() && room_for(self@, 1)
    }

    open spec fn can_run(&self, delta_ms: u32) -> bool {
        &&& engine_dims(W, H)
        &&& self@.wf()
        &&& self@.gravity_accumulator + delta_ms <= u32::MAX
        &&& room_for(self@, (self@.gravity_accumulator + delta_ms) / (gravity_ms(self@.scorer.level) as int))
    }

    fn new() -> (e: Self)
        ensures
            e@ == crate::engine::initial_view::<W, H>(),
    {
        Engine::<W, H>::new()
    }

    fn reset(&mut self, seed: u32)
        ensures
            final(self)@ == crate::engine::restarted(old(self)@, seed, 1),
    {
        Engine::<W, H>::reset(self, seed)
    }

    fn spawn(&mut self)
        ensures
            final(self)@ == crate::engine::spawned(old(self)@),
    {
        Engine::<W, H>::spawn(self)
    }

    fn handle_action(&mut self, action: Action) -> (res: AttackResult)
        ensures
            (final(self)@, res) == crate::engine::acted(old(self)@, action),
    {
        proof {
            crate::engine::lemma_room_action_fits(self@, action);
        }
        Engine::<W, H>::handle_action(self, action)
    }

    fn tick(&mut self, delta_ms: u32) -> (res: AttackResult)
        ensures
            old(self)@.game_over ==> final(self)@ == old(self)@ && res == crate::attack::no_attack(),
            !old(self)@.game_over ==> exists|fired: Seq<bool>|
                (final(self)@, res) == #[trigger] crate::engine::ticked_on_clock(old(self)@, delta_ms, fired),
    {
        Engine::<W, H>::tick(self, delta_ms)
    }

    fn get_lock_timer(&self) -> (r: i32)
        ensures
            !self@.wall_active ==> r == 0,
    {
        Engine::<W, H>::get_lock_timer(self)
    }
}

} // verus!
