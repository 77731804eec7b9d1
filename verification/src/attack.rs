use vstd::prelude::*;
use crate::board::{Board, dims_ok};
use crate::state::State;
use crate::types::Piece;

verus! {

/// What a lock sends to opponents and how it was scored.
#[derive(Debug, Clone, Copy, PartialEq, Eq, Structural)]
pub struct AttackResult {
    pub damage: i32,
    pub hole_x: u8,
    pub is_tspin: bool,
    pub is_mini: bool,
    pub is_b2b: bool,
    pub perfect_clear: bool,
    pub garbage_inserted: bool,
}

/// Garbage lines sent by a T-spin clearing 0..=4 lines.
pub const TSPIN_DMG: [i32; 5] = [0, 2, 4, 6, 8];

/// Garbage lines sent by an ordinary clear of 0..=4 lines.
pub const NORMAL_DMG: [i32; 5] = [0, 0, 1, 2, 4];

/// Extra garbage lines by combo length (capped at the last entry).
pub const COMBO_DMG: [i32; 12] = [0, 0, 1, 1, 2, 2, 3, 3, 4, 4, 4, 5];

/// Extra garbage lines for clearing the whole board.
pub const PC_BONUS: i32 = 10;

/// The result of a lock that sends nothing.
pub open spec fn no_attack() -> AttackResult {
    AttackResult {
        damage: 0,
        hole_x: 0,
        is_tspin: false,
        is_mini: false,
        is_b2b: false,
        perfect_clear: false,
        garbage_inserted: false,
    }
}

impl AttackResult {
    /// The result of a lock that sends nothing.
    pub fn none() -> (r: Self)
        ensures
            r == no_attack(),
    {
        AttackResult {
            damage: 0,
            hole_x: 0,
            is_tspin: false,
            is_mini: false,
            is_b2b: false,
            perfect_clear: false,
            garbage_inserted: false,
        }
    }
}

impl Default for AttackResult {
    fn default() -> (r: Self)
        ensures
            r == no_attack(),
    {
        AttackResult::none()
    }
}

/// Whether `(x, y)` is a wall, the floor, above the top, or an occupied cell.
pub open spec fn occupied<const W: usize, const H: usize>(board: Board<W, H>, x: int, y: int) -> bool {
    x < 0 || x >= W || y >= H || y < 0 || board.cell(y, x)
}

/// Whether the cell in column `x`, row `y` is blocked: outside the board
/// (above the top included) or occupied.
pub fn is_occupied<const W: usize, const H: usize>(board: &Board<W, H>, x: i32, y: i32) -> (r: bool)
    requires
        dims_ok(W, H),
    ensures
        r == occupied(*board, x as int, y as int),
{
    if x < 0 || x >= W as i32 || y >= H as i32 || y < 0 {
        return true;
    }
    (board.rows[y as usize] & (1u64 << (x as u64))) != 0
}

/// How many of the four corners of the 3x3 box at the piece's position are
/// blocked.
pub open spec fn corners<const W: usize, const H: usize>(st: State<W, H>) -> int {
    let x = st.x as int;
    let y = st.y as int;
    (if occupied(st.board, x, y) {
        1int
    } else {
        0int
    }) + (if occupied(st.board, x + 2, y) {
        1int
    } else {
        0int
    }) + (if occupied(st.board, x, y + 2) {
        1int
    } else {
        0int
    }) + (if occupied(st.board, x + 2, y + 2) {
        1int
    } else {
        0int
    })
}

/// A T-spin: the active piece is a T, its last move was a rotation, and
/// at least two corners of its box are blocked.
pub open spec fn is_t_spin<const W: usize, const H: usize>(st: State<W, H>) -> bool {
    st.piece == Piece::T && st.last_move_was_rotation && corners(st) >= 2
}

/// Counts the blocked corners of the 3x3 box at the active piece's position.
pub fn corner_count<const W: usize, const H: usize>(st: &State<W, H>) -> (r: usize)
    requires
        dims_ok(W, H),
    ensures
        r == corners(*st),
{
    let cx = st.x as i32 + 1;
    let cy = st.y as i32 + 1;
    let mut corners: usize = 0;
    if is_occupied(&st.board, cx - 1, cy - 1) {
        corners += 1;
    }
    if is_occupied(&st.board, cx + 1, cy - 1) {
        corners += 1;
    }
    if is_occupied(&st.board, cx - 1, cy + 1) {
        corners += 1;
    }
    if is_occupied(&st.board, cx + 1, cy + 1) {
        corners += 1;
    }
    corners
}

/// Whether the lock of the active piece counts as a T-spin.
pub fn check_t_spin<const W: usize, const H: usize>(st: &State<W, H>) -> (r: bool)
    requires
        dims_ok(W, H),
    ensures
        r == is_t_spin(*st),
{
    if st.piece != Piece::T || !st.last_move_was_rotation {
        return false;
    }
    corner_count(st) >= 2
}

/// Whether at least three corners of the piece's box are blocked (a full
/// T-spin rather than a mini).
pub fn check_full_t_spin<const W: usize, const H: usize>(st: &State<W, H>) -> (r: bool)
    requires
        dims_ok(W, H),
    ensures
        r == (corners(*st) >= 3),
{
    corner_count(st) >= 3
}

/// Index into the damage tables for a clear of `lines` rows: the count
/// itself up to 4, 4 beyond (a negative count, read as a huge unsigned
/// number, also lands on 4).
pub open spec fn dmg_index(lines: int) -> int {
    if 0 <= lines < 4 {
        lines
    } else {
        4
    }
}

/// Position in the combo table for a combo counter: negative counts read
/// as 0, counts past the end of the table read as its last entry.
pub open spec fn combo_index(combo: int) -> int {
    if combo < 0 {
        0
    } else if combo < 11 {
        combo
    } else {
        11
    }
}

/// Base garbage of a clear of `lines` rows, from the T-spin table or the
/// ordinary one.
pub open spec fn base_damage(tspin: bool, lines: int) -> int {
    if tspin {
        TSPIN_DMG[dmg_index(lines)] as int
    } else {
        NORMAL_DMG[dmg_index(lines)] as int
    }
}

/// The attack a lock clearing `lines` rows produces from state `st`, and
/// the state afterwards (combo and back-to-back updated).
pub open spec fn attack_outcome<const W: usize, const H: usize>(st: State<W, H>, lines: int) -> (
    AttackResult,
    State<W, H>,
) {
    if lines == 0 {
        (no_attack(), State { combo: 0, ..st })
    } else {
        let tspin = is_t_spin(st);
        let mini = tspin && !(corners(st) >= 3);
        let difficult = lines == 4 || tspin;
        let b2b_bonus = difficult && st.b2b;
        let pc = st.board.empty();
        let damage = base_damage(tspin, lines) + (if b2b_bonus {
            1int
        } else {
            0int
        }) + COMBO_DMG[combo_index(st.combo as int)] + (if pc {
            PC_BONUS as int
        } else {
            0int
        });
        (
            AttackResult {
                damage: damage as i32,
                hole_x: 0,
                is_tspin: tspin,
                is_mini: mini,
                is_b2b: b2b_bonus,
                perfect_clear: pc,
                garbage_inserted: false,
            },
            State { b2b: difficult, combo: (st.combo + 1) as i32, ..st },
        )
    }
}

proof fn lemma_base_damage_bounded(tspin: bool, lines: int)
    ensures
        0 <= base_damage(tspin, lines) <= 8,
{
    let i = dmg_index(lines);
    if i == 0 {} else if i == 1 {} else if i == 2 {} else if i == 3 {} else {}
}

proof fn lemma_combo_damage_bounded(combo: int)
    ensures
        0 <= COMBO_DMG[combo_index(combo)] <= 5,
{
    let i = combo_index(combo);
    if i == 0 {} else if i == 1 {} else if i == 2 {} else if i == 3 {} else if i == 4 {}
    else if i == 5 {} else if i == 6 {} else if i == 7 {} else if i == 8 {} else if i == 9 {}
    else if i == 10 {} else {}
}


/// What a lock that clears lines sends, in terms of the state before it:
/// a T-spin is a T whose last move was a rotation with at least two of the
/// four corners of its 3x3 box blocked (by a wall, the floor, the space
/// above the top or a cell), a mini with fewer than three; the base damage
/// is 2, 4, 6, 8 lines for a T-spin single to quad and 0, 1, 2, 4 for an
/// ordinary single to quad; a difficult clear (four lines or a T-spin)
/// while back-to-back is set adds one line and is reported as
/// back-to-back, and only a difficult clear keeps back-to-back set; the
/// combo adds 0, 0, 1, 1, 2, 2, 3, 3, 4, 4, 4, 5 lines for a combo counter
/// of 0 to 11 and beyond, and counts one more; clearing the whole board
/// adds 10 lines.
pub proof fn lemma_attack_of_clear<const W: usize, const H: usize>(st: State<W, H>, lines: int)
    requires
        lines > 0,
        st.combo < i32::MAX,
    ensures
        ({
            let (res, after) = attack_outcome(st, lines);
            let x = st.x as int;
            let y = st.y as int;
            let blocked = (if occupied(st.board, x, y) { 1int } else { 0int }) + (if occupied(st.board, x + 2, y) { 1int } else { 0int })
                + (if occupied(st.board, x, y + 2) { 1int } else { 0int }) + (if occupied(st.board, x + 2, y + 2) { 1int } else { 0int });
            let tspin = st.piece == Piece::T && st.last_move_was_rotation && blocked >= 2;
            let difficult = lines == 4 || tspin;
            let n = if lines > 4 { 4 } else { lines };
            let base = if tspin {
                if n == 1 { 2int } else if n == 2 { 4int } else if n == 3 { 6int } else { 8int }
            } else {
                if n == 1 { 0int } else if n == 2 { 1int } else if n == 3 { 2int } else { 4int }
            };
            let c = st.combo as int;
            let combo = if c <= 1 { 0int } else if c <= 3 { 1int } else if c <= 5 { 2int } else if c <= 7 { 3int }
                else if c <= 10 { 4int } else { 5int };
            &&& res.is_tspin == tspin
            &&& res.is_mini == (tspin && blocked < 3)
            &&& res.is_b2b == (difficult && st.b2b)
            &&& res.perfect_clear == st.board.empty()
            &&& res.damage == base + (if difficult && st.b2b { 1int } else { 0int }) + combo
                + (if st.board.empty() { 10int } else { 0int })
            &&& after.b2b == difficult
            &&& after.combo == st.combo + 1
            &&& after.board == st.board && after.piece == st.piece && after.pending_garbage == st.pending_garbage
        }),
{
    lemma_base_damage_bounded(is_t_spin(st), lines);
    lemma_combo_damage_bounded(st.combo as int);
    let c = st.combo as int;
    if c < 0 {} else if c == 0 {} else if c == 1 {} else if c == 2 {} else if c == 3 {} else if c == 4 {}
    else if c == 5 {} else if c == 6 {} else if c == 7 {} else if c == 8 {} else if c == 9 {} else if c == 10 {}
    else {}
    let i = dmg_index(lines);
    if i == 1 {} else if i == 2 {} else if i == 3 {} else {}
}

/// Back-to-back changes only the extra line: the same lock with the flag
/// set sends exactly one line more than with it clear when it is a
/// difficult clear (four lines or a T-spin), and the same otherwise.
pub proof fn lemma_back_to_back_bonus<const W: usize, const H: usize>(st: State<W, H>, lines: int)
    requires
        lines > 0,
        st.combo < i32::MAX,
    ensures
        attack_outcome(State { b2b: true, ..st }, lines).0.damage == attack_outcome(State { b2b: false, ..st }, lines).0.damage
            + (if lines == 4 || is_t_spin(st) { 1int } else { 0int }),
        attack_outcome(State { b2b: true, ..st }, lines).0.is_b2b == (lines == 4 || is_t_spin(st)),
        !attack_outcome(State { b2b: false, ..st }, lines).0.is_b2b,
{
    lemma_attack_of_clear(State { b2b: true, ..st }, lines);
    lemma_attack_of_clear(State { b2b: false, ..st }, lines);
    assert(corners(State { b2b: true, ..st }) == corners(st));
    assert(corners(State { b2b: false, ..st }) == corners(st));
}

/// Scores a lock that cleared `lines_cleared` rows: T-spin and mini
/// detection, base damage from the T-spin or normal table, one extra line
/// for a back-to-back difficult clear (a four-line clear or a T-spin),
/// combo damage, and the perfect-clear bonus when the board is empty. A
/// lock that clears nothing resets the combo; any other advances it.
pub fn calculate_attack<const W: usize, const H: usize>(st: &mut State<W, H>, lines_cleared: i32) -> (res: AttackResult)
    requires
        dims_ok(W, H),
        lines_cleared != 0 ==> old(st).combo < i32::MAX,
    ensures
        (res, *final(st)) == attack_outcome(*old(st), lines_cleared as int),
{
    let ghost o = *st;
    let mut res = AttackResult::none();
    if lines_cleared == 0 {
        st.combo = 0;
        return res;
    }
    assert(o.combo < i32::MAX);
    let lc: usize = if 0 <= lines_cleared && lines_cleared < 4 {
        lines_cleared as usize
    } else {
        4
    };
    res.is_tspin = check_t_spin(st);
    res.is_mini = res.is_tspin && !check_full_t_spin(st);
    if res.is_tspin {
        res.damage = TSPIN_DMG[lc];
    } else {
        res.damage = NORMAL_DMG[lc];
    }
    proof {
        lemma_base_damage_bounded(res.is_tspin, lines_cleared as int);
        lemma_combo_damage_bounded(o.combo as int);
        assert(res.damage == base_damage(res.is_tspin, lines_cleared as int));
    }
    let is_difficult_clear = lines_cleared == 4 || res.is_tspin;
    if is_difficult_clear {
        if st.b2b {
            res.damage += 1;
            res.is_b2b = true;
        }
        st.b2b = true;
    } else {
        st.b2b = false;
    }
    let max_combo_idx: usize = 11;
    let combo_val: usize = if st.combo < 0 {
        0
    } else if st.combo < 11 {
        st.combo as usize
    } else {
        11
    };
    let combo_idx = if combo_val < max_combo_idx {
        combo_val
    } else {
        max_combo_idx
    };
    assert(combo_idx == combo_index(o.combo as int));
    res.damage += COMBO_DMG[combo_idx];
    st.combo += 1;
    res.perfect_clear = st.board.is_empty();
    if res.perfect_clear {
        res.damage += PC_BONUS;
    }
    res
}

} // verus!
