use vstd::prelude::*;
use crate::board::{Board, dims_ok, filled, rows_after_clear, clear_mask, full_rows_from};
use crate::piece::{bit16, piece_shape, shape_cell, shape_row, lemma_shape_nonempty};
use crate::state::State;
use crate::types::{Piece, Rot, rot_code};
use crate::srs::{srs_kicks, srs_kick, small_kick};

verus! {

/// Whether piece `p` in rotation `r` with its box's top-left corner at
/// column `x`, row `y` fits the board: each of its cells lies between the
/// walls, above the floor, and either above the top row or on an empty cell.
pub open spec fn fits<const W: usize, const H: usize>(
    board: Board<W, H>,
    p: Piece,
    r: Rot,
    x: int,
    y: int,
) -> bool {
    forall|i: int, j: int|
        0 <= i < 4 && 0 <= j < 4 && #[trigger] shape_cell(p, r, i, j) ==> 0 <= x + j < W && y + i
            < H && (y + i < 0 || !board.cell(y + i, x + j))
}

/// Bits of the masks that `can_place` builds, and of the words it compares.
proof fn lemma_mask_bits(s: u16, m: u16, j: u16)
    requires
        1 <= s <= 15,
        m <= 15,
        j < 16,
    ensures
        (1u16 << s) >= 1,
        (((1u16 << s) - 1) as u16 & (1u16 << j) != 0) == (j < s),
        ((0xFFFFu16 << m) & (1u16 << j) != 0) == (j >= m),
{
    assert((1u16 << s) >= 1) by (bit_vector)
        requires
            s <= 15,
    ;
    assert((((1u16 << s) - 1) as u16 & (1u16 << j) != 0) == (j < s)) by (bit_vector)
        requires
            1 <= s <= 15,
            j < 16,
    ;
    assert(((0xFFFFu16 << m) & (1u16 << j) != 0) == (j >= m)) by (bit_vector)
        requires
            m <= 15,
            j < 16,
    ;
}

proof fn lemma_or16(a: u16, b: u16, j: u16)
    requires
        j < 16,
    ensures
        ((a | b) & (1u16 << j) != 0) == ((a & (1u16 << j) != 0) || (b & (1u16 << j) != 0)),
        (0u16 & (1u16 << j)) == 0,
{
    assert(((a | b) & (1u16 << j) != 0) == ((a & (1u16 << j) != 0) || (b & (1u16 << j) != 0)))
        by (bit_vector);
    assert((0u16 & (1u16 << j)) == 0) by (bit_vector);
}

/// A word below 16 meets a mask exactly when one of its four low bits does.
proof fn lemma_meets_low(row: u16, mask: u16)
    requires
        row < 16,
    ensures
        (row & mask != 0) == ((bit16(row, 0) && bit16(mask, 0)) || (bit16(row, 1) && bit16(mask, 1))
            || (bit16(row, 2) && bit16(mask, 2)) || (bit16(row, 3) && bit16(mask, 3))),
{
    assert((row & mask != 0) == ((row & (1u16 << 0u16) != 0 && mask & (1u16 << 0u16) != 0) || (row
        & (1u16 << 1u16) != 0 && mask & (1u16 << 1u16) != 0) || (row & (1u16 << 2u16) != 0 && mask
        & (1u16 << 2u16) != 0) || (row & (1u16 << 3u16) != 0 && mask & (1u16 << 3u16) != 0)))
        by (bit_vector)
        requires
            row < 16,
    ;
}

/// Bits of a board row seen through the 16-bit window that starts at
/// column `x` (to the right) or `-s` (to the left).
proof fn lemma_window(b: u64, x: u64, s: u16, j: u16)
    requires
        x < 64,
        1 <= s < 16,
        j < 16,
    ensures
        x + j < 64 ==> ((((b >> x) as u16) & (1u16 << j) != 0) == (b & (1u64 << (x + j) as u64)
            != 0)),
        ((((b as u16) << s) & (1u16 << j)) != 0) == (j >= s && b & (1u64 << (j - s) as u64) != 0),
{
    assert(x + j < 64 ==> ((((b >> x) as u16) & (1u16 << j) != 0) == (b & (1u64 << (x + j) as u64)
        != 0))) by (bit_vector)
        requires
            x < 64,
            j < 16,
    ;
    assert(((((b as u16) << s) & (1u16 << j)) != 0) == (j >= s && b & (1u64 << (j - s) as u64)
        != 0)) by (bit_vector)
        requires
            1 <= s < 16,
            j < 16,
    ;
}

/// Whether the active piece of `st`, in rotation `rot`, fits at column
/// `x`, row `y` (see `fits`).
pub fn can_place<const W: usize, const H: usize>(st: &State<W, H>, x: i8, y: i8, rot: Rot) -> (r:
    bool)
    requires
        dims_ok(W, H),
        x <= i8::MAX - 4,
        y <= i8::MAX - 3,
    ensures
        r == fits(st.board, st.piece, rot, x as int, y as int),
{
    let shape = piece_shape(st.piece, rot);
    let ghost p = st.piece;
    let mut wall_mask: u16 = 0;
    if x < 0 {
        let s: u16 = if x == i8::MIN {
            15
        } else if -x < 15 {
            (-x) as u16
        } else {
            15
        };
        proof {
            lemma_mask_bits(s, 0, 0);
        }
        wall_mask = wall_mask | ((1u16 << s) - 1);
        proof {
            assert forall|j: int| 0 <= j < 16 implies #[trigger] bit16(wall_mask, j) == (j < s) by {
                lemma_or16(0, ((1u16 << s) - 1) as u16, j as u16);
                lemma_mask_bits(s, 0, j as u16);
            }
        }
    } else {
        proof {
            assert forall|j: int| 0 <= j < 16 implies !#[trigger] bit16(wall_mask, j) by {
                lemma_or16(0, 0, j as u16);
            }
        }
    }
    let ghost left_mask = wall_mask;
    let w = W as i8;
    if x + 4 > w {
        let d: i8 = if w - x > 0 {
            w - x
        } else {
            0
        };
        let shift: i8 = if d < 15 {
            d
        } else {
            15
        };
        wall_mask = wall_mask | (0xFFFFu16 << (shift as u16));
        proof {
            assert forall|j: int| 0 <= j < 16 implies #[trigger] bit16(wall_mask, j) == (bit16(
                left_mask,
                j,
            ) || j >= shift) by {
                lemma_or16(left_mask, 0xFFFFu16 << (shift as u16), j as u16);
                lemma_mask_bits(1, shift as u16, j as u16);
            }
        }
    }
    assert forall|j: int| 0 <= j < 4 implies #[trigger] bit16(wall_mask, j) == (x + j < 0 || x + j
        >= W) by {
        if x + 4 > w {
            assert(bit16(wall_mask, j) == (bit16(left_mask, j) || j >= (if w - x > 0 {
                w - x
            } else {
                0
            })));
        }
    }
    let mut i: usize = 0;
    while i < 4
        invariant
            dims_ok(W, H),
            x <= i8::MAX - 4,
            y <= i8::MAX - 3,
            i <= 4,
            p == st.piece,
            forall|k: int| 0 <= k < 4 ==> #[trigger] shape.row[k] < 16,
            forall|k: int| 0 <= k < 4 ==> #[trigger] shape.row[k] == shape_row(p, rot, k),
            forall|k: int, c: int|
                0 <= k < 4 && 0 <= c < 4 ==> #[trigger] bit16(shape.row[k], c) == shape_cell(
                    p,
                    rot,
                    k,
                    c,
                ),
            forall|j: int| 0 <= j < 4 ==> #[trigger] bit16(wall_mask, j) == (x + j < 0 || x + j >= W),
            forall|k: int, j: int|
                0 <= k < i && 0 <= j < 4 && #[trigger] shape_cell(p, rot, k, j) ==> 0 <= x + j < W
                    && y + k < H && (y + k < 0 || !st.board.cell(y + k, x + j)),
        decreases 4 - i,
    {
        let row = shape.row[i];
        proof {
            crate::piece::lemma_row_from_bits(row);
        }
        if row == 0 {
            assert forall|j: int| 0 <= j < 4 implies !shape_cell(p, rot, i as int, j) by {
                assert(bit16(row, j) == shape_cell(p, rot, i as int, j));
                crate::piece::lemma_row_small(0, 0, j as u16);
            }
            i = i + 1;
            continue;
        }
        let ghost some_j: int = if bit16(row, 0) {
            0
        } else if bit16(row, 1) {
            1
        } else if bit16(row, 2) {
            2
        } else {
            3
        };
        assert(bit16(row, some_j));
        assert(shape_cell(p, rot, i as int, some_j));
        if row & wall_mask != 0 {
            proof {
                lemma_meets_low(row, wall_mask);
                let j: int = if bit16(row, 0) && bit16(wall_mask, 0) {
                    0
                } else if bit16(row, 1) && bit16(wall_mask, 1) {
                    1
                } else if bit16(row, 2) && bit16(wall_mask, 2) {
                    2
                } else {
                    3
                };
                assert(shape_cell(p, rot, i as int, j));
            }
            return false;
        }
        proof {
            lemma_meets_low(row, wall_mask);
            assert forall|j: int| 0 <= j < 4 && shape_cell(p, rot, i as int, j) implies 0 <= x + j
                < W by {
                assert(bit16(row, j));
                assert(!bit16(wall_mask, j));
            }
        }
        let yy = y + i as i8;
        if yy >= H as i8 {
            return false;
        }
        if yy < 0 {
            i = i + 1;
            continue;
        }
        let b_row: u64 = st.board.rows[yy as usize];
        let overlap: u16 = if x >= 0 {
            #[verifier::truncate]
            ((b_row >> (x as u64)) as u16)
        } else {
            (#[verifier::truncate] (b_row as u16)) << ((-x) as u16)
        };
        proof {
            assert(x + some_j < W);
            assert(x >= -3);
            assert forall|j: int| 0 <= j < 4 && bit16(row, j) implies #[trigger] bit16(overlap, j)
                == st.board.cell(yy as int, x + j) by {
                assert(0 <= x + j < W);
                if x >= 0 {
                    lemma_window(b_row, x as u64, 1, j as u16);
                } else {
                    lemma_window(b_row, 0, (-x) as u16, j as u16);
                }
            }
            lemma_meets_low(row, overlap);
        }
        if overlap & row != 0 {
            proof {
                assert(overlap & row == row & overlap) by (bit_vector);
                let j: int = if bit16(row, 0) && bit16(overlap, 0) {
                    0
                } else if bit16(row, 1) && bit16(overlap, 1) {
                    1
                } else if bit16(row, 2) && bit16(overlap, 2) {
                    2
                } else {
                    3
                };
                assert(shape_cell(p, rot, i as int, j));
            }
            return false;
        }
        proof {
            assert(overlap & row == row & overlap) by (bit_vector);
            assert forall|j: int| 0 <= j < 4 && shape_cell(p, rot, i as int, j) implies !st.board.cell(
                yy as int,
                x + j,
            ) by {
                assert(bit16(row, j));
            }
        }
        i = i + 1;
    }
    true
}

/// A piece that fits lies above the floor.
pub proof fn lemma_fits_above_floor<const W: usize, const H: usize>(
    board: Board<W, H>,
    p: Piece,
    r: Rot,
    x: int,
    y: int,
)
    requires
        fits(board, p, r, x, y),
    ensures
        y < H,
        -3 <= x < W,
{
    lemma_shape_nonempty(p, r);
    let (i, j) = choose|i: int, j: int| 0 <= i < 4 && 0 <= j < 4 && #[trigger] shape_cell(p, r, i, j);
    assert(shape_cell(p, r, i, j));
}

/// The state with the active piece moved to `(x, y)`.
pub open spec fn moved<const W: usize, const H: usize>(st: State<W, H>, x: int, y: int) -> State<
    W,
    H,
> {
    State { x: x as i8, y: y as i8, ..st }
}

/// Moves the active piece by `(dx, dy)` when it fits there; reports
/// whether it moved. Nothing else changes.
pub fn try_move<const W: usize, const H: usize>(st: &mut State<W, H>, dx: i8, dy: i8) -> (r: bool)
    requires
        dims_ok(W, H),
        i8::MIN <= old(st).x + dx <= i8::MAX - 4,
        i8::MIN <= old(st).y + dy <= i8::MAX - 3,
    ensures
        r == fits(old(st).board, old(st).piece, old(st).rot, old(st).x + dx, old(st).y + dy),
        r ==> *final(st) == moved(*old(st), old(st).x + dx, old(st).y + dy),
        !r ==> *final(st) == *old(st),
{
    if can_place(st, st.x + dx, st.y + dy, st.rot) {
        st.x = st.x + dx;
        st.y = st.y + dy;
        return true;
    }
    false
}

/// The state with the active piece turned to `to` at `(x, y)`.
pub open spec fn turned<const W: usize, const H: usize>(st: State<W, H>, x: int, y: int, to: Rot) -> State<W, H> {
    State { x: x as i8, y: y as i8, rot: to, ..st }
}

/// The index of the first of kicks `i..5` that lets piece `p` turn from
/// `from` to `to` at `(x, y)`, if any.
pub open spec fn first_kick<const W: usize, const H: usize>(
    board: Board<W, H>,
    p: Piece,
    from: Rot,
    to: Rot,
    x: int,
    y: int,
    i: int,
) -> Option<int>
    decreases 5 - i,
{
    if i < 0 || i >= 5 {
        None
    } else {
        let k = srs_kick(p, rot_code(from) as int, rot_code(to) as int, i);
        if fits(board, p, to, x + k.dx, y - k.dy) {
            Some(i)
        } else {
            first_kick(board, p, from, to, x, y, i + 1)
        }
    }
}

/// Whether kick `m` of the turn from `from` to `to` puts the piece where
/// it fits.
pub open spec fn kick_fits<const W: usize, const H: usize>(
    board: Board<W, H>,
    p: Piece,
    from: Rot,
    to: Rot,
    x: int,
    y: int,
    m: int,
) -> bool {
    let k = srs_kick(p, rot_code(from) as int, rot_code(to) as int, m);
    fits(board, p, to, x + k.dx, y - k.dy)
}

/// The kick a turn takes is the first of the five that fits: the turn
/// succeeds exactly when some kick fits, and no earlier kick does.
pub proof fn lemma_first_kick<const W: usize, const H: usize>(
    board: Board<W, H>,
    p: Piece,
    from: Rot,
    to: Rot,
    x: int,
    y: int,
    i: int,
)
    requires
        0 <= i <= 5,
    ensures
        match first_kick(board, p, from, to, x, y, i) {
            Some(j) => i <= j < 5 && kick_fits(board, p, from, to, x, y, j) && forall|m: int|
                i <= m < j ==> !#[trigger] kick_fits(board, p, from, to, x, y, m),
            None => forall|m: int| i <= m < 5 ==> !#[trigger] kick_fits(board, p, from, to, x, y, m),
        },
    decreases 5 - i,
{
    if i < 5 {
        lemma_first_kick(board, p, from, to, x, y, i + 1);
    }
}

/// Turns the active piece to rotation `to`, trying the rotation system's
/// five offsets in order and taking the first that fits; reports whether it
/// turned. Nothing else changes.
pub fn try_rotate<const W: usize, const H: usize>(st: &mut State<W, H>, to: Rot) -> (r: bool)
    requires
        dims_ok(W, H),
        i8::MIN + 2 <= old(st).x <= i8::MAX - 6,
        i8::MIN + 2 <= old(st).y <= i8::MAX - 5,
    ensures
        ({
            let o = *old(st);
            match first_kick(o.board, o.piece, o.rot, to, o.x as int, o.y as int, 0) {
                Some(i) => {
                    let k = srs_kick(o.piece, rot_code(o.rot) as int, rot_code(to) as int, i);
                    &&& r
                    &&& *final(st) == turned(o, o.x + k.dx, o.y - k.dy, to)
                },
                None => !r && *final(st) == o,
            }
        }),
        r ==> old(st).x - 2 <= final(st).x <= old(st).x + 2 && old(st).y - 2 <= final(st).y <= old(st).y + 2,
{
    let ghost o = *st;
    let kicks = srs_kicks(st.piece, st.rot, to);
    let mut i: usize = 0;
    let mut found = false;
    let mut nx: i8 = st.x;
    let mut ny: i8 = st.y;
    while i < 5
        invariant_except_break
            !found,
        invariant
            dims_ok(W, H),
            *st == o,
            i <= 5,
            i8::MIN + 2 <= o.x <= i8::MAX - 6,
            i8::MIN + 2 <= o.y <= i8::MAX - 5,
            forall|k: int| 0 <= k < 5 ==> #[trigger] kicks[k] == srs_kick(o.piece, rot_code(o.rot) as int, rot_code(to) as int, k),
            forall|k: int| 0 <= k < 5 ==> small_kick(#[trigger] kicks[k]),
            first_kick(o.board, o.piece, o.rot, to, o.x as int, o.y as int, 0) == first_kick(
                o.board,
                o.piece,
                o.rot,
                to,
                o.x as int,
                o.y as int,
                i as int,
            ),
        ensures
            found ==> i < 5 && first_kick(o.board, o.piece, o.rot, to, o.x as int, o.y as int, 0) == Some(i as int)
                && nx == o.x + kicks[i as int].dx && ny == o.y - kicks[i as int].dy,
            !found ==> first_kick(o.board, o.piece, o.rot, to, o.x as int, o.y as int, 0) == None::<int>,
        decreases 5 - i,
    {
        let kick = kicks[i];
        assert(small_kick(kicks[i as int]));
        nx = st.x + kick.dx;
        ny = st.y - kick.dy;
        if can_place(st, nx, ny, to) {
            found = true;
            break;
        }
        i = i + 1;
    }
    if found {
        st.x = nx;
        st.y = ny;
        st.rot = to;
    }
    found
}

/// Where a piece dropped straight down from row `y` comes to rest: the
/// first row `y' >= y` from which it cannot move one row further down.
pub open spec fn drop_y<const W: usize, const H: usize>(
    board: Board<W, H>,
    p: Piece,
    r: Rot,
    x: int,
    y: int,
) -> int
    decreases H - y,
{
    if y >= H {
        y
    } else if fits(board, p, r, x, y + 1) {
        drop_y(board, p, r, x, y + 1)
    } else {
        y
    }
}

proof fn lemma_drop_y_step<const W: usize, const H: usize>(
    board: Board<W, H>,
    p: Piece,
    r: Rot,
    x: int,
    y: int,
)
    requires
        fits(board, p, r, x, y + 1),
    ensures
        drop_y(board, p, r, x, y) == drop_y(board, p, r, x, y + 1),
{
    lemma_fits_above_floor(board, p, r, x, y + 1);
}

proof fn lemma_drop_y_stop<const W: usize, const H: usize>(
    board: Board<W, H>,
    p: Piece,
    r: Rot,
    x: int,
    y: int,
)
    requires
        !fits(board, p, r, x, y + 1),
    ensures
        drop_y(board, p, r, x, y) == y,
{
}

/// Where a drop lands (the ghost row, and a hard drop's row): at or below
/// the start row, through rows where the piece fits all the way down, and
/// on a row one above which it does not fit.
pub proof fn lemma_drop_y_lands<const W: usize, const H: usize>(
    board: Board<W, H>,
    p: Piece,
    r: Rot,
    x: int,
    y: int,
)
    ensures
        y <= drop_y(board, p, r, x, y),
        !fits(board, p, r, x, drop_y(board, p, r, x, y) + 1),
        forall|z: int| y < z <= drop_y(board, p, r, x, y) ==> #[trigger] fits(board, p, r, x, z),
    decreases H - y,
{
    if y >= H {
        if fits(board, p, r, x, y + 1) {
            lemma_fits_above_floor(board, p, r, x, y + 1);
        }
    } else if fits(board, p, r, x, y + 1) {
        lemma_drop_y_lands(board, p, r, x, y + 1);
    }
}

/// Drops the active piece straight down as far as it fits (see `drop_y`)
/// and returns the number of rows it fell. Nothing else changes.
pub fn hard_drop<const W: usize, const H: usize>(st: &mut State<W, H>) -> (dist: i32)
    requires
        dims_ok(W, H),
        old(st).x <= i8::MAX - 4,
        old(st).y <= i8::MAX - 4,
    ensures
        final(st).y == drop_y(old(st).board, old(st).piece, old(st).rot, old(st).x as int, old(st).y as int),
        dist == final(st).y - old(st).y,
        *final(st) == moved(*old(st), old(st).x as int, final(st).y as int),
{
    let ghost o = *st;
    let mut dist: i32 = 0;
    while can_place(st, st.x, st.y + 1, st.rot)
        invariant
            dims_ok(W, H),
            *st == moved(o, o.x as int, st.y as int),
            o.y <= st.y <= i8::MAX - 4,
            st.x <= i8::MAX - 4,
            dist == st.y - o.y,
            drop_y(o.board, o.piece, o.rot, o.x as int, o.y as int) == drop_y(
                o.board,
                o.piece,
                o.rot,
                o.x as int,
                st.y as int,
            ),
        decreases 200 - st.y,
    {
        proof {
            lemma_fits_above_floor(st.board, st.piece, st.rot, st.x as int, st.y + 1);
            lemma_drop_y_step(st.board, st.piece, st.rot, st.x as int, st.y as int);
        }
        st.y = st.y + 1;
        dist = dist + 1;
    }
    proof {
        lemma_drop_y_stop(st.board, st.piece, st.rot, st.x as int, st.y as int);
    }
    dist
}

/// The row where the active piece would come to rest if dropped (see
/// `drop_y`).
pub fn get_ghost_y<const W: usize, const H: usize>(st: &State<W, H>) -> (gy: i32)
    requires
        dims_ok(W, H),
        st.x <= i8::MAX - 4,
        st.y <= i8::MAX - 4,
    ensures
        gy == drop_y(st.board, st.piece, st.rot, st.x as int, st.y as int),
{
    let mut gy: i32 = st.y as i32;
    while can_place(st, st.x, (gy + 1) as i8, st.rot)
        invariant
            dims_ok(W, H),
            st.y <= gy <= i8::MAX - 4,
            st.x <= i8::MAX - 4,
            drop_y(st.board, st.piece, st.rot, st.x as int, st.y as int) == drop_y(
                st.board,
                st.piece,
                st.rot,
                st.x as int,
                gy as int,
            ),
        decreases 200 - gy,
    {
        proof {
            lemma_fits_above_floor(st.board, st.piece, st.rot, st.x as int, gy + 1);
            lemma_drop_y_step(st.board, st.piece, st.rot, st.x as int, gy as int);
        }
        gy = gy + 1;
    }
    proof {
        lemma_drop_y_stop(st.board, st.piece, st.rot, st.x as int, gy as int);
    }
    gy
}

/// The cells that row `row` of a piece's box, placed with its left edge
/// at column `x`, occupies in a board row, cut to the board width `full`.
pub open spec fn placed_mask(row: u16, x: int, full: u64) -> u64 {
    if x >= 0 {
        ((row as u64) << (x as u64)) & full
    } else {
        ((row as u64) >> ((-x) as u64)) & full
    }
}

/// The board rows with piece `p` in rotation `r` written in at `(x, y)`:
/// each board row covered by the piece's box gains the piece's cells.
pub open spec fn locked_rows<const W: usize, const H: usize>(
    board: Board<W, H>,
    p: Piece,
    r: Rot,
    x: int,
    y: int,
) -> Seq<u64> {
    Seq::new(H as nat, |yy: int| if 0 <= yy - y < 4 {
        board.rows[yy] | placed_mask(shape_row(p, r, yy - y), x, Board::<W, H>::full_bits())
    } else {
        board.rows[yy]
    })
}

proof fn lemma_zero_row(a: u64, n: u64, f: u64)
    ensures
        a | (((0u16 as u64) << n) & f) == a,
        a | (((0u16 as u64) >> n) & f) == a,
{
    assert(a | (((0u16 as u64) << n) & f) == a) by (bit_vector);
    assert(a | (((0u16 as u64) >> n) & f) == a) by (bit_vector);
}

/// Writes the active piece into the board at its position, then clears
/// the full rows (see `Board::clear_lines`), records the clear in
/// `last_clear_mask` and `last_clear_count`, and returns the number of
/// rows cleared. Nothing else changes.
pub fn lock_piece<const W: usize, const H: usize>(st: &mut State<W, H>) -> (cleared: i32)
    requires
        dims_ok(W, H),
        -64 < old(st).x < 64,
        old(st).y <= i8::MAX - 3,
    ensures
        ({
            let o = *old(st);
            let locked = locked_rows(o.board, o.piece, o.rot, o.x as int, o.y as int);
            let full = Board::<W, H>::full_bits();
            &&& final(st).board.rows@ == rows_after_clear(locked, full)
            &&& cleared == full_rows_from(locked, full, 0)
            &&& final(st).last_clear_count == cleared
            &&& final(st).last_clear_mask == clear_mask(locked, full, 0) as u32
            &&& *final(st) == State {
                board: final(st).board,
                last_clear_mask: final(st).last_clear_mask,
                last_clear_count: final(st).last_clear_count,
                ..o
            }
        }),
{
    let ghost o = *st;
    let shape = piece_shape(st.piece, st.rot);
    let full = Board::<W, H>::full_mask();
    let mut i: usize = 0;
    while i < 4
        invariant
            dims_ok(W, H),
            i <= 4,
            full == Board::<W, H>::full_bits(),
            -64 < o.x < 64,
            o.y <= i8::MAX - 3,
            *st == (State { board: st.board, ..o }),
            forall|k: int| 0 <= k < 4 ==> #[trigger] shape.row[k] == shape_row(o.piece, o.rot, k),
            forall|yy: int|
                0 <= yy < H ==> #[trigger] st.board.rows[yy] == if 0 <= yy - o.y < i {
                    locked_rows(o.board, o.piece, o.rot, o.x as int, o.y as int)[yy]
                } else {
                    o.board.rows[yy]
                },
        decreases 4 - i,
    {
        let row = shape.row[i];
        let yy = st.y + i as i8;
        if row == 0 {
            proof {
                if 0 <= yy < H {
                    lemma_zero_row(o.board.rows[yy as int], o.x as u64, full);
                    lemma_zero_row(o.board.rows[yy as int], (-o.x) as u64, full);
                }
            }
            i = i + 1;
            continue;
        }
        if yy < 0 || yy >= H as i8 {
            i = i + 1;
            continue;
        }
        if st.x >= 0 {
            let m = ((row as u64) << (st.x as u64)) & full;
            st.board.rows[yy as usize] = st.board.rows[yy as usize] | m;
        } else {
            let m = ((row as u64) >> ((-st.x) as u64)) & full;
            st.board.rows[yy as usize] = st.board.rows[yy as usize] | m;
        }
        i = i + 1;
    }
    let ghost locked = locked_rows(o.board, o.piece, o.rot, o.x as int, o.y as int);
    assert(st.board.rows@ =~= locked);
    let res = st.board.clear_lines();
    st.last_clear_mask = #[verifier::truncate] (res.mask as u32);
    st.last_clear_count = res.count;
    res.count as i32
}

} // verus!
