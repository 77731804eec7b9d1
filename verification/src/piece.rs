use vstd::prelude::*;
use crate::types::{Piece, Rot, rot_code};

verus! {

/// One rotation state of a piece: four rows of a 4x4 box, bit `x` of
/// `row[y]` set when the cell in column `x` of row `y` is part of the piece.
#[derive(Debug, Clone, Copy)]
pub struct Shape {
    pub row: [u16; 4],
}

/// The four rotation states of a piece.
#[derive(Debug, Clone, Copy)]
pub struct PieceDef {
    pub rot: [Shape; 4],
}

/// Bit `i` of a 16-bit value.
pub open spec fn bit16(v: u16, i: int) -> bool {
    v & (1u16 << (i as u16)) != 0
}

/// The cell in row `y`, column `c` of a 4x4 box packed as 16 bits.
pub open spec fn cell4(v: u16, y: int, c: int) -> bool {
    bit16(v, y * 4 + c)
}

/// Setting bit `d` leaves every other bit as it was.
pub proof fn lemma_bit16_or(r: u16, d: u16, k: u16)
    requires
        d < 16,
        k < 16,
    ensures
        ((r | (1u16 << d)) & (1u16 << k) != 0) == ((r & (1u16 << k) != 0) || k == d),
{
    assert(((r | (1u16 << d)) & (1u16 << k) != 0) == ((r & (1u16 << k) != 0) || k == d))
        by (bit_vector)
        requires
            d < 16,
            k < 16,
    ;
}

/// A value below 16 with a bit below 4 set stays below 16; zero has no bits.
pub proof fn lemma_row_small(r: u16, x: u16, k: u16)
    requires
        r < 16,
        x < 4,
        k < 16,
    ensures
        (r | (1u16 << x)) < 16,
        (0u16 & (1u16 << k)) == 0,
{
    assert((r | (1u16 << x)) < 16) by (bit_vector)
        requires
            r < 16,
            x < 4,
    ;
    assert((0u16 & (1u16 << k)) == 0) by (bit_vector);
}

/// Rotates a 4x4 cell box a quarter turn clockwise: the cell in row `y`,
/// column `c` of the result is the cell in row `3 - c`, column `y` of `x`.
pub fn rot90_4x4(x: u16) -> (r: u16)
    ensures
        forall|y: int, c: int|
            0 <= y < 4 && 0 <= c < 4 ==> #[trigger] cell4(r, y, c) == cell4(x, 3 - c, y),
        quarter_turned(x, r),
{
    let mut r: u16 = 0;
    let mut y: u16 = 0;
    proof {
        assert forall|ry: int, rc: int| 0 <= ry < 4 && 0 <= rc < 4 implies !#[trigger] cell4(
            r,
            ry,
            rc,
        ) by {
            lemma_row_small(0, 0, (ry * 4 + rc) as u16);
        }
    }
    while y < 4
        invariant
            y <= 4,
            forall|ry: int, rc: int|
                0 <= ry < 4 && 0 <= rc < 4 ==> #[trigger] cell4(r, ry, rc) == (3 - rc < y
                    && cell4(x, 3 - rc, ry)),
        decreases 4 - y,
    {
        let mut x2: u16 = 0;
        while x2 < 4
            invariant
                y < 4,
                x2 <= 4,
                forall|ry: int, rc: int|
                    0 <= ry < 4 && 0 <= rc < 4 ==> #[trigger] cell4(r, ry, rc) == ((3 - rc < y
                        || (3 - rc == y && ry < x2)) && cell4(x, 3 - rc, ry)),
            decreases 4 - x2,
        {
            let src = y * 4 + x2;
            let dst = x2 * 4 + (3 - y);
            let ghost r0 = r;
            if (x & (1u16 << src)) != 0 {
                r = r | (1u16 << dst);
            }
            assert forall|ry: int, rc: int| 0 <= ry < 4 && 0 <= rc < 4 implies #[trigger] cell4(
                r,
                ry,
                rc,
            ) == ((3 - rc < y || (3 - rc == y && ry < x2 + 1)) && cell4(x, 3 - rc, ry)) by {
                lemma_bit16_or(r0, dst, (ry * 4 + rc) as u16);
                assert(cell4(r0, ry, rc) == ((3 - rc < y || (3 - rc == y && ry < x2)) && cell4(x, 3 - rc, ry)));
            }
            x2 = x2 + 1;
        }
        y = y + 1;
    }
    r
}

/// Rotates the upper-left 3x3 part of a 4x4 cell box a quarter turn
/// clockwise: the cell in row `y`, column `c` (both below 3) of the result is
/// the cell in row `2 - c`, column `y` of `x`; the fourth row and column of
/// the result are empty.
pub fn rot90_3x3(x: u16) -> (r: u16)
    ensures
        forall|y: int, c: int|
            0 <= y < 4 && 0 <= c < 4 ==> #[trigger] cell4(r, y, c) == (y < 3 && c < 3 && cell4(
                x,
                2 - c,
                y,
            )),
        quarter_turned3(x, r),
{
    let mut r: u16 = 0;
    let mut y: u16 = 0;
    proof {
        assert forall|ry: int, rc: int| 0 <= ry < 4 && 0 <= rc < 4 implies !#[trigger] cell4(
            r,
            ry,
            rc,
        ) by {
            lemma_row_small(0, 0, (ry * 4 + rc) as u16);
        }
    }
    while y < 3
        invariant
            y <= 3,
            forall|ry: int, rc: int|
                0 <= ry < 4 && 0 <= rc < 4 ==> #[trigger] cell4(r, ry, rc) == (ry < 3 && rc < 3
                    && 2 - rc < y && cell4(x, 2 - rc, ry)),
        decreases 3 - y,
    {
        let mut x2: u16 = 0;
        while x2 < 3
            invariant
                y < 3,
                x2 <= 3,
                forall|ry: int, rc: int|
                    0 <= ry < 4 && 0 <= rc < 4 ==> #[trigger] cell4(r, ry, rc) == (ry < 3 && rc
                        < 3 && (2 - rc < y || (2 - rc == y && ry < x2)) && cell4(x, 2 - rc, ry)),
            decreases 3 - x2,
        {
            let src = y * 4 + x2;
            let dst = x2 * 4 + (2 - y);
            let ghost r0 = r;
            if (x & (1u16 << src)) != 0 {
                r = r | (1u16 << dst);
            }
            assert forall|ry: int, rc: int| 0 <= ry < 4 && 0 <= rc < 4 implies #[trigger] cell4(
                r,
                ry,
                rc,
            ) == (ry < 3 && rc < 3 && (2 - rc < y || (2 - rc == y && ry < x2 + 1)) && cell4(
                x,
                2 - rc,
                ry,
            )) by {
                lemma_bit16_or(r0, dst, (ry * 4 + rc) as u16);
                assert(cell4(r0, ry, rc) == (ry < 3 && rc < 3 && (2 - rc < y || (2 - rc == y && ry
                    < x2)) && cell4(x, 2 - rc, ry)));
            }
            x2 = x2 + 1;
        }
        y = y + 1;
    }
    r
}

/// Splits a 4x4 cell box packed as 16 bits into its four rows: bit `c` of
/// `row[y]` is the cell in row `y`, column `c`.
pub fn to_rows(shape: u16) -> (r: Shape)
    ensures
        forall|y: int| 0 <= y < 4 ==> #[trigger] r.row[y] < 16,
        forall|y: int, c: int|
            0 <= y < 4 && 0 <= c < 4 ==> #[trigger] bit16(r.row[y], c) == cell4(shape, y, c),
{
    let mut r = Shape { row: [0u16; 4] };
    let mut y: usize = 0;
    while y < 4
        invariant
            y <= 4,
            forall|yy: int| 0 <= yy < 4 ==> #[trigger] r.row[yy] < 16,
            forall|yy: int, c: int|
                0 <= yy < y && 0 <= c < 4 ==> #[trigger] bit16(r.row[yy], c) == cell4(shape, yy, c),
            forall|yy: int| y <= yy < 4 ==> #[trigger] r.row[yy] == 0,
        decreases 4 - y,
    {
        let mut row: u16 = 0;
        let mut x: u16 = 0;
        proof {
            assert forall|c: int| 0 <= c < 4 implies !#[trigger] bit16(row, c) by {
                lemma_row_small(0, 0, c as u16);
            }
        }
        while x < 4
            invariant
                y < 4,
                x <= 4,
                row < 16,
                forall|c: int| 0 <= c < 4 ==> #[trigger] bit16(row, c) == (c < x && cell4(shape, y as int, c)),
            decreases 4 - x,
        {
            let ghost row0 = row;
            let bitpos: u16 = y as u16 * 4 + x;
            assert(bitpos as int == y * 4 + x);
            if (shape & (1u16 << bitpos)) != 0 {
                proof {
                    lemma_row_small(row, x, 0);
                }
                row = row | (1u16 << x);
            }
            assert forall|c: int| 0 <= c < 4 implies #[trigger] bit16(row, c) == (c < x + 1
                && cell4(shape, y as int, c)) by {
                lemma_bit16_or(row0, x, c as u16);
                assert(bit16(row0, c) == (c < x && cell4(shape, y as int, c)));
            }
            x = x + 1;
        }
        r.row[y] = row;
        y = y + 1;
    }
    r
}

/// Cell `(y, c)` of a 4x4 box after `k` clockwise quarter turns.
pub open spec fn rotated_cell_4x4(v: u16, k: nat, y: int, c: int) -> bool
    decreases k,
{
    if k == 0 {
        cell4(v, y, c)
    } else {
        rotated_cell_4x4(v, (k - 1) as nat, 3 - c, y)
    }
}

/// Cell `(y, c)` of a 4x4 box whose upper-left 3x3 part is turned `k`
/// times clockwise (the fourth row and column empty once turned).
pub open spec fn rotated_cell_3x3(v: u16, k: nat, y: int, c: int) -> bool
    decreases k,
{
    if k == 0 {
        cell4(v, y, c)
    } else {
        y < 3 && c < 3 && rotated_cell_3x3(v, (k - 1) as nat, 2 - c, y)
    }
}

/// The four rotation states of a piece whose 4x4 spawn box is `base`.
pub fn make_piece_4x4(base: u16) -> (r: PieceDef)
    ensures
        forall|k: int, y: int| 0 <= k < 4 && 0 <= y < 4 ==> #[trigger] r.rot[k].row[y] < 16,
        forall|k: int, y: int, c: int|
            0 <= k < 4 && 0 <= y < 4 && 0 <= c < 4 ==> #[trigger] bit16(r.rot[k].row[y], c)
                == rotated_cell_4x4(base, k as nat, y, c),
{
    let r1 = rot90_4x4(base);
    let r2 = rot90_4x4(r1);
    let r3 = rot90_4x4(r2);
    let res = PieceDef { rot: [to_rows(base), to_rows(r1), to_rows(r2), to_rows(r3)] };
    assert forall|k: int, y: int, c: int|
        0 <= k < 4 && 0 <= y < 4 && 0 <= c < 4 implies #[trigger] bit16(res.rot[k].row[y], c)
            == rotated_cell_4x4(base, k as nat, y, c) by {
        reveal_with_fuel(rotated_cell_4x4, 4);
        if k == 1 {
            assert(cell4(r1, y, c) == cell4(base, 3 - c, y));
        } else if k == 2 {
            assert(cell4(r2, y, c) == cell4(r1, 3 - c, y));
            assert(cell4(r1, 3 - c, y) == cell4(base, 3 - y, 3 - c));
        } else if k == 3 {
            assert(cell4(r3, y, c) == cell4(r2, 3 - c, y));
            assert(cell4(r2, 3 - c, y) == cell4(r1, 3 - y, 3 - c));
            assert(cell4(r1, 3 - y, 3 - c) == cell4(base, c, 3 - y));
        }
    }
    res
}

/// The four rotation states of a piece whose spawn box `base` uses the
/// upper-left 3x3 part of a 4x4 box.
pub fn make_piece_3x3(base: u16) -> (r: PieceDef)
    ensures
        forall|k: int, y: int| 0 <= k < 4 && 0 <= y < 4 ==> #[trigger] r.rot[k].row[y] < 16,
        forall|k: int, y: int, c: int|
            0 <= k < 4 && 0 <= y < 4 && 0 <= c < 4 ==> #[trigger] bit16(r.rot[k].row[y], c)
                == rotated_cell_3x3(base, k as nat, y, c),
{
    let r1 = rot90_3x3(base);
    let r2 = rot90_3x3(r1);
    let r3 = rot90_3x3(r2);
    let res = PieceDef { rot: [to_rows(base), to_rows(r1), to_rows(r2), to_rows(r3)] };
    assert forall|k: int, y: int, c: int|
        0 <= k < 4 && 0 <= y < 4 && 0 <= c < 4 implies #[trigger] bit16(res.rot[k].row[y], c)
            == rotated_cell_3x3(base, k as nat, y, c) by {
        reveal_with_fuel(rotated_cell_3x3, 4);
        if k == 1 {
            assert(cell4(r1, y, c) == (y < 3 && c < 3 && cell4(base, 2 - c, y)));
        } else if k == 2 {
            assert(cell4(r2, y, c) == (y < 3 && c < 3 && cell4(r1, 2 - c, y)));
            if y < 3 && c < 3 {
                assert(cell4(r1, 2 - c, y) == cell4(base, 2 - y, 2 - c));
            }
        } else if k == 3 {
            assert(cell4(r3, y, c) == (y < 3 && c < 3 && cell4(r2, 2 - c, y)));
            if y < 3 && c < 3 {
                assert(cell4(r2, 2 - c, y) == cell4(r1, 2 - y, 2 - c));
                assert(cell4(r1, 2 - y, 2 - c) == cell4(base, c, 2 - y));
            }
        }
    }
    res
}

/// The 4x4 spawn box of each piece, one bit per cell.
pub open spec fn piece_base(p: Piece) -> u16 {
    match p {
        Piece::I => 0x00F0,
        Piece::O => 0x0660,
        Piece::T => 0x0072,
        Piece::S => 0x0036,
        Piece::Z => 0x0063,
        Piece::J => 0x0071,
        Piece::L => 0x0074,
    }
}

/// Whether the cell in row `y`, column `c` of the box of piece `p` in
/// rotation `r` is part of the piece. `I` and `O` turn in the whole 4x4
/// box, the other pieces in its upper-left 3x3 part.
pub open spec fn shape_cell(p: Piece, r: Rot, y: int, c: int) -> bool {
    match p {
        Piece::I | Piece::O => rotated_cell_4x4(piece_base(p), rot_code(r), y, c),
        _ => rotated_cell_3x3(piece_base(p), rot_code(r), y, c),
    }
}

/// The rotation states of a piece, as the rotation system defines them.
pub fn piece_def(p: Piece) -> (r: PieceDef)
    ensures
        forall|k: int, y: int| 0 <= k < 4 && 0 <= y < 4 ==> #[trigger] r.rot[k].row[y] < 16,
        forall|k: Rot, y: int, c: int|
            0 <= y < 4 && 0 <= c < 4 ==> #[trigger] bit16(r.rot[rot_code(k) as int].row[y], c)
                == shape_cell(p, k, y, c),
{
    match p {
        Piece::I => make_piece_4x4(0x00F0),
        Piece::O => make_piece_4x4(0x0660),
        Piece::T => make_piece_3x3(0x0072),
        Piece::S => make_piece_3x3(0x0036),
        Piece::Z => make_piece_3x3(0x0063),
        Piece::J => make_piece_3x3(0x0071),
        Piece::L => make_piece_3x3(0x0074),
    }
}

/// Row `i` of the shape of piece `p` in rotation `r`, as the bits of the
/// occupied columns.
pub open spec fn shape_row(p: Piece, r: Rot, i: int) -> u16 {
    ((if shape_cell(p, r, i, 0) {
        1int
    } else {
        0int
    }) + (if shape_cell(p, r, i, 1) {
        2int
    } else {
        0int
    }) + (if shape_cell(p, r, i, 2) {
        4int
    } else {
        0int
    }) + (if shape_cell(p, r, i, 3) {
        8int
    } else {
        0int
    })) as u16
}

/// A value below 16 is the sum of its four low bits.
pub proof fn lemma_row_from_bits(row: u16)
    requires
        row < 16,
    ensures
        row == (if bit16(row, 0) {
            1int
        } else {
            0int
        }) + (if bit16(row, 1) {
            2int
        } else {
            0int
        }) + (if bit16(row, 2) {
            4int
        } else {
            0int
        }) + (if bit16(row, 3) {
            8int
        } else {
            0int
        }),
        forall|c: int| 4 <= c < 16 ==> !#[trigger] bit16(row, c),
{
    assert(row == (if row & 1u16 != 0 {
        1u16
    } else {
        0u16
    }) + (if row & 2u16 != 0 {
        2u16
    } else {
        0u16
    }) + (if row & 4u16 != 0 {
        4u16
    } else {
        0u16
    }) + (if row & 8u16 != 0 {
        8u16
    } else {
        0u16
    }) && (forall|c: u16| 4 <= c < 16 ==> row & (1u16 << c) == 0)) by (bit_vector)
        requires
            row < 16,
    ;
    assert(1u16 << 0u16 == 1u16 && 1u16 << 1u16 == 2u16 && 1u16 << 2u16 == 4u16 && 1u16 << 3u16
        == 8u16) by (bit_vector);
    assert forall|c: int| 4 <= c < 16 implies !#[trigger] bit16(row, c) by {
        assert(row & (1u16 << (c as u16)) == 0);
    }
}

/// The shape of piece `p` in rotation `r`.
pub fn piece_shape(p: Piece, r: Rot) -> (s: Shape)
    ensures
        forall|y: int| 0 <= y < 4 ==> #[trigger] s.row[y] < 16,
        forall|y: int| 0 <= y < 4 ==> #[trigger] s.row[y] == shape_row(p, r, y),
        forall|y: int, c: int|
            0 <= y < 4 && 0 <= c < 4 ==> #[trigger] bit16(s.row[y], c) == shape_cell(p, r, y, c),
{
    let def = piece_def(p);
    let k = r.to_u8() as usize;
    let s = def.rot[k];
    proof {
        assert forall|y: int| 0 <= y < 4 implies #[trigger] s.row[y] == shape_row(p, r, y) by {
            lemma_row_from_bits(s.row[y]);
            assert(bit16(s.row[y], 0) == shape_cell(p, r, y, 0));
            assert(bit16(s.row[y], 1) == shape_cell(p, r, y, 1));
            assert(bit16(s.row[y], 2) == shape_cell(p, r, y, 2));
            assert(bit16(s.row[y], 3) == shape_cell(p, r, y, 3));
        }
    }
    s
}

/// Every piece has at least one cell in every rotation.
pub proof fn lemma_shape_nonempty(p: Piece, r: Rot)
    ensures
        exists|i: int, j: int| 0 <= i < 4 && 0 <= j < 4 && #[trigger] shape_cell(p, r, i, j),
{
    assert(0x00F0u16 & (1u16 << 4u16) != 0 && 0x0660u16 & (1u16 << 5u16) != 0 && 0x0072u16 & (1u16
        << 1u16) != 0 && 0x0036u16 & (1u16 << 1u16) != 0 && 0x0063u16 & (1u16 << 0u16) != 0
        && 0x0071u16 & (1u16 << 0u16) != 0 && 0x0074u16 & (1u16 << 2u16) != 0) by (bit_vector);
    reveal_with_fuel(rotated_cell_4x4, 4);
    reveal_with_fuel(rotated_cell_3x3, 4);
    let (y0, c0): (int, int) = match p {
        Piece::I => (1, 0),
        Piece::O => (1, 1),
        Piece::T => (0, 1),
        Piece::S => (0, 1),
        Piece::Z => (0, 0),
        Piece::J => (0, 0),
        Piece::L => (0, 2),
    };
    assert(cell4(piece_base(p), y0, c0));
    let k = rot_code(r);
    match p {
        Piece::I | Piece::O => {
            if k == 0 {
                assert(shape_cell(p, r, y0, c0));
            } else if k == 1 {
                assert(shape_cell(p, r, c0, 3 - y0));
            } else if k == 2 {
                assert(shape_cell(p, r, 3 - y0, 3 - c0));
            } else {
                assert(shape_cell(p, r, 3 - c0, y0));
            }
        },
        _ => {
            if k == 0 {
                assert(shape_cell(p, r, y0, c0));
            } else if k == 1 {
                assert(shape_cell(p, r, c0, 2 - y0));
            } else if k == 2 {
                assert(shape_cell(p, r, 2 - y0, 2 - c0));
            } else {
                assert(shape_cell(p, r, 2 - c0, y0));
            }
        },
    }
}


/// Two boxes whose 16 cells agree are the same bits.
proof fn lemma_same_cells(a: u16, b: u16)
    requires
        forall|y: int, c: int| 0 <= y < 4 && 0 <= c < 4 ==> #[trigger] cell4(a, y, c) == cell4(b, y, c),
    ensures
        a == b,
{
    assert(cell4(a, 0, 0) == cell4(b, 0, 0));
    assert(cell4(a, 0, 1) == cell4(b, 0, 1));
    assert(cell4(a, 0, 2) == cell4(b, 0, 2));
    assert(cell4(a, 0, 3) == cell4(b, 0, 3));
    assert(cell4(a, 1, 0) == cell4(b, 1, 0));
    assert(cell4(a, 1, 1) == cell4(b, 1, 1));
    assert(cell4(a, 1, 2) == cell4(b, 1, 2));
    assert(cell4(a, 1, 3) == cell4(b, 1, 3));
    assert(cell4(a, 2, 0) == cell4(b, 2, 0));
    assert(cell4(a, 2, 1) == cell4(b, 2, 1));
    assert(cell4(a, 2, 2) == cell4(b, 2, 2));
    assert(cell4(a, 2, 3) == cell4(b, 2, 3));
    assert(cell4(a, 3, 0) == cell4(b, 3, 0));
    assert(cell4(a, 3, 1) == cell4(b, 3, 1));
    assert(cell4(a, 3, 2) == cell4(b, 3, 2));
    assert(cell4(a, 3, 3) == cell4(b, 3, 3));
    assert(a == b) by (bit_vector)
        requires
        (a & (1u16 << 0u16) != 0) == (b & (1u16 << 0u16) != 0),
        (a & (1u16 << 1u16) != 0) == (b & (1u16 << 1u16) != 0),
        (a & (1u16 << 2u16) != 0) == (b & (1u16 << 2u16) != 0),
        (a & (1u16 << 3u16) != 0) == (b & (1u16 << 3u16) != 0),
        (a & (1u16 << 4u16) != 0) == (b & (1u16 << 4u16) != 0),
        (a & (1u16 << 5u16) != 0) == (b & (1u16 << 5u16) != 0),
        (a & (1u16 << 6u16) != 0) == (b & (1u16 << 6u16) != 0),
        (a & (1u16 << 7u16) != 0) == (b & (1u16 << 7u16) != 0),
        (a & (1u16 << 8u16) != 0) == (b & (1u16 << 8u16) != 0),
        (a & (1u16 << 9u16) != 0) == (b & (1u16 << 9u16) != 0),
        (a & (1u16 << 10u16) != 0) == (b & (1u16 << 10u16) != 0),
        (a & (1u16 << 11u16) != 0) == (b & (1u16 << 11u16) != 0),
        (a & (1u16 << 12u16) != 0) == (b & (1u16 << 12u16) != 0),
        (a & (1u16 << 13u16) != 0) == (b & (1u16 << 13u16) != 0),
        (a & (1u16 << 14u16) != 0) == (b & (1u16 << 14u16) != 0),
        (a & (1u16 << 15u16) != 0) == (b & (1u16 << 15u16) != 0),
    ;
}

/// Whether `r` is `x` turned a quarter clockwise (see `rot90_4x4`).
pub open spec fn quarter_turned(x: u16, r: u16) -> bool {
    forall|y: int, c: int| 0 <= y < 4 && 0 <= c < 4 ==> #[trigger] cell4(r, y, c) == cell4(x, 3 - c, y)
}

/// Four quarter turns of a 4x4 box give the box back.
pub proof fn lemma_four_quarter_turns(a0: u16, a1: u16, a2: u16, a3: u16, a4: u16)
    requires
        quarter_turned(a0, a1),
        quarter_turned(a1, a2),
        quarter_turned(a2, a3),
        quarter_turned(a3, a4),
    ensures
        a4 == a0,
{
    assert forall|y: int, c: int| 0 <= y < 4 && 0 <= c < 4 implies #[trigger] cell4(a4, y, c) == cell4(a0, y, c) by {
        assert(cell4(a4, y, c) == cell4(a3, 3 - c, y));
        assert(cell4(a3, 3 - c, y) == cell4(a2, 3 - y, 3 - c));
        assert(cell4(a2, 3 - y, 3 - c) == cell4(a1, c, 3 - y));
        assert(cell4(a1, c, 3 - y) == cell4(a0, y, c));
    }
    lemma_same_cells(a4, a0);
}

/// Whether `r` is the top-left 3x3 of `x` turned a quarter clockwise, with
/// the fourth row and column empty (see `rot90_3x3`).
pub open spec fn quarter_turned3(x: u16, r: u16) -> bool {
    forall|y: int, c: int| 0 <= y < 4 && 0 <= c < 4 ==> #[trigger] cell4(r, y, c) == (y < 3 && c < 3 && cell4(x, 2 - c, y))
}

/// Four quarter turns of a 3x3 box give the box back, when it has no cell
/// outside its top-left 3x3.
pub proof fn lemma_four_quarter_turns3(a0: u16, a1: u16, a2: u16, a3: u16, a4: u16)
    requires
        forall|y: int, c: int| 0 <= y < 4 && 0 <= c < 4 && (y == 3 || c == 3) ==> !#[trigger] cell4(a0, y, c),
        quarter_turned3(a0, a1),
        quarter_turned3(a1, a2),
        quarter_turned3(a2, a3),
        quarter_turned3(a3, a4),
    ensures
        a4 == a0,
{
    assert forall|y: int, c: int| 0 <= y < 4 && 0 <= c < 4 implies #[trigger] cell4(a4, y, c) == cell4(a0, y, c) by {
        if y < 3 && c < 3 {
            assert(cell4(a4, y, c) == cell4(a3, 2 - c, y));
            assert(cell4(a3, 2 - c, y) == cell4(a2, 2 - y, 2 - c));
            assert(cell4(a2, 2 - y, 2 - c) == cell4(a1, c, 2 - y));
            assert(cell4(a1, c, 2 - y) == cell4(a0, y, c));
        } else {
            assert(!cell4(a4, y, c));
            assert(!cell4(a0, y, c));
        }
    }
    lemma_same_cells(a4, a0);
}


/// The number of filled cells of a 4x4 box.
pub open spec fn cell_count(x: u16) -> int {
    (if cell4(x, 0, 0) { 1int } else { 0int }) + (if cell4(x, 0, 1) { 1int } else { 0int }) + (if cell4(x, 0, 2) { 1int } else { 0int }) + (if cell4(x, 0, 3) { 1int } else { 0int }) + (if cell4(x, 1, 0) { 1int } else { 0int }) + (if cell4(x, 1, 1) { 1int } else { 0int }) + (if cell4(x, 1, 2) { 1int } else { 0int }) + (if cell4(x, 1, 3) { 1int } else { 0int }) + (if cell4(x, 2, 0) { 1int } else { 0int }) + (if cell4(x, 2, 1) { 1int } else { 0int }) + (if cell4(x, 2, 2) { 1int } else { 0int }) + (if cell4(x, 2, 3) { 1int } else { 0int }) + (if cell4(x, 3, 0) { 1int } else { 0int }) + (if cell4(x, 3, 1) { 1int } else { 0int }) + (if cell4(x, 3, 2) { 1int } else { 0int }) + (if cell4(x, 3, 3) { 1int } else { 0int })
}

/// A quarter turn keeps the number of filled cells.
#[verifier::rlimit(80)]
pub proof fn lemma_quarter_turn_keeps_count(x: u16, r: u16)
    requires
        quarter_turned(x, r),
    ensures
        cell_count(r) == cell_count(x),
{
    assert(cell4(r, 0, 0) == cell4(x, 3, 0));
    assert(cell4(r, 0, 1) == cell4(x, 2, 0));
    assert(cell4(r, 0, 2) == cell4(x, 1, 0));
    assert(cell4(r, 0, 3) == cell4(x, 0, 0));
    assert(cell4(r, 1, 0) == cell4(x, 3, 1));
    assert(cell4(r, 1, 1) == cell4(x, 2, 1));
    assert(cell4(r, 1, 2) == cell4(x, 1, 1));
    assert(cell4(r, 1, 3) == cell4(x, 0, 1));
    assert(cell4(r, 2, 0) == cell4(x, 3, 2));
    assert(cell4(r, 2, 1) == cell4(x, 2, 2));
    assert(cell4(r, 2, 2) == cell4(x, 1, 2));
    assert(cell4(r, 2, 3) == cell4(x, 0, 2));
    assert(cell4(r, 3, 0) == cell4(x, 3, 3));
    assert(cell4(r, 3, 1) == cell4(x, 2, 3));
    assert(cell4(r, 3, 2) == cell4(x, 1, 3));
    assert(cell4(r, 3, 3) == cell4(x, 0, 3));
}

/// A quarter turn of a 3x3 box keeps the number of filled cells, when the
/// box has no cell outside its top-left 3x3.
pub proof fn lemma_quarter_turn3_keeps_count(x: u16, r: u16)
    requires
        forall|y: int, c: int| 0 <= y < 4 && 0 <= c < 4 && (y == 3 || c == 3) ==> !#[trigger] cell4(x, y, c),
        quarter_turned3(x, r),
    ensures
        cell_count(r) == cell_count(x),
{
    assert(cell4(r, 0, 0) == cell4(x, 2, 0));
    assert(cell4(r, 0, 1) == cell4(x, 1, 0));
    assert(cell4(r, 0, 2) == cell4(x, 0, 0));
    assert(!cell4(r, 0, 3));
    assert(!cell4(x, 0, 3));
    assert(cell4(r, 1, 0) == cell4(x, 2, 1));
    assert(cell4(r, 1, 1) == cell4(x, 1, 1));
    assert(cell4(r, 1, 2) == cell4(x, 0, 1));
    assert(!cell4(r, 1, 3));
    assert(!cell4(x, 1, 3));
    assert(cell4(r, 2, 0) == cell4(x, 2, 2));
    assert(cell4(r, 2, 1) == cell4(x, 1, 2));
    assert(cell4(r, 2, 2) == cell4(x, 0, 2));
    assert(!cell4(r, 2, 3));
    assert(!cell4(x, 2, 3));
    assert(!cell4(r, 3, 0));
    assert(!cell4(x, 3, 0));
    assert(!cell4(r, 3, 1));
    assert(!cell4(x, 3, 1));
    assert(!cell4(r, 3, 2));
    assert(!cell4(x, 3, 2));
    assert(!cell4(r, 3, 3));
    assert(!cell4(x, 3, 3));
}

} // verus!
