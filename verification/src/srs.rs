use vstd::prelude::*;
use crate::types::{Piece, Rot, piece_code, rot_code};

verus! {

/// One wall-kick offset tried when rotating: `dx` to the right, `dy` up.
#[derive(Debug, Clone, Copy, PartialEq, Eq, Structural)]
pub struct Kick {
    pub dx: i8,
    pub dy: i8,
}

/// The opposite offset.
pub open spec fn inverted(k: Kick) -> Kick {
    Kick { dx: (-k.dx) as i8, dy: (-k.dy) as i8 }
}

/// Offsets no further than two cells in either direction.
pub open spec fn small_kick(k: Kick) -> bool {
    -2 <= k.dx <= 2 && -2 <= k.dy <= 2
}

/// The opposite of a kick offset.
pub fn invert(k: Kick) -> (r: Kick)
    requires
        k.dx > i8::MIN,
        k.dy > i8::MIN,
    ensures
        r == inverted(k),
        r.dx == -k.dx,
        r.dy == -k.dy,
{
    Kick { dx: -k.dx, dy: -k.dy }
}

pub open spec fn kick(dx: int, dy: int) -> Kick {
    Kick { dx: dx as i8, dy: dy as i8 }
}

/// The eight base kick lists of the rotation system: for `J L S T Z`, the
/// turns 0->1, 1->2, 2->3 and 3->0 (ids 0 to 3); for `I`, the same four
/// turns (ids 4 to 7).
pub open spec fn kick_base(id: int) -> Seq<Kick> {
    if id == 0 {
        seq![kick(0, 0), kick(-1, 0), kick(-1, 1), kick(0, -2), kick(-1, -2)]
    } else if id == 1 {
        seq![kick(0, 0), kick(1, 0), kick(1, -1), kick(0, 2), kick(1, 2)]
    } else if id == 2 {
        seq![kick(0, 0), kick(1, 0), kick(1, 1), kick(0, -2), kick(1, -2)]
    } else if id == 3 {
        seq![kick(0, 0), kick(-1, 0), kick(-1, -1), kick(0, 2), kick(-1, 2)]
    } else if id == 4 {
        seq![kick(0, 0), kick(-2, 0), kick(1, 0), kick(-2, -1), kick(1, 2)]
    } else if id == 5 {
        seq![kick(0, 0), kick(-1, 0), kick(2, 0), kick(-1, 2), kick(2, -1)]
    } else if id == 6 {
        seq![kick(0, 0), kick(2, 0), kick(-1, 0), kick(2, 1), kick(-1, -2)]
    } else {
        seq![kick(0, 0), kick(1, 0), kick(-2, 0), kick(1, -2), kick(-2, 1)]
    }
}

/// Kick `i` for a turn from rotation code `a` to rotation code `b`, given
/// the base lists starting at `first` (0 for `J L S T Z`, 4 for `I`): the
/// clockwise turn `a -> a+1` uses base `first + a`, the reverse turn uses
/// the inverted offsets, and any other pair tries only the zero offset.
pub open spec fn table_kick(first: int, a: int, b: int, i: int) -> Kick {
    if b == (a + 1) % 4 {
        kick_base(first + a)[i]
    } else if a == (b + 1) % 4 {
        inverted(kick_base(first + b)[i])
    } else {
        kick(0, 0)
    }
}

/// Kick `i` tried by piece `p` turning from rotation code `a` to `b`.
pub open spec fn srs_kick(p: Piece, a: int, b: int, i: int) -> Kick {
    match p {
        Piece::O => kick(0, 0),
        Piece::I => table_kick(4, a, b, i),
        _ => table_kick(0, a, b, i),
    }
}

fn base_kicks(id: usize) -> (r: [Kick; 5])
    requires
        id < 8,
    ensures
        r@ == kick_base(id as int),
{
    let r = if id == 0 {
        [
            Kick { dx: 0, dy: 0 },
            Kick { dx: -1, dy: 0 },
            Kick { dx: -1, dy: 1 },
            Kick { dx: 0, dy: -2 },
            Kick { dx: -1, dy: -2 },
        ]
    } else if id == 1 {
        [
            Kick { dx: 0, dy: 0 },
            Kick { dx: 1, dy: 0 },
            Kick { dx: 1, dy: -1 },
            Kick { dx: 0, dy: 2 },
            Kick { dx: 1, dy: 2 },
        ]
    } else if id == 2 {
        [
            Kick { dx: 0, dy: 0 },
            Kick { dx: 1, dy: 0 },
            Kick { dx: 1, dy: 1 },
            Kick { dx: 0, dy: -2 },
            Kick { dx: 1, dy: -2 },
        ]
    } else if id == 3 {
        [
            Kick { dx: 0, dy: 0 },
            Kick { dx: -1, dy: 0 },
            Kick { dx: -1, dy: -1 },
            Kick { dx: 0, dy: 2 },
            Kick { dx: -1, dy: 2 },
        ]
    } else if id == 4 {
        [
            Kick { dx: 0, dy: 0 },
            Kick { dx: -2, dy: 0 },
            Kick { dx: 1, dy: 0 },
            Kick { dx: -2, dy: -1 },
            Kick { dx: 1, dy: 2 },
        ]
    } else if id == 5 {
        [
            Kick { dx: 0, dy: 0 },
            Kick { dx: -1, dy: 0 },
            Kick { dx: 2, dy: 0 },
            Kick { dx: -1, dy: 2 },
            Kick { dx: 2, dy: -1 },
        ]
    } else if id == 6 {
        [
            Kick { dx: 0, dy: 0 },
            Kick { dx: 2, dy: 0 },
            Kick { dx: -1, dy: 0 },
            Kick { dx: 2, dy: 1 },
            Kick { dx: -1, dy: -2 },
        ]
    } else {
        [
            Kick { dx: 0, dy: 0 },
            Kick { dx: 1, dy: 0 },
            Kick { dx: -2, dy: 0 },
            Kick { dx: 1, dy: -2 },
            Kick { dx: -2, dy: 1 },
        ]
    };
    assert(r@ =~= kick_base(id as int));
    r
}

/// The kick table of one piece: `out[a][b]` lists the offsets tried when
/// turning from rotation code `a` to `b`.
pub type PieceKicks = [[[Kick; 5]; 4]; 4];

/// Writes a base list for the turn `a -> b` and its inverse for `b -> a`,
/// leaving every other entry unchanged.
pub fn fill_pair(out: &mut PieceKicks, a: usize, b: usize, base: &[Kick; 5])
    requires
        a < 4,
        b < 4,
        a != b,
        forall|i: int| 0 <= i < 5 ==> small_kick(#[trigger] base[i]),
    ensures
        forall|x: int, y: int, i: int|
            0 <= x < 4 && 0 <= y < 4 && 0 <= i < 5 ==> #[trigger] final(out)[x][y][i] == if x
                == a && y == b {
                base[i]
            } else if x == b && y == a {
                inverted(base[i])
            } else {
                old(out)[x][y][i]
            },
{
    let mut i: usize = 0;
    while i < 5
        invariant
            a < 4,
            b < 4,
            a != b,
            i <= 5,
            forall|j: int| 0 <= j < 5 ==> small_kick(#[trigger] base[j]),
            forall|x: int, y: int, j: int|
                0 <= x < 4 && 0 <= y < 4 && 0 <= j < 5 ==> #[trigger] out[x][y][j] == if j < i && x
                    == a && y == b {
                    base[j]
                } else if j < i && x == b && y == a {
                    inverted(base[j])
                } else {
                    old(out)[x][y][j]
                },
        decreases 5 - i,
    {
        let k = base[i];
        let inv = invert(k);
        let mut row_ab = out[a][b];
        row_ab[i] = k;
        out[a][b] = row_ab;
        let mut row_ba = out[b][a];
        row_ba[i] = inv;
        out[b][a] = row_ba;
        i = i + 1;
    }
}

/// Whether `a` and `b` are rotation codes one quarter turn apart.
pub open spec fn adjacent(a: int, b: int) -> bool {
    b == (a + 1) % 4 || a == (b + 1) % 4
}

proof fn lemma_base_small(id: int)
    ensures
        forall|i: int| 0 <= i < 5 ==> small_kick(#[trigger] kick_base(id)[i]),
        kick_base(id).len() == 5,
{
}

/// Fills the four quarter-turn pairs of a kick table from the base lists
/// starting at `first`, leaving the other entries unchanged.
fn fill_from(out: &mut PieceKicks, first: usize)
    requires
        first == 0 || first == 4,
    ensures
        forall|a: int, b: int, i: int|
            0 <= a < 4 && 0 <= b < 4 && 0 <= i < 5 ==> #[trigger] final(out)[a][b][i] == if adjacent(
                a,
                b,
            ) {
                table_kick(first as int, a, b, i)
            } else {
                old(out)[a][b][i]
            },
{
    proof {
        lemma_base_small(first as int);
        lemma_base_small(first + 1);
        lemma_base_small(first + 2);
        lemma_base_small(first + 3);
    }
    let b0 = base_kicks(first);
    fill_pair(out, 0, 1, &b0);
    let b1 = base_kicks(first + 1);
    fill_pair(out, 1, 2, &b1);
    let b2 = base_kicks(first + 2);
    fill_pair(out, 2, 3, &b2);
    let b3 = base_kicks(first + 3);
    fill_pair(out, 3, 0, &b3);
}

/// Fills the quarter-turn entries of a kick table with the offsets of the
/// `J L S T Z` pieces.
pub fn fill_jlstz(out: &mut PieceKicks)
    ensures
        forall|a: int, b: int, i: int|
            0 <= a < 4 && 0 <= b < 4 && 0 <= i < 5 ==> #[trigger] final(out)[a][b][i] == if adjacent(
                a,
                b,
            ) {
                table_kick(0, a, b, i)
            } else {
                old(out)[a][b][i]
            },
{
    fill_from(out, 0);
}

/// Fills the quarter-turn entries of a kick table with the offsets of the
/// `I` piece.
pub fn fill_i(out: &mut PieceKicks)
    ensures
        forall|a: int, b: int, i: int|
            0 <= a < 4 && 0 <= b < 4 && 0 <= i < 5 ==> #[trigger] final(out)[a][b][i] == if adjacent(
                a,
                b,
            ) {
                table_kick(4, a, b, i)
            } else {
                old(out)[a][b][i]
            },
{
    fill_from(out, 4);
}

/// Sets every entry of a kick table to the zero offset (the `O` piece
/// never kicks).
pub fn fill_o(out: &mut PieceKicks)
    ensures
        forall|a: int, b: int, i: int|
            0 <= a < 4 && 0 <= b < 4 && 0 <= i < 5 ==> #[trigger] final(out)[a][b][i] == kick(0, 0),
{
    *out = [[[Kick { dx: 0, dy: 0 }; 5]; 4]; 4];
}

/// The full kick table, indexed by piece code, then the two rotation codes.
pub fn make_srs() -> (table: [PieceKicks; 7])
    ensures
        forall|p: int, a: int, b: int, i: int|
            0 <= p < 7 && 0 <= a < 4 && 0 <= b < 4 && 0 <= i < 5 ==> #[trigger] table[p][a][b][i]
                == srs_kick(crate::types::piece_of_code(p), a, b, i),
{
    let mut table: [PieceKicks; 7] = [[[[Kick { dx: 0, dy: 0 }; 5]; 4]; 4]; 7];
    let mut t_i = table[0];
    fill_i(&mut t_i);
    table[0] = t_i;
    let mut t_o = table[1];
    fill_o(&mut t_o);
    table[1] = t_o;
    let mut p: usize = 2;
    while p < 7
        invariant
            2 <= p <= 7,
            forall|q: int, a: int, b: int, i: int|
                0 <= q < 7 && 0 <= a < 4 && 0 <= b < 4 && 0 <= i < 5 ==> #[trigger] table[q][a][b][i]
                    == if q < p {
                    srs_kick(crate::types::piece_of_code(q), a, b, i)
                } else {
                    kick(0, 0)
                },
        decreases 7 - p,
    {
        let mut t = table[p];
        fill_jlstz(&mut t);
        table[p] = t;
        p = p + 1;
    }
    table
}

/// The kick table of the rotation system.
pub fn srs_table() -> (table: [PieceKicks; 7])
    ensures
        forall|p: int, a: int, b: int, i: int|
            0 <= p < 7 && 0 <= a < 4 && 0 <= b < 4 && 0 <= i < 5 ==> #[trigger] table[p][a][b][i]
                == srs_kick(crate::types::piece_of_code(p), a, b, i),
{
    make_srs()
}

/// The five offsets tried, in order, when piece `p` turns from `from` to `to`.
pub fn srs_kicks(p: Piece, from: Rot, to: Rot) -> (k: [Kick; 5])
    ensures
        forall|i: int| 0 <= i < 5 ==> #[trigger] k[i] == srs_kick(p, rot_code(from) as int, rot_code(to) as int, i),
        forall|i: int| 0 <= i < 5 ==> small_kick(#[trigger] k[i]),
{
    let table = srs_table();
    let k = table[p.to_u8() as usize][from.to_u8() as usize][to.to_u8() as usize];
    proof {
        crate::types::lemma_piece_code_round_trip(p);
        lemma_base_small(0);
        lemma_base_small(1);
        lemma_base_small(2);
        lemma_base_small(3);
        lemma_base_small(4);
        lemma_base_small(5);
        lemma_base_small(6);
        lemma_base_small(7);
        assert forall|i: int| 0 <= i < 5 implies small_kick(#[trigger] k[i]) by {
            assert(k[i] == srs_kick(p, rot_code(from) as int, rot_code(to) as int, i));
        }
    }
    k
}

/// Every clockwise turn's offsets are the reverse turn's offsets inverted.
pub proof fn lemma_kicks_reverse(p: Piece, a: int, i: int)
    requires
        0 <= a < 4,
        0 <= i < 5,
    ensures
        srs_kick(p, (a + 1) % 4, a, i) == inverted(srs_kick(p, a, (a + 1) % 4, i)),
{
    lemma_base_small(0);
    lemma_base_small(1);
    lemma_base_small(2);
    lemma_base_small(3);
    lemma_base_small(4);
    lemma_base_small(5);
    lemma_base_small(6);
    lemma_base_small(7);
}


/// The shape of the kick table: every turn tries the zero offset first,
/// `O` tries nothing else, a turn to the same or the opposite rotation
/// tries only the zero offset, and `J L S T Z` share one table.
pub proof fn lemma_kick_table_shape(p: Piece, a: int, b: int, i: int)
    requires
        0 <= a < 4,
        0 <= b < 4,
        0 <= i < 5,
    ensures
        srs_kick(p, a, b, 0) == kick(0, 0),
        p == Piece::O ==> srs_kick(p, a, b, i) == kick(0, 0),
        (b == a || b == (a + 2) % 4) ==> srs_kick(p, a, b, i) == kick(0, 0),
        p != Piece::I && p != Piece::O ==> srs_kick(p, a, b, i) == srs_kick(Piece::T, a, b, i),
{
    assert(kick_base(a)[0] == kick(0, 0));
    assert(kick_base(b)[0] == kick(0, 0));
    assert(kick_base(4 + a)[0] == kick(0, 0));
    assert(kick_base(4 + b)[0] == kick(0, 0));
}


/// The guideline kick tables: for `J L S T Z` and for `I`, the five offsets
/// of each clockwise quarter turn, in the order they are tried, and the
/// same offsets reversed for the counter-clockwise turn back.
pub proof fn lemma_guideline_kicks(p: Piece)
    ensures
        p != Piece::I && p != Piece::O ==> srs_kick(p, 0, 1, 0).dx == 0 && srs_kick(p, 0, 1, 0).dy == 0,
        p != Piece::I && p != Piece::O ==> srs_kick(p, 0, 1, 1).dx == -1 && srs_kick(p, 0, 1, 1).dy == 0,
        p != Piece::I && p != Piece::O ==> srs_kick(p, 0, 1, 2).dx == -1 && srs_kick(p, 0, 1, 2).dy == 1,
        p != Piece::I && p != Piece::O ==> srs_kick(p, 0, 1, 3).dx == 0 && srs_kick(p, 0, 1, 3).dy == -2,
        p != Piece::I && p != Piece::O ==> srs_kick(p, 0, 1, 4).dx == -1 && srs_kick(p, 0, 1, 4).dy == -2,
        p != Piece::I && p != Piece::O ==> srs_kick(p, 1, 2, 0).dx == 0 && srs_kick(p, 1, 2, 0).dy == 0,
        p != Piece::I && p != Piece::O ==> srs_kick(p, 1, 2, 1).dx == 1 && srs_kick(p, 1, 2, 1).dy == 0,
        p != Piece::I && p != Piece::O ==> srs_kick(p, 1, 2, 2).dx == 1 && srs_kick(p, 1, 2, 2).dy == -1,
        p != Piece::I && p != Piece::O ==> srs_kick(p, 1, 2, 3).dx == 0 && srs_kick(p, 1, 2, 3).dy == 2,
        p != Piece::I && p != Piece::O ==> srs_kick(p, 1, 2, 4).dx == 1 && srs_kick(p, 1, 2, 4).dy == 2,
        p != Piece::I && p != Piece::O ==> srs_kick(p, 2, 3, 0).dx == 0 && srs_kick(p, 2, 3, 0).dy == 0,
        p != Piece::I && p != Piece::O ==> srs_kick(p, 2, 3, 1).dx == 1 && srs_kick(p, 2, 3, 1).dy == 0,
        p != Piece::I && p != Piece::O ==> srs_kick(p, 2, 3, 2).dx == 1 && srs_kick(p, 2, 3, 2).dy == 1,
        p != Piece::I && p != Piece::O ==> srs_kick(p, 2, 3, 3).dx == 0 && srs_kick(p, 2, 3, 3).dy == -2,
        p != Piece::I && p != Piece::O ==> srs_kick(p, 2, 3, 4).dx == 1 && srs_kick(p, 2, 3, 4).dy == -2,
        p != Piece::I && p != Piece::O ==> srs_kick(p, 3, 0, 0).dx == 0 && srs_kick(p, 3, 0, 0).dy == 0,
        p != Piece::I && p != Piece::O ==> srs_kick(p, 3, 0, 1).dx == -1 && srs_kick(p, 3, 0, 1).dy == 0,
        p != Piece::I && p != Piece::O ==> srs_kick(p, 3, 0, 2).dx == -1 && srs_kick(p, 3, 0, 2).dy == -1,
        p != Piece::I && p != Piece::O ==> srs_kick(p, 3, 0, 3).dx == 0 && srs_kick(p, 3, 0, 3).dy == 2,
        p != Piece::I && p != Piece::O ==> srs_kick(p, 3, 0, 4).dx == -1 && srs_kick(p, 3, 0, 4).dy == 2,
        srs_kick(Piece::I, 0, 1, 0).dx == 0 && srs_kick(Piece::I, 0, 1, 0).dy == 0,
        srs_kick(Piece::I, 0, 1, 1).dx == -2 && srs_kick(Piece::I, 0, 1, 1).dy == 0,
        srs_kick(Piece::I, 0, 1, 2).dx == 1 && srs_kick(Piece::I, 0, 1, 2).dy == 0,
        srs_kick(Piece::I, 0, 1, 3).dx == -2 && srs_kick(Piece::I, 0, 1, 3).dy == -1,
        srs_kick(Piece::I, 0, 1, 4).dx == 1 && srs_kick(Piece::I, 0, 1, 4).dy == 2,
        srs_kick(Piece::I, 1, 2, 0).dx == 0 && srs_kick(Piece::I, 1, 2, 0).dy == 0,
        srs_kick(Piece::I, 1, 2, 1).dx == -1 && srs_kick(Piece::I, 1, 2, 1).dy == 0,
        srs_kick(Piece::I, 1, 2, 2).dx == 2 && srs_kick(Piece::I, 1, 2, 2).dy == 0,
        srs_kick(Piece::I, 1, 2, 3).dx == -1 && srs_kick(Piece::I, 1, 2, 3).dy == 2,
        srs_kick(Piece::I, 1, 2, 4).dx == 2 && srs_kick(Piece::I, 1, 2, 4).dy == -1,
        srs_kick(Piece::I, 2, 3, 0).dx == 0 && srs_kick(Piece::I, 2, 3, 0).dy == 0,
        srs_kick(Piece::I, 2, 3, 1).dx == 2 && srs_kick(Piece::I, 2, 3, 1).dy == 0,
        srs_kick(Piece::I, 2, 3, 2).dx == -1 && srs_kick(Piece::I, 2, 3, 2).dy == 0,
        srs_kick(Piece::I, 2, 3, 3).dx == 2 && srs_kick(Piece::I, 2, 3, 3).dy == 1,
        srs_kick(Piece::I, 2, 3, 4).dx == -1 && srs_kick(Piece::I, 2, 3, 4).dy == -2,
        srs_kick(Piece::I, 3, 0, 0).dx == 0 && srs_kick(Piece::I, 3, 0, 0).dy == 0,
        srs_kick(Piece::I, 3, 0, 1).dx == 1 && srs_kick(Piece::I, 3, 0, 1).dy == 0,
        srs_kick(Piece::I, 3, 0, 2).dx == -2 && srs_kick(Piece::I, 3, 0, 2).dy == 0,
        srs_kick(Piece::I, 3, 0, 3).dx == 1 && srs_kick(Piece::I, 3, 0, 3).dy == -2,
        srs_kick(Piece::I, 3, 0, 4).dx == -2 && srs_kick(Piece::I, 3, 0, 4).dy == 1,
        p != Piece::I && p != Piece::O ==> srs_kick(p, 1, 0, 0).dx == 0 && srs_kick(p, 1, 0, 0).dy == 0,
        p != Piece::I && p != Piece::O ==> srs_kick(p, 1, 0, 1).dx == 1 && srs_kick(p, 1, 0, 1).dy == 0,
        p != Piece::I && p != Piece::O ==> srs_kick(p, 1, 0, 2).dx == 1 && srs_kick(p, 1, 0, 2).dy == -1,
        p != Piece::I && p != Piece::O ==> srs_kick(p, 1, 0, 3).dx == 0 && srs_kick(p, 1, 0, 3).dy == 2,
        p != Piece::I && p != Piece::O ==> srs_kick(p, 1, 0, 4).dx == 1 && srs_kick(p, 1, 0, 4).dy == 2,
        p != Piece::I && p != Piece::O ==> srs_kick(p, 2, 1, 0).dx == 0 && srs_kick(p, 2, 1, 0).dy == 0,
        p != Piece::I && p != Piece::O ==> srs_kick(p, 2, 1, 1).dx == -1 && srs_kick(p, 2, 1, 1).dy == 0,
        p != Piece::I && p != Piece::O ==> srs_kick(p, 2, 1, 2).dx == -1 && srs_kick(p, 2, 1, 2).dy == 1,
        p != Piece::I && p != Piece::O ==> srs_kick(p, 2, 1, 3).dx == 0 && srs_kick(p, 2, 1, 3).dy == -2,
        p != Piece::I && p != Piece::O ==> srs_kick(p, 2, 1, 4).dx == -1 && srs_kick(p, 2, 1, 4).dy == -2,
        p != Piece::I && p != Piece::O ==> srs_kick(p, 3, 2, 0).dx == 0 && srs_kick(p, 3, 2, 0).dy == 0,
        p != Piece::I && p != Piece::O ==> srs_kick(p, 3, 2, 1).dx == -1 && srs_kick(p, 3, 2, 1).dy == 0,
        p != Piece::I && p != Piece::O ==> srs_kick(p, 3, 2, 2).dx == -1 && srs_kick(p, 3, 2, 2).dy == -1,
        p != Piece::I && p != Piece::O ==> srs_kick(p, 3, 2, 3).dx == 0 && srs_kick(p, 3, 2, 3).dy == 2,
        p != Piece::I && p != Piece::O ==> srs_kick(p, 3, 2, 4).dx == -1 && srs_kick(p, 3, 2, 4).dy == 2,
        p != Piece::I && p != Piece::O ==> srs_kick(p, 0, 3, 0).dx == 0 && srs_kick(p, 0, 3, 0).dy == 0,
        p != Piece::I && p != Piece::O ==> srs_kick(p, 0, 3, 1).dx == 1 && srs_kick(p, 0, 3, 1).dy == 0,
        p != Piece::I && p != Piece::O ==> srs_kick(p, 0, 3, 2).dx == 1 && srs_kick(p, 0, 3, 2).dy == 1,
        p != Piece::I && p != Piece::O ==> srs_kick(p, 0, 3, 3).dx == 0 && srs_kick(p, 0, 3, 3).dy == -2,
        p != Piece::I && p != Piece::O ==> srs_kick(p, 0, 3, 4).dx == 1 && srs_kick(p, 0, 3, 4).dy == -2,
        srs_kick(Piece::I, 1, 0, 0).dx == 0 && srs_kick(Piece::I, 1, 0, 0).dy == 0,
        srs_kick(Piece::I, 1, 0, 1).dx == 2 && srs_kick(Piece::I, 1, 0, 1).dy == 0,
        srs_kick(Piece::I, 1, 0, 2).dx == -1 && srs_kick(Piece::I, 1, 0, 2).dy == 0,
        srs_kick(Piece::I, 1, 0, 3).dx == 2 && srs_kick(Piece::I, 1, 0, 3).dy == 1,
        srs_kick(Piece::I, 1, 0, 4).dx == -1 && srs_kick(Piece::I, 1, 0, 4).dy == -2,
        srs_kick(Piece::I, 2, 1, 0).dx == 0 && srs_kick(Piece::I, 2, 1, 0).dy == 0,
        srs_kick(Piece::I, 2, 1, 1).dx == 1 && srs_kick(Piece::I, 2, 1, 1).dy == 0,
        srs_kick(Piece::I, 2, 1, 2).dx == -2 && srs_kick(Piece::I, 2, 1, 2).dy == 0,
        srs_kick(Piece::I, 2, 1, 3).dx == 1 && srs_kick(Piece::I, 2, 1, 3).dy == -2,
        srs_kick(Piece::I, 2, 1, 4).dx == -2 && srs_kick(Piece::I, 2, 1, 4).dy == 1,
        srs_kick(Piece::I, 3, 2, 0).dx == 0 && srs_kick(Piece::I, 3, 2, 0).dy == 0,
        srs_kick(Piece::I, 3, 2, 1).dx == -2 && srs_kick(Piece::I, 3, 2, 1).dy == 0,
        srs_kick(Piece::I, 3, 2, 2).dx == 1 && srs_kick(Piece::I, 3, 2, 2).dy == 0,
        srs_kick(Piece::I, 3, 2, 3).dx == -2 && srs_kick(Piece::I, 3, 2, 3).dy == -1,
        srs_kick(Piece::I, 3, 2, 4).dx == 1 && srs_kick(Piece::I, 3, 2, 4).dy == 2,
        srs_kick(Piece::I, 0, 3, 0).dx == 0 && srs_kick(Piece::I, 0, 3, 0).dy == 0,
        srs_kick(Piece::I, 0, 3, 1).dx == -1 && srs_kick(Piece::I, 0, 3, 1).dy == 0,
        srs_kick(Piece::I, 0, 3, 2).dx == 2 && srs_kick(Piece::I, 0, 3, 2).dy == 0,
        srs_kick(Piece::I, 0, 3, 3).dx == -1 && srs_kick(Piece::I, 0, 3, 3).dy == 2,
        srs_kick(Piece::I, 0, 3, 4).dx == 2 && srs_kick(Piece::I, 0, 3, 4).dy == -1,
{
}

} // verus!
