use vstd::prelude::*;

verus! {

/// The playfield: `rows[0]` is the top row, `rows[H - 1]` the bottom one;
/// bit `x` of a row is set when the cell in column `x` is occupied.
#[derive(Debug, Clone, Copy)]
pub struct Board<const W: usize, const H: usize> {
    pub rows: [u64; H],
}

/// The rows removed by a line clear: bit `y` of `mask` is set for each
/// removed row index `y`, and `count` says how many there were.
#[derive(Debug, Clone, Copy)]
pub struct ClearResult {
    pub mask: u64,
    pub count: u8,
}

/// Whether column `col` of a row is occupied.
pub open spec fn filled(row: u64, col: int) -> bool {
    row & (1u64 << (col as u64)) != 0
}

/// The board widths and heights the engine works with: a row fits in a
/// 64-bit word with a spare bit, and a clear mask fits one bit per row.
pub open spec fn dims_ok(w: usize, h: usize) -> bool {
    1 <= w < 64 && 1 <= h <= 64
}

/// `(1 << w) - 1` is the mask of the `w` lowest bits.
pub proof fn lemma_low_mask(w: u64, col: u64)
    requires
        w < 64,
        col < 64,
    ensures
        (1u64 << w) >= 1,
        filled(((1u64 << w) - 1) as u64, col as int) == (col < w),
{
    assert((1u64 << w) >= 1) by (bit_vector)
        requires
            w < 64,
    ;
    assert((((1u64 << w) - 1) as u64 & (1u64 << col) != 0) == (col < w)) by (bit_vector)
        requires
            w < 64,
            col < 64,
    ;
}

/// Bits of `a | b`, `a & b`, `a & !b` and of zero.
pub proof fn lemma_bit_ops(a: u64, b: u64, col: u64)
    requires
        col < 64,
    ensures
        filled(a | b, col as int) == (filled(a, col as int) || filled(b, col as int)),
        filled(a & b, col as int) == (filled(a, col as int) && filled(b, col as int)),
        filled(a & !b, col as int) == (filled(a, col as int) && !filled(b, col as int)),
        !filled(0u64, col as int),
        filled(1u64 << col, col as int),
{
    assert(((a | b) & (1u64 << col) != 0) == ((a & (1u64 << col) != 0) || (b & (1u64 << col)
        != 0))) by (bit_vector);
    assert(((a & b) & (1u64 << col) != 0) == ((a & (1u64 << col) != 0) && (b & (1u64 << col)
        != 0))) by (bit_vector);
    assert(((a & !b) & (1u64 << col) != 0) == ((a & (1u64 << col) != 0) && !(b & (1u64 << col)
        != 0))) by (bit_vector);
    assert((0u64 & (1u64 << col)) == 0) by (bit_vector);
    assert(((1u64 << col) & (1u64 << col)) != 0) by (bit_vector)
        requires
            col < 64,
    ;
}

/// The rows of `rows` from index `from` on that are not equal to `full`,
/// in order.
pub open spec fn kept_rows(rows: Seq<u64>, full: u64, from: int) -> Seq<u64>
    decreases rows.len() - from,
{
    if from < 0 || from >= rows.len() {
        seq![]
    } else if rows[from] == full {
        kept_rows(rows, full, from + 1)
    } else {
        seq![rows[from]] + kept_rows(rows, full, from + 1)
    }
}

/// The number of rows of `rows` from index `from` on that equal `full`.
pub open spec fn full_rows_from(rows: Seq<u64>, full: u64, from: int) -> int
    decreases rows.len() - from,
{
    if from < 0 || from >= rows.len() {
        0
    } else if rows[from] == full {
        full_rows_from(rows, full, from + 1) + 1
    } else {
        full_rows_from(rows, full, from + 1)
    }
}

/// The mask with bit `y` set for each row `y >= from` equal to `full`.
pub open spec fn clear_mask(rows: Seq<u64>, full: u64, from: int) -> u64
    decreases rows.len() - from,
{
    if from < 0 || from >= rows.len() {
        0
    } else if rows[from] == full {
        clear_mask(rows, full, from + 1) | (1u64 << (from as u64))
    } else {
        clear_mask(rows, full, from + 1)
    }
}

/// The rows after removing every row equal to `full`: the others keep
/// their order at the bottom, empty rows fill the top.
pub open spec fn rows_after_clear(rows: Seq<u64>, full: u64) -> Seq<u64> {
    let kept = kept_rows(rows, full, 0);
    Seq::new(rows.len(), |y: int| if y < rows.len() - kept.len() {
        0u64
    } else {
        kept[y - (rows.len() - kept.len())]
    })
}

pub proof fn lemma_kept_rows_len(rows: Seq<u64>, full: u64, from: int)
    requires
        0 <= from <= rows.len(),
    ensures
        kept_rows(rows, full, from).len() + full_rows_from(rows, full, from) == rows.len() - from,
    decreases rows.len() - from,
{
    if from < rows.len() {
        lemma_kept_rows_len(rows, full, from + 1);
    }
}

pub proof fn lemma_kept_rows_not_full(rows: Seq<u64>, full: u64, from: int)
    requires
        0 <= from <= rows.len(),
    ensures
        forall|i: int|
            0 <= i < kept_rows(rows, full, from).len() ==> #[trigger] kept_rows(rows, full, from)[i]
                != full,
    decreases rows.len() - from,
{
    if from < rows.len() {
        lemma_kept_rows_not_full(rows, full, from + 1);
        let k = kept_rows(rows, full, from + 1);
        if rows[from] != full {
            assert forall|i: int|
                0 <= i < kept_rows(rows, full, from).len() implies #[trigger] kept_rows(
                rows,
                full,
                from,
            )[i] != full by {
                if i > 0 {
                    assert(kept_rows(rows, full, from)[i] == k[i - 1]);
                }
            }
        }
    }
}

impl<const W: usize, const H: usize> Board<W, H> {
    /// The row value with every cell occupied.
    pub open spec fn full_bits() -> u64 {
        ((1u64 << (W as u64)) - 1) as u64
    }

    /// The row value with every cell occupied: the low `W` bits set.
    pub fn full_mask() -> (r: u64)
        requires
            W < 64,
        ensures
            r == Self::full_bits(),
            forall|col: int| 0 <= col < 64 ==> filled(r, col) == (col < W),
    {
        proof {
            assert forall|col: int| 0 <= col < 64 implies filled(Self::full_bits(), col) == (col
                < W) by {
                lemma_low_mask(W as u64, col as u64);
            }
            lemma_low_mask(W as u64, 0);
        }
        (1u64 << (W as u64)) - 1
    }

    /// Whether the cell in row `y`, column `x` is occupied.
    pub open spec fn cell(self, y: int, x: int) -> bool {
        filled(self.rows[y], x)
    }

    /// An empty board.
    pub fn new() -> (b: Self)
        ensures
            forall|y: int| 0 <= y < H ==> #[trigger] b.rows[y] == 0,
    {
        Board { rows: [0u64; H] }
    }

    /// Whether `mask` overlaps the occupied cells of row `y`.
    pub fn collide(&self, y: u8, mask: u64) -> (r: bool)
        requires
            y < H,
        ensures
            r == (self.rows[y as int] & mask != 0),
    {
        self.rows[y as usize] & mask != 0
    }

    /// Occupies the cells of `mask` in row `y`; bits beyond the board width
    /// are ignored.
    pub fn place(&mut self, y: u8, mask: u64)
        requires
            y < H,
            W < 64,
        ensures
            final(self).rows[y as int] == old(self).rows[y as int] | (mask & Self::full_bits()),
            forall|i: int| 0 <= i < H && i != y ==> #[trigger] final(self).rows[i] == old(self).rows[i],
    {
        let full = Self::full_mask();
        self.rows[y as usize] = self.rows[y as usize] | (mask & full);
    }

    /// Whether row `y` is completely occupied.
    pub fn full(&self, y: u8) -> (r: bool)
        requires
            y < H,
            W < 64,
        ensures
            r == (self.rows[y as int] == Self::full_bits()),
    {
        self.rows[y as usize] == Self::full_mask()
    }

    /// Whether every row is empty.
    pub open spec fn empty(self) -> bool {
        forall|y: int| 0 <= y < H ==> #[trigger] self.rows[y] == 0
    }

    /// Whether no cell is occupied.
    pub fn is_empty(&self) -> (r: bool)
        ensures
            r == self.empty(),
    {
        let mut y: usize = 0;
        while y < H
            invariant
                y <= H,
                forall|i: int| 0 <= i < y ==> #[trigger] self.rows[i] == 0,
            decreases H - y,
        {
            if self.rows[y] != 0 {
                return false;
            }
            y = y + 1;
        }
        true
    }
}

impl<const W: usize, const H: usize> Board<W, H> {
    /// The height of column `col` counted from row `row` down: `H - y` for
    /// the first occupied row `y >= row`, or 0 when there is none.
    pub open spec fn height_from(self, col: int, row: int) -> int
        decreases H - row,
    {
        if row < 0 || row >= H {
            0
        } else if self.cell(row, col) {
            H - row
        } else {
            self.height_from(col, row + 1)
        }
    }

    /// A column's height names its topmost occupied row at or below `row`:
    /// 0 exactly when none is occupied there, else `H - y` for the least
    /// occupied `y`.
    pub proof fn lemma_height_topmost(self, col: int, row: int)
        requires
            0 <= row,
        ensures
            self.height_from(col, row) == 0 <==> forall|r: int| row <= r < H ==> !#[trigger] self.cell(r, col),
            self.height_from(col, row) > 0 ==> {
                let y = H - self.height_from(col, row);
                &&& row <= y < H
                &&& self.cell(y, col)
                &&& forall|r: int| row <= r < y ==> !#[trigger] self.cell(r, col)
            },
        decreases H - row,
    {
        if row < H {
            self.lemma_height_topmost(col, row + 1);
        }
    }

    /// The height of column `col`: `H - y` for its topmost occupied row
    /// `y`, 0 for an empty column.
    pub open spec fn col_height(self, col: int) -> int {
        self.height_from(col, 0)
    }

    /// Whether the cell `(row, col)` is empty with an occupied cell above it.
    pub open spec fn is_hole(self, row: int, col: int) -> bool {
        !self.cell(row, col) && exists|r: int| 0 <= r < row && #[trigger] self.cell(r, col)
    }

    /// Holes among the first `n` rows of column `col`.
    pub open spec fn col_holes(self, col: int, n: int) -> int
        decreases n,
    {
        if n <= 0 {
            0
        } else {
            self.col_holes(col, n - 1) + if self.is_hole(n - 1, col) {
                1int
            } else {
                0int
            }
        }
    }

    /// Holes in the first `ncols` columns.
    pub open spec fn holes_upto(self, ncols: int) -> int
        decreases ncols,
    {
        if ncols <= 0 {
            0
        } else {
            self.holes_upto(ncols - 1) + self.col_holes(ncols - 1, H as int)
        }
    }

    /// Occupied cells among the first `n` rows of column `col`.
    pub open spec fn filled_count(self, col: int, n: int) -> int
        decreases n,
    {
        if n <= 0 {
            0
        } else {
            self.filled_count(col, n - 1) + if self.cell(n - 1, col) {
                1int
            } else {
                0int
            }
        }
    }

    /// For each empty cell among the first `n` rows of column `col`, the
    /// number of occupied cells above it, summed.
    pub open spec fn col_covered(self, col: int, n: int) -> int
        decreases n,
    {
        if n <= 0 {
            0
        } else {
            self.col_covered(col, n - 1) + if self.cell(n - 1, col) {
                0int
            } else {
                self.filled_count(col, n - 1)
            }
        }
    }

    /// `col_covered` summed over the first `ncols` columns.
    pub open spec fn covered_upto(self, ncols: int) -> int
        decreases ncols,
    {
        if ncols <= 0 {
            0
        } else {
            self.covered_upto(ncols - 1) + self.col_covered(ncols - 1, H as int)
        }
    }

    proof fn lemma_height_skip(self, col: int, a: int, b: int)
        requires
            0 <= a <= b <= H,
            forall|r: int| a <= r < b ==> !#[trigger] self.cell(r, col),
        ensures
            self.height_from(col, a) == self.height_from(col, b),
        decreases b - a,
    {
        if a < b {
            self.lemma_height_skip(col, a + 1, b);
        }
    }

    proof fn lemma_height_bound(self, col: int, a: int)
        requires
            0 <= a <= H,
        ensures
            0 <= self.height_from(col, a) <= H - a,
        decreases H - a,
    {
        if a < H {
            self.lemma_height_bound(col, a + 1);
        }
    }

    /// The height of every column.
    pub fn column_heights(&self) -> (heights: [u8; W])
        requires
            W < 64,
            H < 256,
        ensures
            forall|c: int| 0 <= c < W ==> #[trigger] heights[c] == self.col_height(c),
    {
        let mut heights = [0u8; W];
        let mut col: usize = 0;
        while col < W
            invariant
                col <= W,
                W < 64,
                H < 256,
                forall|c: int| 0 <= c < col ==> #[trigger] heights[c] == self.col_height(c),
            decreases W - col,
        {
            let mut row: usize = 0;
            let mut found = false;
            while row < H
                invariant_except_break
                    !found,
                invariant
                    row <= H,
                    col < W,
                    W < 64,
                    forall|r: int| 0 <= r < row ==> !#[trigger] self.cell(r, col as int),
                ensures
                    found ==> row < H && self.cell(row as int, col as int),
                    !found ==> row == H,
                decreases H - row,
            {
                if self.rows[row] & (1u64 << (col as u64)) != 0 {
                    found = true;
                    break;
                }
                row = row + 1;
            }
            proof {
                self.lemma_height_skip(col as int, 0, row as int);
            }
            if found {
                heights[col] = (H - row) as u8;
            } else {
                heights[col] = 0;
            }
            col = col + 1;
        }
        heights
    }

    /// The number of holes: empty cells with an occupied cell somewhere
    /// above them in the same column.
    pub fn holes(&self) -> (r: u32)
        requires
            dims_ok(W, H),
        ensures
            r == self.holes_upto(W as int),
    {
        let mut holes: u32 = 0;
        let mut col: usize = 0;
        while col < W
            invariant
                col <= W,
                dims_ok(W, H),
                holes == self.holes_upto(col as int),
                holes <= col * 64,
            decreases W - col,
        {
            let mut seen_block = false;
            let mut row: usize = 0;
            while row < H
                invariant
                    row <= H,
                    col < W,
                    dims_ok(W, H),
                    seen_block == exists|r: int| 0 <= r < row && #[trigger] self.cell(r, col as int),
                    holes == self.holes_upto(col as int) + self.col_holes(col as int, row as int),
                    holes <= col * 64 + row,
                decreases H - row,
            {
                if self.rows[row] & (1u64 << (col as u64)) != 0 {
                    assert(self.cell(row as int, col as int));
                    seen_block = true;
                } else {
                    assert(!self.cell(row as int, col as int));
                    if seen_block {
                        holes = holes + 1;
                    }
                }
                row = row + 1;
            }
            col = col + 1;
        }
        holes
    }

    /// For every hole, the number of occupied cells above it in its column,
    /// summed over the board.
    pub fn covered_holes(&self) -> (r: u32)
        requires
            dims_ok(W, H),
        ensures
            r == self.covered_upto(W as int),
    {
        let mut covered: u32 = 0;
        let mut col: usize = 0;
        while col < W
            invariant
                col <= W,
                dims_ok(W, H),
                covered == self.covered_upto(col as int),
                covered <= col * 4096,
            decreases W - col,
        {
            let mut filled_above: u32 = 0;
            let mut row: usize = 0;
            while row < H
                invariant
                    row <= H,
                    col < W,
                    dims_ok(W, H),
                    filled_above == self.filled_count(col as int, row as int),
                    filled_above <= row,
                    covered == self.covered_upto(col as int) + self.col_covered(col as int, row as int),
                    covered <= col * 4096 + row * 64,
                decreases H - row,
            {
                if self.rows[row] & (1u64 << (col as u64)) != 0 {
                    filled_above = filled_above + 1;
                } else if filled_above > 0 {
                    covered = covered + filled_above;
                }
                row = row + 1;
            }
            col = col + 1;
        }
        covered
    }

    /// Sum of the heights of the first `n` columns.
    pub open spec fn heights_sum(self, n: int) -> int
        decreases n,
    {
        if n <= 0 {
            0
        } else {
            self.heights_sum(n - 1) + self.col_height(n - 1)
        }
    }

    /// Sum of `|height(c) - height(c + 1)|` for `c < n`.
    pub open spec fn bumpiness_upto(self, n: int) -> int
        decreases n,
    {
        if n <= 0 {
            0
        } else {
            let d = self.col_height(n - 1) - self.col_height(n);
            self.bumpiness_upto(n - 1) + if d >= 0 {
                d
            } else {
                -d
            }
        }
    }

    /// The height beside a column: the column's own height, or `H` for the
    /// walls left of column 0 and right of the last column.
    pub open spec fn side_height(self, c: int) -> int {
        if c < 0 || c >= W {
            H as int
        } else {
            self.col_height(c)
        }
    }

    /// How far column `c` lies below the lower of its two neighbours.
    pub open spec fn well_depth(self, c: int) -> int {
        let left = self.side_height(c - 1);
        let right = self.side_height(c + 1);
        let rim = if left <= right {
            left
        } else {
            right
        };
        if rim > self.col_height(c) {
            rim - self.col_height(c)
        } else {
            0
        }
    }

    /// Sum of the well depths of the first `n` columns.
    pub open spec fn wells_upto(self, n: int) -> int
        decreases n,
    {
        if n <= 0 {
            0
        } else {
            self.wells_upto(n - 1) + self.well_depth(n - 1)
        }
    }

    proof fn lemma_heights_bounded(self)
        requires
            dims_ok(W, H),
        ensures
            forall|c: int| #![trigger self.col_height(c)] 0 <= self.col_height(c) <= H,
    {
        assert forall|c: int| #![trigger self.col_height(c)] 0 <= self.col_height(c) <= H by {
            self.lemma_height_bound(c, 0);
        }
    }

    /// Sum of all column heights.
    pub fn aggregate_height(&self) -> (r: u32)
        requires
            dims_ok(W, H),
        ensures
            r == self.heights_sum(W as int),
    {
        let heights = self.column_heights();
        proof {
            self.lemma_heights_bounded();
        }
        let mut sum: u32 = 0;
        let mut c: usize = 0;
        while c < W
            invariant
                c <= W,
                dims_ok(W, H),
                forall|i: int| 0 <= i < W ==> #[trigger] heights[i] == self.col_height(i),
                forall|i: int| #![trigger self.col_height(i)] 0 <= self.col_height(i) <= H,
                sum == self.heights_sum(c as int),
                sum <= c * 64,
            decreases W - c,
        {
            sum = sum + heights[c] as u32;
            c = c + 1;
        }
        sum
    }

    /// Sum of the height differences between neighbouring columns.
    pub fn bumpiness(&self) -> (r: u32)
        requires
            dims_ok(W, H),
        ensures
            r == self.bumpiness_upto(W - 1),
    {
        let heights = self.column_heights();
        proof {
            self.lemma_heights_bounded();
        }
        let mut sum: u32 = 0;
        let mut c: usize = 0;
        while c + 1 < W
            invariant
                c + 1 <= W,
                dims_ok(W, H),
                forall|i: int| 0 <= i < W ==> #[trigger] heights[i] == self.col_height(i),
                forall|i: int| #![trigger self.col_height(i)] 0 <= self.col_height(i) <= H,
                sum == self.bumpiness_upto(c as int),
                sum <= c * 64,
            decreases W - c,
        {
            let a = heights[c];
            let b = heights[c + 1];
            let d = if a >= b {
                a - b
            } else {
                b - a
            };
            sum = sum + d as u32;
            c = c + 1;
        }
        sum
    }

    /// Sum over the columns of how far each lies below the lower of its two
    /// neighbours (the walls counting as full height).
    pub fn wells(&self) -> (r: u32)
        requires
            dims_ok(W, H),
        ensures
            r == self.wells_upto(W as int),
    {
        let heights = self.column_heights();
        proof {
            self.lemma_heights_bounded();
        }
        let mut wells: u32 = 0;
        let mut col: usize = 0;
        while col < W
            invariant
                col <= W,
                dims_ok(W, H),
                forall|i: int| 0 <= i < W ==> #[trigger] heights[i] == self.col_height(i),
                forall|i: int| #![trigger self.col_height(i)] 0 <= self.col_height(i) <= H,
                wells == self.wells_upto(col as int),
                wells <= col * 64,
            decreases W - col,
        {
            let left = if col == 0 {
                H as u8
            } else {
                heights[col - 1]
            };
            let right = if col + 1 == W {
                H as u8
            } else {
                heights[col + 1]
            };
            let rim = if left <= right {
                left
            } else {
                right
            };
            if rim > heights[col] {
                wells = wells + (rim - heights[col]) as u32;
            }
            col = col + 1;
        }
        wells
    }

    /// Cell changes along the first `n` columns of a row, the wall left of
    /// column 0 counting as occupied.
    pub open spec fn transitions_in(row: u64, n: int) -> int
        decreases n,
    {
        if n <= 0 {
            0
        } else {
            let prev = n - 1 == 0 || filled(row, n - 2);
            Self::transitions_in(row, n - 1) + if filled(row, n - 1) != prev {
                1int
            } else {
                0int
            }
        }
    }

    /// Cell changes across a whole row, both walls counting as occupied;
    /// an empty row counts 0.
    pub open spec fn row_transition_count(row: u64) -> int {
        if row == 0 {
            0
        } else {
            Self::transitions_in(row, W as int) + if !filled(row, W - 1) {
                1int
            } else {
                0int
            }
        }
    }

    /// `row_transition_count` summed over the first `n` rows.
    pub open spec fn transitions_upto(self, n: int) -> int
        decreases n,
    {
        if n <= 0 {
            0
        } else {
            self.transitions_upto(n - 1) + Self::row_transition_count(self.rows[n - 1])
        }
    }

    /// Number of occupied/empty changes along every non-empty row, the walls
    /// counting as occupied.
    pub fn row_transitions(&self) -> (r: u32)
        requires
            dims_ok(W, H),
        ensures
            r == self.transitions_upto(H as int),
    {
        let mut transitions: u32 = 0;
        let mut y: usize = 0;
        while y < H
            invariant
                y <= H,
                dims_ok(W, H),
                transitions == self.transitions_upto(y as int),
                transitions <= y * 64,
            decreases H - y,
        {
            let row = self.rows[y];
            if row != 0 {
                let mut previous_filled = true;
                let mut col: usize = 0;
                let mut t: u32 = 0;
                while col < W
                    invariant
                        col <= W,
                        dims_ok(W, H),
                        previous_filled == (col == 0 || filled(row, col - 1)),
                        t == Self::transitions_in(row, col as int),
                        t <= col,
                    decreases W - col,
                {
                    let filled_now = row & (1u64 << (col as u64)) != 0;
                    if filled_now != previous_filled {
                        t = t + 1;
                    }
                    previous_filled = filled_now;
                    col = col + 1;
                }
                if !previous_filled {
                    t = t + 1;
                }
                transitions = transitions + t;
            }
            y = y + 1;
        }
        transitions
    }

    /// The rows from index `from` down to the bottom that are not full, in
    /// order.
    pub open spec fn kept_from(self, from: int) -> Seq<u64> {
        kept_rows(self.rows@, Self::full_bits(), from)
    }

    /// The number of full rows from index `from` down to the bottom.
    pub open spec fn full_count_from(self, from: int) -> int {
        full_rows_from(self.rows@, Self::full_bits(), from)
    }

    /// The board after a line clear: the rows that were not full, in their
    /// order, moved down to the bottom, with empty rows above them.
    pub open spec fn cleared_rows(self) -> Seq<u64> {
        rows_after_clear(self.rows@, Self::full_bits())
    }

    proof fn lemma_kept_len(self, from: int)
        requires
            0 <= from <= H,
        ensures
            self.kept_from(from).len() + self.full_count_from(from) == H - from,
    {
        lemma_kept_rows_len(self.rows@, Self::full_bits(), from);
    }

    proof fn lemma_kept_not_full(self, from: int)
        requires
            0 <= from <= H,
        ensures
            forall|i: int|
                0 <= i < self.kept_from(from).len() ==> #[trigger] self.kept_from(from)[i]
                    != Self::full_bits(),
    {
        lemma_kept_rows_not_full(self.rows@, Self::full_bits(), from);
    }

    /// Removes every full row: the other rows keep their order and move
    /// down to the bottom, and empty rows fill the top. Bit `y` of the
    /// result's mask is set exactly for the rows `y` that were full, and the
    /// count is their number.
    pub fn clear_lines(&mut self) -> (res: ClearResult)
        requires
            dims_ok(W, H),
        ensures
            final(self).rows@ == old(self).cleared_rows(),
            res.count == old(self).full_count_from(0),
            res.mask == clear_mask(old(self).rows@, Self::full_bits(), 0),
            forall|y: int| 0 <= y < H ==> #[trigger] filled(res.mask, y) == (old(self).rows[y]
                == Self::full_bits()),
            forall|y: int| H <= y < 64 ==> !#[trigger] filled(res.mask, y),
    {
        let ghost old_self = *self;
        let full = Self::full_mask();
        let mut write: usize = H;
        let mut cleared: u8 = 0;
        let mut mask: u64 = 0;
        let mut read: usize = H;
        proof {
            assert forall|y: int| 0 <= y < 64 implies !#[trigger] filled(mask, y) by {
                lemma_bit_ops(0, 0, y as u64);
            }
        }
        while read > 0
            invariant
                dims_ok(W, H),
                full == Self::full_bits(),
                read <= write <= H,
                write == H - old_self.kept_from(read as int).len(),
                cleared == old_self.full_count_from(read as int),
                mask == clear_mask(old_self.rows@, Self::full_bits(), read as int),
                forall|i: int| 0 <= i < read ==> #[trigger] self.rows[i] == old_self.rows[i],
                forall|i: int|
                    write <= i < H ==> #[trigger] self.rows[i] == old_self.kept_from(read as int)[i
                        - write],
                forall|y: int|
                    0 <= y < 64 ==> #[trigger] filled(mask, y) == (read <= y < H
                        && old_self.rows[y] == Self::full_bits()),
            decreases read,
        {
            proof {
                old_self.lemma_kept_len(read as int);
            }
            read = read - 1;
            let ghost mask0 = mask;
            if self.rows[read] == full {
                cleared = cleared + 1;
                mask = mask | (1u64 << (read as u64));
                assert forall|y: int| 0 <= y < 64 implies #[trigger] filled(mask, y) == (read <= y
                    < H && old_self.rows[y] == Self::full_bits()) by {
                    lemma_bit_ops(mask0, 1u64 << (read as u64), y as u64);
                    if y != read {
                        assert(filled(1u64 << (read as u64), y) == false) by {
                            lemma_shift_single(read as u64, y as u64);
                        }
                    } else {
                        lemma_bit_ops(0, 0, read as u64);
                    }
                }
            } else {
                write = write - 1;
                let v = self.rows[read];
                self.rows[write] = v;
                proof {
                    let k = old_self.kept_from(read + 1);
                    assert(old_self.kept_from(read as int) == seq![v] + k);
                }
            }
        }
        proof {
            old_self.lemma_kept_len(0);
        }
        let mut y: usize = 0;
        while y < write
            invariant
                y <= write <= H,
                write == H - old_self.kept_from(0).len(),
                forall|i: int| 0 <= i < y ==> #[trigger] self.rows[i] == 0,
                forall|i: int|
                    write <= i < H ==> #[trigger] self.rows[i] == old_self.kept_from(0)[i - write],
            decreases write - y,
        {
            self.rows[y] = 0;
            y = y + 1;
        }
        assert(self.rows@ =~= old_self.cleared_rows());
        ClearResult { mask, count: cleared }
    }

    /// A garbage row: every cell occupied except the one in column `hole`.
    pub open spec fn garbage_row(hole: int) -> u64 {
        Self::full_bits() & !(1u64 << (hole as u64))
    }

    /// The board after `lines` garbage rows rise from the bottom: with
    /// `l = min(lines, H)` and the hole column clamped to the board, every
    /// row moves up by `l` (the top `l` rows are lost) and the bottom `l`
    /// rows become garbage rows.
    pub open spec fn garbage_inserted(self, lines: int, hole_x: int) -> Seq<u64> {
        let l = if lines < H {
            lines
        } else {
            H as int
        };
        let hole = if hole_x < W - 1 {
            hole_x
        } else {
            W - 1
        };
        Seq::new(H as nat, |y: int| if lines == 0 {
            self.rows[y]
        } else if y < H - l {
            self.rows[y + l]
        } else {
            Self::garbage_row(hole)
        })
    }

    /// Pushes `lines` garbage rows up from the bottom, each with its single
    /// empty cell in column `hole_x` (clamped to the board).
    pub fn insert_garbage(&mut self, lines: u8, hole_x: u8)
        requires
            dims_ok(W, H),
        ensures
            final(self).rows@ == old(self).garbage_inserted(lines as int, hole_x as int),
    {
        let ghost old_self = *self;
        if lines == 0 {
            assert(self.rows@ =~= old_self.garbage_inserted(lines as int, hole_x as int));
            return;
        }
        let hole_x: usize = if (hole_x as usize) < W - 1 {
            hole_x as usize
        } else {
            W - 1
        };
        let l: usize = if (lines as usize) < H {
            lines as usize
        } else {
            H
        };
        let mut y: usize = 0;
        while y < H - l
            invariant
                dims_ok(W, H),
                1 <= l <= H,
                y <= H - l,
                forall|i: int| 0 <= i < y ==> #[trigger] self.rows[i] == old_self.rows[i + l],
                forall|i: int| y <= i < H ==> #[trigger] self.rows[i] == old_self.rows[i],
            decreases H - l - y,
        {
            self.rows[y] = self.rows[y + l];
            y = y + 1;
        }
        let garbage = Self::full_mask() & !(1u64 << (hole_x as u64));
        let mut y: usize = H - l;
        while y < H
            invariant
                dims_ok(W, H),
                1 <= l <= H,
                H - l <= y <= H,
                garbage == Self::garbage_row(hole_x as int),
                forall|i: int| 0 <= i < H - l ==> #[trigger] self.rows[i] == old_self.rows[i + l],
                forall|i: int| H - l <= i < y ==> #[trigger] self.rows[i] == garbage,
            decreases H - y,
        {
            self.rows[y] = garbage;
            y = y + 1;
        }
        assert(self.rows@ =~= old_self.garbage_inserted(lines as int, hole_x as int));
    }
}

/// After a line clear no row is full: the kept rows were not full, and an
/// empty row is not full on a board at least one column wide.
pub proof fn lemma_cleared_rows_not_full<const W: usize, const H: usize>(b: Board<W, H>)
    requires
        dims_ok(W, H),
    ensures
        forall|y: int|
            0 <= y < H ==> #[trigger] b.cleared_rows()[y] != Board::<W, H>::full_bits(),
{
    b.lemma_kept_not_full(0);
    b.lemma_kept_len(0);
    lemma_low_mask(W as u64, 0);
    lemma_bit_ops(0, 0, 0);
    let kept = b.kept_from(0);
    assert forall|y: int| 0 <= y < H implies #[trigger] b.cleared_rows()[y]
        != Board::<W, H>::full_bits() by {
        if y >= H - kept.len() {
            assert(b.cleared_rows()[y] == kept[y - (H - kept.len())]);
        }
    }
}

/// Rows none of which is full are all kept, and none is counted.
proof fn lemma_no_full_rows_kept(rows: Seq<u64>, full: u64, from: int)
    requires
        0 <= from <= rows.len(),
        forall|i: int| from <= i < rows.len() ==> #[trigger] rows[i] != full,
    ensures
        kept_rows(rows, full, from) == rows.subrange(from, rows.len() as int),
        full_rows_from(rows, full, from) == 0,
        clear_mask(rows, full, from) == 0,
    decreases rows.len() - from,
{
    if from < rows.len() {
        lemma_no_full_rows_kept(rows, full, from + 1);
        assert(kept_rows(rows, full, from) =~= rows.subrange(from, rows.len() as int));
    } else {
        assert(kept_rows(rows, full, from) =~= rows.subrange(from, rows.len() as int));
    }
}

/// A second line clear finds nothing: it counts no row, sets no bit of
/// the mask and keeps every row where the first clear left it.
pub proof fn lemma_clear_twice<const W: usize, const H: usize>(b: Board<W, H>, c: Board<W, H>)
    requires
        dims_ok(W, H),
        c.rows@ == b.cleared_rows(),
    ensures
        c.full_count_from(0) == 0,
        clear_mask(c.rows@, Board::<W, H>::full_bits(), 0) == 0,
        c.cleared_rows() == c.rows@,
        forall|y: int| 0 <= y < H ==> !(#[trigger] c.rows[y] == Board::<W, H>::full_bits()),
{
    lemma_cleared_rows_not_full(b);
    let full = Board::<W, H>::full_bits();
    assert forall|i: int| 0 <= i < c.rows@.len() implies #[trigger] c.rows@[i] != full by {
        assert(b.cleared_rows()[i] != full);
    }
    lemma_no_full_rows_kept(c.rows@, full, 0);
    assert(c.rows@.subrange(0, c.rows@.len() as int) =~= c.rows@);
    assert(c.cleared_rows() =~= c.rows@);
}

/// A single set bit at `r` is not set at any other position.
pub proof fn lemma_shift_single(r: u64, y: u64)
    requires
        r < 64,
        y < 64,
        r != y,
    ensures
        !filled(1u64 << r, y as int),
{
    assert((1u64 << r) & (1u64 << y) == 0) by (bit_vector)
        requires
            r < 64,
            y < 64,
            r != y,
    ;
}


/// A garbage row fills every column of the board but its hole, and
/// nothing beyond the board's width.
pub proof fn lemma_garbage_row_cells<const W: usize, const H: usize>(hole: int, col: int)
    requires
        dims_ok(W, H),
        0 <= hole < W,
        0 <= col < 64,
    ensures
        filled(Board::<W, H>::garbage_row(hole), col) == (col < W && col != hole),
{
    let full = Board::<W, H>::full_bits();
    lemma_low_mask(W as u64, col as u64);
    lemma_bit_ops(full, 1u64 << (hole as u64), col as u64);
    if col != hole {
        lemma_shift_single(hole as u64, col as u64);
    }
}

} // verus!
