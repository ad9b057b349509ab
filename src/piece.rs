use vstd::prelude::*;

use crate::config::BOARD_WIDTH;
use crate::types::{matrix_view, shape_of, TetrominoType};

verus! {

/// Column at which every piece spawns: centred on the board, less two.
pub open spec fn spawn_x() -> int {
    BOARD_WIDTH as int / 2 - 2
}

/// A shape is a non-empty rectangle of flags, at most four cells each way.
pub open spec fn rectangular(s: Seq<Seq<bool>>) -> bool {
    &&& 1 <= s.len() <= 4
    &&& 1 <= s[0].len() <= 4
    &&& forall|i: int| 0 <= i < s.len() ==> #[trigger] s[i].len() == s[0].len()
}

/// At least one cell of the shape is filled.
pub open spec fn has_filled(s: Seq<Seq<bool>>) -> bool {
    exists|i: int, j: int| 0 <= i < s.len() && 0 <= j < s[i].len() && #[trigger] s[i][j]
}

/// What a piece's shape must satisfy: a rectangle with at least one cell filled.
pub open spec fn shape_ok(s: Seq<Seq<bool>>) -> bool {
    rectangular(s) && has_filled(s)
}

/// The shape turned a quarter clockwise: `new[j][rows - 1 - i] == old[i][j]`.
pub open spec fn rotated(s: Seq<Seq<bool>>) -> Seq<Seq<bool>> {
    Seq::new(
        s[0].len(),
        |j: int| Seq::new(s.len(), |k: int| s[s.len() - 1 - k][j]),
    )
}

/// The shape turned half a turn.
pub open spec fn half_turned(s: Seq<Seq<bool>>) -> Seq<Seq<bool>> {
    Seq::new(
        s.len(),
        |a: int| Seq::new(s[0].len(), |b: int| s[s.len() - 1 - a][s[0].len() - 1 - b]),
    )
}

/// The filled cells of one shape row, as (column, row) pairs from left to right,
/// with the row's first cell at column `x` and the row itself at board row `y`.
pub open spec fn row_footprint(row: Seq<bool>, x: int, y: int) -> Seq<(int, int)>
    decreases row.len(),
{
    if row.len() == 0 {
        seq![]
    } else {
        let rest = row_footprint(row.drop_last(), x, y);
        if row.last() {
            rest.push((x + row.len() - 1, y))
        } else {
            rest
        }
    }
}

/// The filled cells of a shape whose top-left corner stands at (`x`, `y`),
/// as (column, row) pairs in row-major order.
pub open spec fn footprint(s: Seq<Seq<bool>>, x: int, y: int) -> Seq<(int, int)>
    decreases s.len(),
{
    if s.len() == 0 {
        seq![]
    } else {
        footprint(s.drop_last(), x, y) + row_footprint(s.last(), x, y + s.len() - 1)
    }
}

/// An origin from which every cell of a piece can be written in the
/// coordinate type.
pub open spec fn span_ok(x: int, y: int) -> bool {
    &&& i32::MIN < x
    &&& x + 4 <= i32::MAX
    &&& i32::MIN <= y
    &&& y + 4 <= i32::MAX
}

/// A quarter turn keeps a shape valid.
pub proof fn lemma_rotated_shape_ok(s: Seq<Seq<bool>>)
    requires
        shape_ok(s),
    ensures
        shape_ok(rotated(s)),
{
    let r = rotated(s);
    let (i, j) = choose|i: int, j: int| 0 <= i < s.len() && 0 <= j < s[i].len() && #[trigger] s[i][j];
    assert(r[j][s.len() - 1 - i] == s[i][j]);
}

/// Two quarter turns make a half turn.
pub proof fn lemma_rotated_twice(s: Seq<Seq<bool>>)
    requires
        rectangular(s),
    ensures
        rotated(rotated(s)) == half_turned(s),
{
    let r2 = rotated(rotated(s));
    let h = half_turned(s);
    assert forall|a: int| 0 <= a < h.len() implies #[trigger] r2[a] == h[a] by {
        assert(r2[a] =~= h[a]);
    }
    assert(r2 =~= h);
}

/// Four quarter turns give back the shape turned: rotation is a cyclic
/// group of order dividing four.
pub proof fn lemma_rotate_four_times(s: Seq<Seq<bool>>)
    requires
        rectangular(s),
    ensures
        rotated(rotated(rotated(rotated(s)))) == s,
{
    lemma_rotated_twice(s);
    let h = half_turned(s);
    assert(rectangular(h));
    lemma_rotated_twice(h);
    let hh = half_turned(h);
    assert forall|a: int| 0 <= a < s.len() implies #[trigger] hh[a] == s[a] by {
        assert(hh[a] =~= s[a]);
    }
    assert(hh =~= s);
}

/// A piece turned four times occupies exactly the cells it occupied before.
pub proof fn lemma_rotate_four_times_occupied(p: Tetromino, q: Tetromino)
    requires
        rectangular(p.cells()),
        q.cells() == rotated(rotated(rotated(rotated(p.cells())))),
        q.x == p.x,
        q.y == p.y,
    ensures
        q.occupied() == p.occupied(),
{
    lemma_rotate_four_times(p.cells());
}

/// A piece's footprint lists one cell for each filled entry of its shape.
pub proof fn lemma_footprint_has_cell(s: Seq<Seq<bool>>, x: int, y: int, i: int, j: int)
    requires
        0 <= i < s.len(),
        0 <= j < s[i].len(),
        s[i][j],
    ensures
        footprint(s, x, y).contains((x + j, y + i)),
    decreases s.len(),
{
    if i == s.len() - 1 {
        lemma_row_footprint_has_cell(s.last(), x, y + i, j);
        let rf = row_footprint(s.last(), x, y + i);
        let k = choose|k: int| 0 <= k < rf.len() && #[trigger] rf[k] == (x + j, y + i);
        let f = footprint(s, x, y);
        let pre = footprint(s.drop_last(), x, y);
        assert(f[pre.len() + k] == (x + j, y + i));
    } else {
        lemma_footprint_has_cell(s.drop_last(), x, y, i, j);
        let pre = footprint(s.drop_last(), x, y);
        let k = choose|k: int| 0 <= k < pre.len() && #[trigger] pre[k] == (x + j, y + i);
        assert(footprint(s, x, y)[k] == (x + j, y + i));
    }
}

/// Every cell of a row's footprint lies on that row.
pub proof fn lemma_row_footprint_row(row: Seq<bool>, x: int, y: int)
    ensures
        forall|k: int| 0 <= k < row_footprint(row, x, y).len() ==> (#[trigger] row_footprint(row, x, y)[k]).1 == y,
    decreases row.len(),
{
    if row.len() > 0 {
        lemma_row_footprint_row(row.drop_last(), x, y);
        let pre = row_footprint(row.drop_last(), x, y);
        let f = row_footprint(row, x, y);
        assert forall|k: int| 0 <= k < f.len() implies (#[trigger] f[k]).1 == y by {
            if k < pre.len() {
                assert(f[k] == pre[k]);
            }
        }
    }
}

/// Every cell of a footprint lies between the shape's top and bottom rows.
pub proof fn lemma_footprint_rows(s: Seq<Seq<bool>>, x: int, y: int)
    ensures
        forall|k: int| 0 <= k < footprint(s, x, y).len() ==> y <= (#[trigger] footprint(s, x, y)[k]).1 < y + s.len(),
    decreases s.len(),
{
    if s.len() > 0 {
        let pre = footprint(s.drop_last(), x, y);
        let last = row_footprint(s.last(), x, y + s.len() - 1);
        lemma_footprint_rows(s.drop_last(), x, y);
        lemma_row_footprint_row(s.last(), x, y + s.len() - 1);
        assert forall|k: int| 0 <= k < footprint(s, x, y).len() implies y <= (#[trigger] footprint(s, x, y)[k]).1 < y + s.len() by {
            if k < pre.len() {
                assert(footprint(s, x, y)[k] == pre[k]);
            } else {
                assert(footprint(s, x, y)[k] == last[k - pre.len()]);
            }
        }
    }
}

/// A row's footprint lists one cell for each filled entry of the row.
pub proof fn lemma_row_footprint_has_cell(row: Seq<bool>, x: int, y: int, j: int)
    requires
        0 <= j < row.len(),
        row[j],
    ensures
        row_footprint(row, x, y).contains((x + j, y)),
    decreases row.len(),
{
    if j == row.len() - 1 {
        let f = row_footprint(row, x, y);
        assert(f[f.len() - 1] == (x + j, y));
    } else {
        lemma_row_footprint_has_cell(row.drop_last(), x, y, j);
        let pre = row_footprint(row.drop_last(), x, y);
        let k = choose|k: int| 0 <= k < pre.len() && #[trigger] pre[k] == (x + j, y);
        if row.last() {
            assert(row_footprint(row, x, y)[k] == (x + j, y));
        }
    }
}

/// Widens a sequence of machine coordinates to mathematical integers.
pub open spec fn int_pairs(v: Seq<(i32, i32)>) -> Seq<(int, int)> {
    v.map_values(|p: (i32, i32)| (p.0 as int, p.1 as int))
}

/// A positioned, rotatable piece.
#[derive(Clone, Debug)]
pub struct Tetromino {
    pub shape: Vec<Vec<bool>>,
    pub piece_type: TetrominoType,
    pub x: i32,
    pub y: i32,
}

impl Tetromino {
    /// The shape matrix as a sequence of rows.
    pub open spec fn cells(&self) -> Seq<Seq<bool>> {
        matrix_view(self.shape@)
    }

    /// The shape is valid and the origin is in range.
    pub open spec fn wf(&self) -> bool {
        shape_ok(self.cells()) && span_ok(self.x as int, self.y as int)
    }

    /// The absolute (column, row) cells this piece occupies.
    pub open spec fn occupied(&self) -> Seq<(int, int)> {
        footprint(self.cells(), self.x as int, self.y as int)
    }

    /// Spawns a piece of the given identity at the spawn origin.
    pub fn new(piece_type: TetrominoType) -> (r: Tetromino)
        ensures
            r.cells() == shape_of(piece_type),
            r.piece_type == piece_type,
            r.x == spawn_x(),
            r.y == 0,
            r.wf(),
    {
        let r = Tetromino { shape: piece_type.get_shape(), piece_type, x: BOARD_WIDTH / 2 - 2, y: 0 };
        proof {
            let s = r.cells();
            match piece_type {
                TetrominoType::I => assert(s[0][0]),
                TetrominoType::O => assert(s[0][0]),
                TetrominoType::T => assert(s[1][0]),
                TetrominoType::S => assert(s[1][0]),
                TetrominoType::Z => assert(s[0][0]),
                TetrominoType::J => assert(s[0][0]),
                TetrominoType::L => assert(s[1][0]),
            }
        }
        r
    }
    /// An independent copy of this piece.
    pub fn duplicate(&self) -> (r: Tetromino)
        ensures
            r.cells() == self.cells(),
            r.piece_type == self.piece_type,
            r.x == self.x,
            r.y == self.y,
    {
        let mut shape: Vec<Vec<bool>> = Vec::new();
        let mut i: usize = 0;
        while i < self.shape.len()
            invariant
                i <= self.shape.len(),
                matrix_view(shape@) == self.cells().take(i as int),
            decreases self.shape.len() - i,
        {
            let mut row: Vec<bool> = Vec::new();
            let mut j: usize = 0;
            while j < self.shape[i].len()
                invariant
                    i < self.shape.len(),
                    j <= self.shape[i as int].len(),
                    row@ == self.shape[i as int]@.take(j as int),
                decreases self.shape[i as int].len() - j,
            {
                row.push(self.shape[i][j]);
                j += 1;
                assert(row@ =~= self.shape[i as int]@.take(j as int));
            }
            assert(row@ =~= self.shape[i as int]@);
            let ghost prev = shape@;
            shape.push(row);
            assert(matrix_view(shape@) =~= matrix_view(prev).push(self.cells()[i as int]));
            i += 1;
            assert(matrix_view(shape@) =~= self.cells().take(i as int));
        }
        assert(self.cells().take(i as int) =~= self.cells());
        Tetromino { shape, piece_type: self.piece_type, x: self.x, y: self.y }
    }

    /// Turns the shape a quarter clockwise about the same origin.
    pub fn rotate(&mut self)
        requires
            old(self).wf(),
        ensures
            final(self).cells() == rotated(old(self).cells()),
            final(self).piece_type == old(self).piece_type,
            final(self).x == old(self).x,
            final(self).y == old(self).y,
            final(self).wf(),
    {
        let ghost s = self.cells();
        let rows = self.shape.len();
        let cols = self.shape[0].len();
        let mut turned: Vec<Vec<bool>> = Vec::new();
        let mut j: usize = 0;
        while j < cols
            invariant
                s == self.cells(),
                rectangular(s),
                rows == s.len(),
                cols == s[0].len(),
                j <= cols,
                matrix_view(turned@) == rotated(s).take(j as int),
            decreases cols - j,
        {
            let mut row: Vec<bool> = Vec::new();
            let mut k: usize = 0;
            while k < rows
                invariant
                    s == self.cells(),
                    rectangular(s),
                    rows == s.len(),
                    cols == s[0].len(),
                    j < cols,
                    k <= rows,
                    row@ == rotated(s)[j as int].take(k as int),
                decreases rows - k,
            {
                assert(s[rows - 1 - k].len() == cols);
                row.push(self.shape[rows - 1 - k][j]);
                k += 1;
                assert(row@ =~= rotated(s)[j as int].take(k as int));
            }
            assert(row@ =~= rotated(s)[j as int]);
            let ghost prev = turned@;
            turned.push(row);
            assert(matrix_view(turned@) =~= matrix_view(prev).push(rotated(s)[j as int]));
            j += 1;
            assert(matrix_view(turned@) =~= rotated(s).take(j as int));
        }
        assert(rotated(s).take(j as int) =~= rotated(s));
        self.shape = turned;
        proof {
            lemma_rotated_shape_ok(s);
        }
    }

    /// The absolute (column, row) cells this piece occupies, row by row.
    pub fn get_blocks(&self) -> (r: Vec<(i32, i32)>)
        requires
            self.wf(),
        ensures
            int_pairs(r@) == self.occupied(),
    {
        let ghost s = self.cells();
        let mut blocks: Vec<(i32, i32)> = Vec::new();
        let mut row: usize = 0;
        while row < self.shape.len()
            invariant
                s == self.cells(),
                self.wf(),
                row <= s.len(),
                int_pairs(blocks@) == footprint(s.take(row as int), self.x as int, self.y as int),
            decreases s.len() - row,
        {
            let ghost before = blocks@;
            let mut col: usize = 0;
            while col < self.shape[row].len()
                invariant
                    s == self.cells(),
                    self.wf(),
                    row < s.len(),
                    col <= s[row as int].len(),
                    int_pairs(blocks@) == footprint(s.take(row as int), self.x as int, self.y as int)
                        + row_footprint(s[row as int].take(col as int), self.x as int, self.y + row),
                decreases s[row as int].len() - col,
            {
                assert(s[row as int].len() == s[0].len());
                assert(s[row as int].take(col + 1).drop_last() =~= s[row as int].take(col as int));
                let ghost prev = blocks@;
                let ghost part = s[row as int].take(col + 1);
                assert(part.last() == s[row as int][col as int]);
                if self.shape[row][col] {
                    blocks.push((self.x + col as i32, self.y + row as i32));
                    assert(int_pairs(blocks@) =~= int_pairs(prev).push((self.x + col, self.y + row)));
                }
                col += 1;
                assert(int_pairs(blocks@) =~= footprint(s.take(row as int), self.x as int, self.y as int)
                    + row_footprint(s[row as int].take(col as int), self.x as int, self.y + row));
            }
            assert(s[row as int].take(col as int) =~= s[row as int]);
            assert(s.take(row + 1).drop_last() =~= s.take(row as int));
            row += 1;
        }
        assert(s.take(row as int) =~= s);
        blocks
    }

    /// Shifts the origin by (`dx`, `dy`); legality is the board's concern.
    pub fn move_by(&mut self, dx: i32, dy: i32)
        requires
            i32::MIN <= old(self).x + dx <= i32::MAX,
            i32::MIN <= old(self).y + dy <= i32::MAX,
        ensures
            final(self).x == old(self).x + dx,
            final(self).y == old(self).y + dy,
            final(self).shape == old(self).shape,
            final(self).piece_type == old(self).piece_type,
    {
        self.x = self.x + dx;
        self.y = self.y + dy;
    }

    /// Puts the origin back at the spawn position.
    pub fn reset_position(&mut self)
        ensures
            final(self).x == spawn_x(),
            final(self).y == 0,
            final(self).shape == old(self).shape,
            final(self).piece_type == old(self).piece_type,
    {
        self.x = BOARD_WIDTH / 2 - 2;
        self.y = 0;
    }
}

} // verus!
