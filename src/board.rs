use vstd::prelude::*;

use crate::config::{BOARD_HEIGHT, BOARD_WIDTH};
use crate::piece::{footprint, int_pairs, lemma_footprint_has_cell, lemma_footprint_rows, shape_ok, Tetromino};

verus! {

/// One filled cell of the playfield.
#[derive(Clone, Copy, Debug, PartialEq, Eq, Structural)]
pub struct Block {
    pub filled: bool,
}

/// The block that committing a piece writes.
pub open spec fn solid() -> Option<Block> {
    Some(Block { filled: true })
}

/// A row with no cell filled.
pub open spec fn empty_row() -> Seq<Option<Block>> {
    Seq::new(BOARD_WIDTH as nat, |x: int| None)
}

/// The playfield with no cell filled.
pub open spec fn empty_grid() -> Seq<Seq<Option<Block>>> {
    Seq::new(BOARD_HEIGHT as nat, |y: int| empty_row())
}

/// The grid has the board's fixed dimensions.
pub open spec fn dims_ok(g: Seq<Seq<Option<Block>>>) -> bool {
    &&& g.len() == BOARD_HEIGHT
    &&& forall|y: int| 0 <= y < g.len() ==> #[trigger] g[y].len() == BOARD_WIDTH
}

/// A piece may cover cell `c` = (column, row): the column is on the board, the
/// row is not below it, and a cell on the board is empty. Rows above the top
/// (negative) are open space, so a piece can spawn partly above the board.
pub open spec fn cell_free(g: Seq<Seq<Option<Block>>>, c: (int, int)) -> bool {
    &&& 0 <= c.0 < BOARD_WIDTH
    &&& c.1 < BOARD_HEIGHT
    &&& (c.1 >= 0 ==> g[c.1][c.0].is_none())
}

/// A shape with its top-left corner at (`x`, `y`) is a legal placement.
pub open spec fn fits_on(g: Seq<Seq<Option<Block>>>, s: Seq<Seq<bool>>, x: int, y: int) -> bool {
    forall|k: int| 0 <= k < footprint(s, x, y).len() ==> cell_free(g, #[trigger] footprint(s, x, y)[k])
}

/// The grid after filling each listed cell that lies on the board; cells off
/// the board (above the top in particular) are dropped.
pub open spec fn placed(g: Seq<Seq<Option<Block>>>, cells: Seq<(int, int)>) -> Seq<Seq<Option<Block>>> {
    Seq::new(
        g.len(),
        |y: int| Seq::new(g[y].len(), |x: int| if cells.contains((x, y)) { solid() } else { g[y][x] }),
    )
}

/// Every cell of the row is filled.
pub open spec fn full(row: Seq<Option<Block>>) -> bool {
    forall|x: int| 0 <= x < row.len() ==> (#[trigger] row[x]).is_some()
}

/// How many rows of the grid are full.
pub open spec fn count_full(g: Seq<Seq<Option<Block>>>) -> nat
    decreases g.len(),
{
    if g.len() == 0 {
        0
    } else {
        count_full(g.drop_last()) + if full(g.last()) { 1nat } else { 0nat }
    }
}

/// The rows that are not full, in their order.
pub open spec fn kept_rows(g: Seq<Seq<Option<Block>>>) -> Seq<Seq<Option<Block>>>
    decreases g.len(),
{
    if g.len() == 0 {
        seq![]
    } else if full(g.last()) {
        kept_rows(g.drop_last())
    } else {
        kept_rows(g.drop_last()).push(g.last())
    }
}

/// The grid once its full rows are removed and as many empty rows are added
/// on top.
pub open spec fn cleared(g: Seq<Seq<Option<Block>>>) -> Seq<Seq<Option<Block>>> {
    Seq::new(count_full(g), |i: int| empty_row()) + kept_rows(g)
}

/// There are as many rows kept as rows not full.
pub proof fn lemma_kept_len(g: Seq<Seq<Option<Block>>>)
    ensures
        kept_rows(g).len() + count_full(g) == g.len(),
    decreases g.len(),
{
    if g.len() > 0 {
        lemma_kept_len(g.drop_last());
    }
}

/// Kept rows are rows of the grid, so they keep its width.
pub proof fn lemma_kept_width(g: Seq<Seq<Option<Block>>>)
    requires
        forall|y: int| 0 <= y < g.len() ==> #[trigger] g[y].len() == BOARD_WIDTH,
    ensures
        forall|y: int| 0 <= y < kept_rows(g).len() ==> #[trigger] kept_rows(g)[y].len() == BOARD_WIDTH,
    decreases g.len(),
{
    if g.len() > 0 {
        let h = g.drop_last();
        assert forall|y: int| 0 <= y < h.len() implies #[trigger] h[y].len() == BOARD_WIDTH by {
            assert(h[y] == g[y]);
        }
        lemma_kept_width(h);
        assert(g.last().len() == BOARD_WIDTH);
        let k = kept_rows(g);
        assert forall|y: int| 0 <= y < k.len() implies #[trigger] k[y].len() == BOARD_WIDTH by {
            if y < kept_rows(h).len() {
                assert(k[y] == kept_rows(h)[y]);
            }
        }
    }
}

/// The rows of a grid, each row viewed as a sequence.
pub open spec fn grid_view(g: Seq<Vec<Option<Block>>>) -> Seq<Seq<Option<Block>>> {
    g.map_values(|r: Vec<Option<Block>>| r@)
}

/// On a board of the fixed dimensions, a placement that has any occupied cell
/// left of the first column, right of the last, or below the bottom row is
/// illegal, whatever the board holds.
pub proof fn lemma_out_of_bounds_rejected(g: Seq<Seq<Option<Block>>>, s: Seq<Seq<bool>>, x: int, y: int, k: int)
    requires
        dims_ok(g),
        0 <= k < footprint(s, x, y).len(),
        footprint(s, x, y)[k].0 < 0 || footprint(s, x, y)[k].0 >= BOARD_WIDTH
            || footprint(s, x, y)[k].1 >= BOARD_HEIGHT,
    ensures
        !fits_on(g, s, x, y),
{
    assert(!cell_free(g, footprint(s, x, y)[k]));
}

/// A legal placement of a shape with a filled cell has its origin above the
/// bottom row and less than the piece's span left of the first column.
pub proof fn lemma_fits_bounds(g: Seq<Seq<Option<Block>>>, s: Seq<Seq<bool>>, x: int, y: int)
    requires
        shape_ok(s),
        fits_on(g, s, x, y),
    ensures
        y < BOARD_HEIGHT,
        -4 < x < BOARD_WIDTH,
{
    let (i, j) = choose|i: int, j: int| 0 <= i < s.len() && 0 <= j < s[i].len() && #[trigger] s[i][j];
    lemma_footprint_has_cell(s, x, y, i, j);
    let f = footprint(s, x, y);
    let k = choose|k: int| 0 <= k < f.len() && #[trigger] f[k] == (x + j, y + i);
    assert(cell_free(g, f[k]));
    assert(s[i].len() == s[0].len());
}

/// Whether a shape that lies wholly above the top row fits does not depend on
/// what the board holds.
pub proof fn lemma_fits_above_board(g: Seq<Seq<Option<Block>>>, h: Seq<Seq<Option<Block>>>, s: Seq<Seq<bool>>, x: int, y: int)
    requires
        y + s.len() <= 0,
        fits_on(g, s, x, y),
    ensures
        fits_on(h, s, x, y),
{
    lemma_footprint_rows(s, x, y);
    let f = footprint(s, x, y);
    assert forall|k: int| 0 <= k < f.len() implies cell_free(h, #[trigger] f[k]) by {
        assert(cell_free(g, f[k]));
    }
}

/// The content of cell (`x`, `y`); nothing off the board.
pub open spec fn block_at(g: Seq<Seq<Option<Block>>>, x: int, y: int) -> Option<Block> {
    if 0 <= x < BOARD_WIDTH && 0 <= y < BOARD_HEIGHT {
        g[y][x]
    } else {
        None
    }
}

/// A prefix one longer holds what the shorter one holds and the next element.
pub proof fn lemma_prefix_contains<A>(s: Seq<A>, k: int)
    requires
        0 <= k < s.len(),
    ensures
        forall|q: A| #[trigger] s.take(k + 1).contains(q) == (s.take(k).contains(q) || s[k] == q),
{
    assert forall|q: A| #[trigger] s.take(k + 1).contains(q) == (s.take(k).contains(q) || s[k] == q) by {
        if s.take(k + 1).contains(q) {
            let i = choose|i: int| 0 <= i < k + 1 && #[trigger] s.take(k + 1)[i] == q;
            if i < k {
                assert(s.take(k)[i] == q);
            }
        }
        if s.take(k).contains(q) {
            let i = choose|i: int| 0 <= i < k && #[trigger] s.take(k)[i] == q;
            assert(s.take(k + 1)[i] == q);
        }
        if s[k] == q {
            assert(s.take(k + 1)[k] == q);
        }
    }
}

/// The playfield: a fixed grid of cells, row 0 at the top.
pub struct Board {
    grid: Vec<Vec<Option<Block>>>,
}

/// An empty row of the board's width.
fn new_row() -> (r: Vec<Option<Block>>)
    ensures
        r@ == empty_row(),
{
    let mut r: Vec<Option<Block>> = Vec::new();
    let mut x: usize = 0;
    while x < BOARD_WIDTH as usize
        invariant
            x <= BOARD_WIDTH,
            r@ == Seq::new(x as nat, |i: int| None::<Block>),
        decreases BOARD_WIDTH - x,
    {
        r.push(None);
        x += 1;
        assert(r@ =~= Seq::new(x as nat, |i: int| None::<Block>));
    }
    r
}

/// A copy of a row.
fn copy_row(row: &Vec<Option<Block>>) -> (r: Vec<Option<Block>>)
    ensures
        r@ == row@,
{
    let mut r: Vec<Option<Block>> = Vec::new();
    let mut x: usize = 0;
    while x < row.len()
        invariant
            x <= row.len(),
            r@ == row@.take(x as int),
        decreases row.len() - x,
    {
        r.push(row[x]);
        x += 1;
        assert(r@ =~= row@.take(x as int));
    }
    assert(r@ =~= row@);
    r
}

/// An empty grid of the board's dimensions.
fn new_grid() -> (g: Vec<Vec<Option<Block>>>)
    ensures
        grid_view(g@) == empty_grid(),
{
    let mut g: Vec<Vec<Option<Block>>> = Vec::new();
    let mut y: usize = 0;
    while y < BOARD_HEIGHT as usize
        invariant
            y <= BOARD_HEIGHT,
            grid_view(g@) == Seq::new(y as nat, |i: int| empty_row()),
        decreases BOARD_HEIGHT - y,
    {
        let row = new_row();
        let ghost prev = g@;
        g.push(row);
        assert(grid_view(g@) =~= grid_view(prev).push(empty_row()));
        y += 1;
        assert(grid_view(g@) =~= Seq::new(y as nat, |i: int| empty_row()));
    }
    g
}

impl Board {
    /// The cells, row by row.
    pub closed spec fn rows(&self) -> Seq<Seq<Option<Block>>> {
        grid_view(self.grid@)
    }

    /// The grid keeps the board's dimensions.
    pub open spec fn wf(&self) -> bool {
        dims_ok(self.rows())
    }

    /// An empty board.
    pub fn new() -> (r: Board)
        ensures
            r.rows() == empty_grid(),
            r.wf(),
    {
        Board { grid: new_grid() }
    }
    /// Whether `piece` may stand where it is: every occupied cell is within
    /// the columns, not below the bottom row, and on an empty cell when it is
    /// on the board at all.
    pub fn is_valid_position(&self, piece: &Tetromino) -> (r: bool)
        requires
            self.wf(),
            piece.wf(),
        ensures
            r == fits_on(self.rows(), piece.cells(), piece.x as int, piece.y as int),
    {
        let blocks = piece.get_blocks();
        let ghost cells = int_pairs(blocks@);
        let mut k: usize = 0;
        while k < blocks.len()
            invariant
                self.wf(),
                cells == int_pairs(blocks@),
                cells == footprint(piece.cells(), piece.x as int, piece.y as int),
                k <= blocks.len(),
                forall|i: int| 0 <= i < k ==> cell_free(self.rows(), #[trigger] cells[i]),
            decreases blocks.len() - k,
        {
            let (x, y) = blocks[k];
            assert(cells[k as int] == (x as int, y as int));
            if x < 0 || x >= BOARD_WIDTH || y >= BOARD_HEIGHT {
                return false;
            }
            if y >= 0 {
                assert(self.rows()[y as int].len() == BOARD_WIDTH);
            }
            if y >= 0 && self.grid[y as usize][x as usize].is_some() {
                return false;
            }
            k += 1;
        }
        true
    }

    /// Fills every cell that `piece` covers on the board. Cells above the top
    /// row are dropped on purpose, not written: a piece that locks while it
    /// still overlaps the spawn rows ends the game, and the caller detects
    /// that from the piece's position.
    pub fn place_piece(&mut self, piece: &Tetromino)
        requires
            old(self).wf(),
            piece.wf(),
        ensures
            final(self).rows() == placed(old(self).rows(), piece.occupied()),
            final(self).wf(),
    {
        let ghost g0 = self.rows();
        let blocks = piece.get_blocks();
        let ghost cells = int_pairs(blocks@);
        let mut k: usize = 0;
        assert(placed(g0, cells.take(0)) =~= g0) by {
            assert forall|r: int| 0 <= r < g0.len() implies #[trigger] placed(g0, cells.take(0))[r] =~= g0[r] by {}
        }
        while k < blocks.len()
            invariant
                dims_ok(g0),
                cells == int_pairs(blocks@),
                k <= blocks.len(),
                self.rows() == placed(g0, cells.take(k as int)),
                dims_ok(self.rows()),
            decreases blocks.len() - k,
        {
            let (x, y) = blocks[k];
            assert(cells[k as int] == (x as int, y as int));
            proof {
                lemma_prefix_contains(cells, k as int);
            }
            let ghost before = self.rows();
            if y >= 0 && y < BOARD_HEIGHT && x >= 0 && x < BOARD_WIDTH {
                assert(before[y as int].len() == BOARD_WIDTH);
                self.grid[y as usize][x as usize] = Some(Block { filled: true });
                assert(self.rows() =~= before.update(y as int, before[y as int].update(x as int, solid())));
            }
            assert forall|r: int| 0 <= r < BOARD_HEIGHT implies #[trigger] self.rows()[r]
                =~= placed(g0, cells.take(k + 1))[r] by {
                assert(before[r].len() == BOARD_WIDTH);
                assert(g0[r].len() == BOARD_WIDTH);
                assert forall|c: int| 0 <= c < BOARD_WIDTH implies self.rows()[r][c]
                    == placed(g0, cells.take(k + 1))[r][c] by {
                    assert(cells.take(k + 1).contains((c, r)) == (cells.take(k as int).contains((c, r))
                        || cells[k as int] == (c, r)));
                }
            }
            assert(self.rows() =~= placed(g0, cells.take(k + 1)));
            k += 1;
        }
        assert(cells.take(k as int) =~= cells);
    }
    /// Removes every full row at once, keeps the other rows in their order,
    /// and adds one empty row on top for each row removed. Returns how many
    /// rows were removed.
    pub fn clear_lines(&mut self) -> (r: u32)
        requires
            old(self).wf(),
        ensures
            final(self).rows() == cleared(old(self).rows()),
            r == count_full(old(self).rows()),
            final(self).wf(),
    {
        let ghost g0 = self.rows();
        let mut kept: Vec<Vec<Option<Block>>> = Vec::new();
        let mut count: u32 = 0;
        let mut y: usize = 0;
        while y < BOARD_HEIGHT as usize
            invariant
                g0 == self.rows(),
                dims_ok(g0),
                y <= BOARD_HEIGHT,
                count <= y,
                count == count_full(g0.take(y as int)),
                grid_view(kept@) == kept_rows(g0.take(y as int)),
            decreases BOARD_HEIGHT - y,
        {
            assert(g0.take(y + 1).drop_last() =~= g0.take(y as int));
            if self.is_line_full(y) {
                count += 1;
            } else {
                let row = copy_row(&self.grid[y]);
                let ghost prev = kept@;
                kept.push(row);
                assert(grid_view(kept@) =~= grid_view(prev).push(g0[y as int]));
            }
            y += 1;
        }
        assert(g0.take(y as int) =~= g0);
        let mut grid: Vec<Vec<Option<Block>>> = Vec::new();
        let mut i: u32 = 0;
        while i < count
            invariant
                i <= count,
                grid_view(grid@) == Seq::new(i as nat, |n: int| empty_row()),
            decreases count - i,
        {
            let ghost prev = grid@;
            grid.push(new_row());
            assert(grid_view(grid@) =~= grid_view(prev).push(empty_row()));
            i += 1;
            assert(grid_view(grid@) =~= Seq::new(i as nat, |n: int| empty_row()));
        }
        let ghost top = grid@;
        let ghost rest = kept@;
        grid.append(&mut kept);
        assert(grid_view(grid@) =~= grid_view(top) + grid_view(rest));
        self.grid = grid;
        proof {
            lemma_kept_len(g0);
            lemma_kept_width(g0);
            let g = self.rows();
            assert(g =~= cleared(g0));
            assert forall|r: int| 0 <= r < g.len() implies #[trigger] g[r].len() == BOARD_WIDTH by {
                if r >= count {
                    assert(g[r] == kept_rows(g0)[r - count]);
                }
            }
        }
        count
    }

    /// Whether every cell of row `y` is filled.
    fn is_line_full(&self, y: usize) -> (r: bool)
        requires
            self.wf(),
            y < BOARD_HEIGHT,
        ensures
            r == full(self.rows()[y as int]),
    {
        let ghost row = self.rows()[y as int];
        let mut x: usize = 0;
        while x < self.grid[y].len()
            invariant
                self.wf(),
                y < BOARD_HEIGHT,
                row == self.rows()[y as int],
                x <= row.len(),
                forall|i: int| 0 <= i < x ==> (#[trigger] row[i]).is_some(),
            decreases row.len() - x,
        {
            if self.grid[y][x].is_none() {
                return false;
            }
            x += 1;
        }
        true
    }

    /// The content of cell (`x`, `y`); `None` off the board.
    pub fn get_block(&self, x: i32, y: i32) -> (r: Option<Block>)
        requires
            self.wf(),
        ensures
            r == block_at(self.rows(), x as int, y as int),
    {
        if x >= 0 && x < BOARD_WIDTH && y >= 0 && y < BOARD_HEIGHT {
            assert(self.rows()[y as int].len() == BOARD_WIDTH);
            self.grid[y as usize][x as usize]
        } else {
            None
        }
    }

    /// Whether cell (`x`, `y`) is on the board and filled.
    pub fn has_block(&self, x: i32, y: i32) -> (r: bool)
        requires
            self.wf(),
        ensures
            r == block_at(self.rows(), x as int, y as int).is_some(),
    {
        self.get_block(x, y).is_some()
    }

    /// The cells, row by row.
    pub fn grid(&self) -> (r: &Vec<Vec<Option<Block>>>)
        ensures
            grid_view(r@) == self.rows(),
    {
        &self.grid
    }

    /// Empties every cell.
    pub fn clear(&mut self)
        ensures
            final(self).rows() == empty_grid(),
            final(self).wf(),
    {
        self.grid = new_grid();
    }
}


impl Default for Board {
    fn default() -> (r: Board)
        ensures
            r.rows() == empty_grid(),
            r.wf(),
    {
        Board::new()
    }
}

} // verus!
