//! Scene data the game logic reads: model paths, the walkable cell grid,
//! and teleporter arming.

use vstd::prelude::*;
use vstd::string::*;

verus! {

/// A model path with any `#SceneN` sub-asset suffix dropped: the text
/// before the first `#`, or the whole path when it has none.
pub open spec fn model_file(path: Seq<char>) -> Seq<char>
    decreases path.len(),
{
    if path.len() == 0 {
        path
    } else if path[0] == '#' {
        Seq::empty()
    } else {
        seq![path[0]] + model_file(path.skip(1))
    }
}

proof fn lemma_model_file_prefix(path: Seq<char>, k: int)
    requires
        0 <= k <= path.len(),
        forall|j: int| 0 <= j < k ==> path[j] != '#',
        k == path.len() || path[k] == '#',
    ensures
        model_file(path) == path.take(k),
    decreases path.len(),
{
    if path.len() > 0 && k > 0 {
        lemma_model_file_prefix(path.skip(1), k - 1);
        assert(path.take(k) =~= seq![path[0]] + path.skip(1).take(k - 1));
    } else if path.len() > 0 {
        assert(path.take(k) =~= Seq::<char>::empty());
    } else {
        assert(path.take(k) =~= path);
    }
}

/// The model file of a path has no `#` left, and stripping it again
/// changes nothing.
pub proof fn lemma_model_file_is_clean(path: Seq<char>)
    ensures
        forall|i: int| 0 <= i < model_file(path).len() ==> model_file(path)[i] != '#',
        model_file(model_file(path)) == model_file(path),
        model_file(path).len() <= path.len(),
    decreases path.len(),
{
    if path.len() > 0 && path[0] != '#' {
        lemma_model_file_is_clean(path.skip(1));
        let rest = model_file(path.skip(1));
        let whole = seq![path[0]] + rest;
        assert(whole.skip(1) =~= rest);
        assert(whole[0] == path[0]);
    }
}

/// Strips a `#SceneN` sub-asset suffix from a model path: the model's
/// default scene is used regardless.
pub fn gltf_asset_path(path: &str) -> (r: String)
    ensures
        r@ == model_file(path@),
{
    let n = path.unicode_len();
    let mut k: usize = 0;
    while k < n && path.get_char(k) != '#'
        invariant
            n == path@.len(),
            k <= n,
            forall|j: int| 0 <= j < k ==> path@[j] != '#',
        decreases n - k,
    {
        k = k + 1;
    }
    proof {
        lemma_model_file_prefix(path@, k as int);
    }
    path.substring_char(0, k).to_owned()
}

/// The integer part of a walkable grid: `cols` × `rows` cells, row-major
/// walkable flags, +X along columns, +Z along rows. Where the grid sits
/// in the world (origin, cell size) belongs to the caller, which maps
/// world positions to floored column/row numbers.
pub struct CellGrid {
    pub cols: usize,
    pub rows: usize,
    pub cells: Vec<bool>,
}

/// Whether cell (col, row) is inside a `cols` × `rows` grid.
pub open spec fn in_grid(cols: int, rows: int, col: int, row: int) -> bool {
    0 <= col < cols && 0 <= row < rows
}

/// Whether cell (col, row) is walkable: inside the grid and flagged
/// walkable; a flag the cell list is too short to hold reads as blocked.
pub open spec fn cell_walkable(cols: int, rows: int, cells: Seq<bool>, col: int, row: int) -> bool {
    in_grid(cols, rows, col, row) && row * cols + col < cells.len() && cells[row * cols + col]
}

/// The cell list of a grid resized from `old_cols` × `old_rows` to
/// `new_cols` × `new_rows`: cells inside both grids keep their flag (a
/// missing flag reads as blocked), new cells are blocked.
pub open spec fn resized(
    cells: Seq<bool>,
    old_cols: int,
    old_rows: int,
    new_cols: int,
    new_rows: int,
) -> Seq<bool> {
    Seq::new(
        (new_cols * new_rows) as nat,
        |k: int|
            {
                let row = k / new_cols;
                let col = k % new_cols;
                col < old_cols && row < old_rows && row * old_cols + col < cells.len()
                    && cells[row * old_cols + col]
            },
    )
}

/// Whether every cell inside both grids has an old flat index that fits
/// a `usize`: the last such cell is at row `min(rows) - 1`, column
/// `min(cols) - 1` of the old grid.
pub open spec fn overlap_fits(old_cols: int, old_rows: int, new_cols: int, new_rows: int) -> bool {
    let rows = if old_rows < new_rows {
        old_rows
    } else {
        new_rows
    };
    let cols = if old_cols < new_cols {
        old_cols
    } else {
        new_cols
    };
    rows == 0 || cols == 0 || (rows - 1) * old_cols + (cols - 1) <= usize::MAX
}

proof fn lemma_overlap_index_fits(row: int, col: int, old_cols: int, rows: int, cols: int)
    requires
        0 <= row < rows,
        0 <= col < cols,
        0 <= old_cols,
        (rows - 1) * old_cols + (cols - 1) <= usize::MAX,
    ensures
        row * old_cols + col <= usize::MAX,
{
    assert(row * old_cols <= (rows - 1) * old_cols) by (nonlinear_arith)
        requires
            0 <= row <= rows - 1,
            0 <= old_cols,
    ;
}

/// Remaps row-major cell flags to a new grid size, preserving the cells
/// that exist in both grids.
pub fn resize_cells(
    cells: &[bool],
    old_cols: usize,
    old_rows: usize,
    new_cols: usize,
    new_rows: usize,
) -> (out: Vec<bool>)
    requires
        new_cols * new_rows <= usize::MAX,
        overlap_fits(old_cols as int, old_rows as int, new_cols as int, new_rows as int),
    ensures
        out@ == resized(cells@, old_cols as int, old_rows as int, new_cols as int, new_rows as int),
        out@.len() == new_cols * new_rows,
{
    let total = new_cols * new_rows;
    let mut out: Vec<bool> = Vec::new();
    if total == 0 {
        assert(out@ =~= resized(cells@, old_cols as int, old_rows as int, new_cols as int, new_rows as int));
        return out;
    }
    proof {
        lemma_div_bound(0, new_cols as int, new_rows as int);
    }
    let mut k: usize = 0;
    while k < total
        invariant
            total == new_cols * new_rows,
            k <= total,
            out@.len() == k,
            forall|j: int| 0 <= j < k ==> !out@[j],
        decreases total - k,
    {
        out.push(false);
        k = k + 1;
    }
    let row_end = if old_rows < new_rows { old_rows } else { new_rows };
    let col_end = if old_cols < new_cols { old_cols } else { new_cols };
    let ghost target = resized(cells@, old_cols as int, old_rows as int, new_cols as int, new_rows as int);
    let mut row: usize = 0;
    while row < row_end
        invariant
            total == new_cols * new_rows,
            new_cols * new_rows <= usize::MAX,
            overlap_fits(old_cols as int, old_rows as int, new_cols as int, new_rows as int),
            row_end <= old_rows,
            row_end <= new_rows,
            col_end <= old_cols,
            col_end <= new_cols,
            row <= row_end,
            row_end == (if old_rows < new_rows { old_rows } else { new_rows }),
            col_end == (if old_cols < new_cols { old_cols } else { new_cols }),
            new_cols > 0,
            out@.len() == total,
            target == resized(cells@, old_cols as int, old_rows as int, new_cols as int, new_rows as int),
            forall|j: int| 0 <= j < total ==> #[trigger] out@[j] == (j / (new_cols as int) < row && target[j]),
        decreases row_end - row,
    {
        let mut col: usize = 0;
        proof {
            assert forall|j: int| 0 <= j < total implies #[trigger] out@[j] == ((j / (new_cols as int) < row
                || (j / (new_cols as int) == row && j % (new_cols as int) < 0)) && target[j]) by {
                lemma_div_bound(j, new_cols as int, new_rows as int);
            }
        }
        while col < col_end
            invariant
                total == new_cols * new_rows,
                new_cols * new_rows <= usize::MAX,
                overlap_fits(old_cols as int, old_rows as int, new_cols as int, new_rows as int),
                row_end == (if old_rows < new_rows { old_rows } else { new_rows }),
                col_end == (if old_cols < new_cols { old_cols } else { new_cols }),
                row < row_end,
                row_end <= old_rows,
                row_end <= new_rows,
                col_end <= old_cols,
                col_end <= new_cols,
                col <= col_end,
                new_cols > 0,
                out@.len() == total,
                target == resized(cells@, old_cols as int, old_rows as int, new_cols as int, new_rows as int),
                forall|j: int| 0 <= j < total ==> #[trigger] out@[j] == ((j / (new_cols as int) < row || (j
                    / (new_cols as int) == row && j % (new_cols as int) < col)) && target[j]),
            decreases col_end - col,
        {
            proof {
                lemma_cell_index(row as int, col as int, new_cols as int, new_rows as int);
                lemma_cell_index(row as int, col as int, old_cols as int, old_rows as int);
                lemma_overlap_index_fits(row as int, col as int, old_cols as int, row_end as int, col_end as int);
            }
            let idx = row * new_cols + col;
            let old_idx = row * old_cols + col;
            let flag = if old_idx < cells.len() {
                cells[old_idx]
            } else {
                false
            };
            out.set(idx, flag);
            proof {
                assert forall|j: int| 0 <= j < total implies #[trigger] out@[j] == ((j / (new_cols as int)
                    < row || (j / (new_cols as int) == row && j % (new_cols as int) < col + 1))
                    && target[j]) by {
                    lemma_div_bound(j, new_cols as int, new_rows as int);
                    if j == idx as int {
                        assert(target[j] == flag);
                    } else if j / (new_cols as int) == row && j % (new_cols as int) == col {
                        assert(j == idx as int) by (nonlinear_arith)
                            requires
                                j == (new_cols as int) * (j / (new_cols as int)) + j % (new_cols as int),
                                j / (new_cols as int) == row,
                                j % (new_cols as int) == col,
                                idx == row * new_cols + col,
                        ;
                    }
                }
            }
            col = col + 1;
        }
        proof {
            assert forall|j: int| 0 <= j < total implies #[trigger] out@[j] == (j / (new_cols as int) < row + 1
                && target[j]) by {
                lemma_div_bound(j, new_cols as int, new_rows as int);
                if j / (new_cols as int) == row as int && j % (new_cols as int) >= col_end {
                    assert(j % (new_cols as int) >= old_cols);
                    assert(!target[j]);
                }
            }
        }
        row = row + 1;
    }
    proof {
        assert forall|j: int| 0 <= j < total implies #[trigger] out@[j] == target[j] by {
            lemma_div_bound(j, new_cols as int, new_rows as int);
            if j / (new_cols as int) >= row_end {
                assert(!target[j]);
            }
        }
        assert(out@ =~= target);
    }
    out
}

/// Row-major index arithmetic for a cell inside a grid.
proof fn lemma_cell_index(row: int, col: int, cols: int, rows: int)
    requires
        0 <= row < rows,
        0 <= col < cols,
    ensures
        0 <= row * cols + col < cols * rows,
        (row * cols + col) / cols == row,
        (row * cols + col) % cols == col,
{
    assert(row * cols + col < cols * rows) by (nonlinear_arith)
        requires
            0 <= row < rows,
            0 <= col < cols,
    ;
    assert(0 <= row * cols) by (nonlinear_arith)
        requires
            0 <= row,
            0 <= cols,
    ;
    vstd::arithmetic::div_mod::lemma_fundamental_div_mod_converse(row * cols + col, cols, row, col);
}

/// A flat index inside a grid names a row and column inside it.
proof fn lemma_div_bound(j: int, cols: int, rows: int)
    requires
        0 <= cols,
        0 <= rows,
        0 <= j < cols * rows,
    ensures
        cols > 0,
        0 <= j / cols < rows,
        0 <= j % cols < cols,
        j == cols * (j / cols) + j % cols,
{
    if cols == 0 {
        assert(cols * rows == 0);
    }
    vstd::arithmetic::div_mod::lemma_fundamental_div_mod(j, cols);
    vstd::arithmetic::div_mod::lemma_div_pos_is_pos(j, cols);
    vstd::arithmetic::div_mod::lemma_mod_bound(j, cols);
    let q = j / cols;
    let r = j % cols;
    assert(q < rows) by (nonlinear_arith)
        requires
            cols > 0,
            0 <= j < cols * rows,
            j == cols * q + r,
            0 <= r,
    {
    }
}

/// Setting a cell inside the grid is what reading it gives back, and
/// every other cell reads as before.
pub proof fn lemma_set_cell_then_read(
    cols: int,
    rows: int,
    cells: Seq<bool>,
    col: int,
    row: int,
    walkable: bool,
    other_col: int,
    other_row: int,
)
    requires
        in_grid(cols, rows, col, row),
        row * cols + col < cells.len(),
    ensures
        cell_walkable(cols, rows, cells.update(row * cols + col, walkable), col, row) == walkable,
        (other_col, other_row) != (col, row) ==> cell_walkable(
            cols,
            rows,
            cells.update(row * cols + col, walkable),
            other_col,
            other_row,
        ) == cell_walkable(cols, rows, cells, other_col, other_row),
{
    lemma_cell_index(row, col, cols, rows);
    if in_grid(cols, rows, other_col, other_row) {
        lemma_cell_index(other_row, other_col, cols, rows);
    }
}

/// Resizing a grid to the size it already has keeps every cell.
pub proof fn lemma_resize_to_same_size_keeps_cells(cells: Seq<bool>, cols: int, rows: int)
    requires
        0 <= cols,
        0 <= rows,
        cells.len() == cols * rows,
    ensures
        resized(cells, cols, rows, cols, rows) == cells,
{
    let out = resized(cells, cols, rows, cols, rows);
    assert forall|k: int| 0 <= k < cells.len() implies out[k] == cells[k] by {
        lemma_div_bound(k, cols, rows);
        assert((k / cols) * cols == cols * (k / cols)) by (nonlinear_arith);
    }
    assert(out =~= cells);
}

/// A resized grid keeps exactly the cells inside both sizes: a cell at
/// (col, row) of the new grid holds the old flag at (col, row) when the
/// old grid had it, and is blocked otherwise.
pub proof fn lemma_resize_keeps_the_overlap(
    cells: Seq<bool>,
    old_cols: int,
    old_rows: int,
    new_cols: int,
    new_rows: int,
    col: int,
    row: int,
)
    requires
        0 <= old_cols,
        0 <= old_rows,
        0 <= col < new_cols,
        0 <= row < new_rows,
    ensures
        resized(cells, old_cols, old_rows, new_cols, new_rows)[row * new_cols + col] == cell_walkable(
            old_cols,
            old_rows,
            cells,
            col,
            row,
        ),
{
    lemma_cell_index(row, col, new_cols, new_rows);
    if col < old_cols && row < old_rows {
        lemma_cell_index(row, col, old_cols, old_rows);
    }
}

impl CellGrid {
    /// A grid of `cols` × `rows` blocked cells.
    pub fn blank(cols: usize, rows: usize) -> (g: CellGrid)
        requires
            cols * rows <= usize::MAX,
        ensures
            g.cols == cols,
            g.rows == rows,
            g.cells@.len() == cols * rows,
            forall|k: int| 0 <= k < g.cells@.len() ==> !g.cells@[k],
    {
        let total = cols * rows;
        let mut cells: Vec<bool> = Vec::new();
        let mut k: usize = 0;
        while k < total
            invariant
                k <= total,
                cells@.len() == k,
                forall|j: int| 0 <= j < k ==> !cells@[j],
            decreases total - k,
        {
            cells.push(false);
            k = k + 1;
        }
        CellGrid { cols, rows, cells }
    }

    /// Grid column and row of a floored cell position, if it falls inside
    /// the grid.
    pub fn cell_at(&self, col: i64, row: i64) -> (r: Option<(usize, usize)>)
        ensures
            match r {
                Some((c, w)) => in_grid(self.cols as int, self.rows as int, col as int, row as int)
                    && c == col && w == row,
                None => !in_grid(self.cols as int, self.rows as int, col as int, row as int),
            },
    {
        if col < 0 || row < 0 {
            return None;
        }
        if (col as i128) >= (self.cols as i128) || (row as i128) >= (self.rows as i128) {
            return None;
        }
        Some((col as usize, row as usize))
    }

    /// Whether the cell at a floored position is walkable. Positions
    /// outside the grid are never walkable, and a cell the flag list is
    /// too short to hold reads as blocked.
    pub fn is_cell_walkable(&self, col: i64, row: i64) -> (r: bool)
        requires
            in_grid(self.cols as int, self.rows as int, col as int, row as int) ==> row * self.cols + col
                <= usize::MAX,
        ensures
            r == cell_walkable(self.cols as int, self.rows as int, self.cells@, col as int, row as int),
    {
        match self.cell_at(col, row) {
            None => false,
            Some((c, w)) => {
                proof {
                    lemma_cell_index(w as int, c as int, self.cols as int, self.rows as int);
                }
                let idx = w * self.cols + c;
                if idx < self.cells.len() {
                    self.cells[idx]
                } else {
                    false
                }
            },
        }
    }

    /// Whether the cell at a floored position blocks a body: outside the
    /// grid, or flagged blocked.
    pub fn is_blocked(&self, col: i64, row: i64) -> (r: bool)
        requires
            in_grid(self.cols as int, self.rows as int, col as int, row as int) ==> row * self.cols + col
                < self.cells@.len(),
        ensures
            r == !cell_walkable(self.cols as int, self.rows as int, self.cells@, col as int, row as int),
    {
        match self.cell_at(col, row) {
            None => true,
            Some((c, w)) => {
                let len = self.cells.len();
                assert(w * self.cols + c < len);
                !self.cells[w * self.cols + c]
            },
        }
    }

    /// Sets the walkable flag of the cell at a floored position. Returns
    /// false, leaving the grid unchanged, if it lies outside.
    pub fn set_cell(&mut self, col: i64, row: i64, walkable: bool) -> (r: bool)
        requires
            in_grid(old(self).cols as int, old(self).rows as int, col as int, row as int) ==> row * old(
                self,
            ).cols + col < old(self).cells@.len(),
        ensures
            final(self).cols == old(self).cols,
            final(self).rows == old(self).rows,
            r == in_grid(old(self).cols as int, old(self).rows as int, col as int, row as int),
            r ==> final(self).cells@ == old(self).cells@.update(row * old(self).cols + col, walkable),
            !r ==> final(self).cells@ == old(self).cells@,
    {
        match self.cell_at(col, row) {
            None => false,
            Some((c, w)) => {
                let len = self.cells.len();
                assert(w * self.cols + c < len);
                let idx = w * self.cols + c;
                self.cells.set(idx, walkable);
                true
            },
        }
    }

    /// Applies the editor's grid-size fields: sizes below one count as
    /// one, and a changed size remaps the cells, keeping the overlap.
    pub fn resize(&mut self, cols: isize, rows: isize)
        requires
            (if cols < 1 { 1 } else { cols as int }) * (if rows < 1 { 1 } else { rows as int })
                <= usize::MAX,
            overlap_fits(
                old(self).cols as int,
                old(self).rows as int,
                if cols < 1 { 1 } else { cols as int },
                if rows < 1 { 1 } else { rows as int },
            ),
        ensures
            final(self).cols == (if cols < 1 { 1 } else { cols as int }),
            final(self).rows == (if rows < 1 { 1 } else { rows as int }),
            final(self).cols == old(self).cols && final(self).rows == old(self).rows ==> final(self).cells@
                == old(self).cells@,
            final(self).cols != old(self).cols || final(self).rows != old(self).rows ==> final(self).cells@
                == resized(
                old(self).cells@,
                old(self).cols as int,
                old(self).rows as int,
                final(self).cols as int,
                final(self).rows as int,
            ),
    {
        let new_cols: usize = if cols < 1 {
            1
        } else {
            cols as usize
        };
        let new_rows: usize = if rows < 1 {
            1
        } else {
            rows as usize
        };
        if new_cols != self.cols || new_rows != self.rows {
            self.cells = resize_cells(self.cells.as_slice(), self.cols, self.rows, new_cols, new_rows);
            self.cols = new_cols;
            self.rows = new_rows;
        }
    }
}

} // verus!
