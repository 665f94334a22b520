//! The mathematical picture of a board: its dimensions and its bytes.

use vstd::prelude::*;
use vstd::arithmetic::div_mod::lemma_fundamental_div_mod;
use vstd::arithmetic::div_mod::lemma_fundamental_div_mod_converse;
use vstd::arithmetic::div_mod::lemma_mod_pos_bound;
use vstd::arithmetic::div_mod::lemma_multiply_divide_lt;
use vstd::arithmetic::div_mod::lemma_div_pos_is_pos;

verus! {

/// A board as contracts see it. `rows` is the width in cells, `columns` the
/// height in cells, and `bytes` holds four colour channels per cell, row of
/// cells after row of cells.
pub struct Grid {
    pub rows: nat,
    pub columns: nat,
    pub bytes: Seq<u8>,
}

/// 1 for `true`, 0 for `false`.
pub open spec fn as_count(b: bool) -> nat {
    if b { 1 } else { 0 }
}

/// The rule applied to one cell: with `neighbours` live cells around it, a
/// live cell survives with two or three, a dead cell is born with three.
pub open spec fn rule(alive: bool, neighbours: nat) -> bool {
    if alive {
        neighbours == 2 || neighbours == 3
    } else {
        neighbours == 3
    }
}

impl Grid {
    /// The number of cells.
    pub open spec fn cell_count(self) -> nat {
        self.rows * self.columns
    }

    /// The buffer holds exactly four bytes per cell.
    pub open spec fn wf(self) -> bool {
        self.bytes.len() == 4 * (self.rows * self.columns)
    }

    /// `(x, y)` names a cell of the grid.
    pub open spec fn in_bounds(self, x: int, y: int) -> bool {
        0 <= x < self.rows && 0 <= y < self.columns
    }

    /// The position of cell `(x, y)` in the row-major order of cells.
    pub open spec fn index(self, x: int, y: int) -> int {
        y * self.rows + x
    }

    /// The four bytes of cell `(x, y)`.
    pub open spec fn cell(self, x: int, y: int) -> Seq<u8> {
        self.bytes.subrange(4 * self.index(x, y), 4 * self.index(x, y) + 4)
    }

    /// The grid of the given dimensions whose cell `(x, y)` holds `f(x, y)`.
    pub open spec fn from_cells(rows: nat, columns: nat, f: spec_fn(int, int) -> Seq<u8>) -> Grid {
        Grid {
            rows,
            columns,
            bytes: Seq::new(
                (4 * (rows * columns)) as nat,
                |k: int| f((k / 4) % (rows as int), (k / 4) / (rows as int))[k % 4],
            ),
        }
    }

    /// The grid of the given dimensions with every cell of one colour.
    pub open spec fn filled(rows: nat, columns: nat, color: Seq<u8>) -> Grid {
        Grid::from_cells(rows, columns, Grid::uniform(color))
    }

    /// The same colour for every cell.
    pub open spec fn uniform(color: Seq<u8>) -> spec_fn(int, int) -> Seq<u8> {
        |x: int, y: int| color
    }

    /// This grid with cell `(x, y)` set to `color`; unchanged where `(x, y)`
    /// is not a cell of it.
    pub open spec fn set(self, x: int, y: int, color: Seq<u8>) -> Grid {
        if self.in_bounds(x, y) {
            Grid::from_cells(self.rows, self.columns, self.cells_with(x, y, color))
        } else {
            self
        }
    }

    /// The cells of this grid, but for `color` at `(x, y)`.
    pub open spec fn cells_with(
        self,
        x: int,
        y: int,
        color: Seq<u8>,
    ) -> spec_fn(int, int) -> Seq<u8> {
        |cx: int, cy: int| if cx == x && cy == y { color } else { self.cell(cx, cy) }
    }

    /// Cell `(x, y)` exists and holds exactly the colour `alive`.
    pub open spec fn is_alive(self, x: int, y: int, alive: Seq<u8>) -> bool {
        self.in_bounds(x, y) && self.cell(x, y) == alive
    }

    /// How many of the eight cells around `(x, y)` are alive. A neighbour
    /// beyond the edge does not exist and is not counted.
    pub open spec fn live_neighbours(self, x: int, y: int, alive: Seq<u8>) -> nat {
        as_count(self.is_alive(x - 1, y - 1, alive))
            + as_count(self.is_alive(x - 1, y, alive))
            + as_count(self.is_alive(x - 1, y + 1, alive))
            + as_count(self.is_alive(x, y - 1, alive))
            + as_count(self.is_alive(x, y + 1, alive))
            + as_count(self.is_alive(x + 1, y - 1, alive))
            + as_count(self.is_alive(x + 1, y, alive))
            + as_count(self.is_alive(x + 1, y + 1, alive))
    }

    /// Whether cell `(x, y)` is alive in the next generation: the rule,
    /// applied to the cell and the count of its live neighbours.
    pub open spec fn next_alive(self, x: int, y: int, alive: Seq<u8>) -> bool {
        rule(self.is_alive(x, y, alive), self.live_neighbours(x, y, alive))
    }

    /// The next generation, every cell computed from this grid alone.
    pub open spec fn step(self, alive: Seq<u8>, dead: Seq<u8>) -> Grid {
        Grid::from_cells(self.rows, self.columns, self.next_cells(alive, dead))
    }

    /// The colour of each cell in the next generation.
    pub open spec fn next_cells(
        self,
        alive: Seq<u8>,
        dead: Seq<u8>,
    ) -> spec_fn(int, int) -> Seq<u8> {
        |x: int, y: int| if self.next_alive(x, y, alive) { alive } else { dead }
    }
}

/// A cell's position in row-major order lies below the number of cells.
pub proof fn lemma_index_in_range(rows: nat, columns: nat, x: int, y: int)
    requires
        0 <= x < rows,
        0 <= y < columns,
    ensures
        0 <= y * rows,
        0 <= y * rows + x < rows * columns,
        (y * rows + x) % (rows as int) == x,
        (y * rows + x) / (rows as int) == y,
{
    assert(y * rows + x < rows * columns) by (nonlinear_arith)
        requires
            0 <= x < rows,
            0 <= y < columns,
    {
        assert((y + 1) * rows <= columns * rows);
    }
    assert(0 <= y * rows) by (nonlinear_arith)
        requires
            0 <= y,
            0 <= rows,
    ;
    lemma_fundamental_div_mod_converse(y * rows + x, rows as int, y, x);
}

/// A position below the number of cells splits into a column within the
/// width and a row within the height.
pub proof fn lemma_coords_in_range(rows: nat, columns: nat, i: int)
    requires
        0 <= i < rows * columns,
    ensures
        rows > 0,
        0 <= i % (rows as int) < rows,
        0 <= i / (rows as int) < columns,
        (i / (rows as int)) * rows + i % (rows as int) == i,
{
    assert(rows > 0) by (nonlinear_arith)
        requires
            0 <= i < rows * columns,
    ;
    let r = rows as int;
    lemma_mod_pos_bound(i, r);
    lemma_fundamental_div_mod(i, r);
    lemma_multiply_divide_lt(i, r, columns as int);
    lemma_div_pos_is_pos(i, r);
    assert(r * (i / r) == (i / r) * r) by (nonlinear_arith);
}

/// What `from_cells` puts into each cell.
pub proof fn lemma_from_cells(rows: nat, columns: nat, f: spec_fn(int, int) -> Seq<u8>, x: int, y: int)
    requires
        0 <= x < rows,
        0 <= y < columns,
        f(x, y).len() == 4,
    ensures
        Grid::from_cells(rows, columns, f).cell(x, y) == f(x, y),
{
    let g = Grid::from_cells(rows, columns, f);
    lemma_index_in_range(rows, columns, x, y);
    let i = y * rows + x;
    assert(g.cell(x, y) =~= f(x, y)) by {
        assert forall|j: int| 0 <= j < 4 implies g.cell(x, y)[j] == f(x, y)[j] by {
            let k = 4 * i + j;
            assert(k / 4 == i);
            assert(k % 4 == j);
            assert(g.bytes[k] == f((k / 4) % (rows as int), (k / 4) / (rows as int))[k % 4]);
        }
    }
}

/// `from_cells` makes a well-formed grid of the dimensions it is given.
pub proof fn lemma_from_cells_wf(rows: nat, columns: nat, f: spec_fn(int, int) -> Seq<u8>)
    ensures
        Grid::from_cells(rows, columns, f).wf(),
        Grid::from_cells(rows, columns, f).rows == rows,
        Grid::from_cells(rows, columns, f).columns == columns,
{
}

/// Every cell of a filled grid holds the colour it was filled with.
pub proof fn lemma_filled_cell(rows: nat, columns: nat, color: Seq<u8>, x: int, y: int)
    requires
        0 <= x < rows,
        0 <= y < columns,
        color.len() == 4,
    ensures
        Grid::filled(rows, columns, color).cell(x, y) == color,
{
    lemma_from_cells(rows, columns, Grid::uniform(color), x, y);
}

/// Each cell of the next generation holds the alive colour or the dead
/// colour, as the rule decides from the generation before.
pub proof fn lemma_step_cell(g: Grid, alive: Seq<u8>, dead: Seq<u8>, x: int, y: int)
    requires
        g.in_bounds(x, y),
        alive.len() == 4,
        dead.len() == 4,
    ensures
        g.step(alive, dead).cell(x, y) == (if g.next_alive(x, y, alive) {
            alive
        } else {
            dead
        }),
{
    lemma_from_cells(g.rows, g.columns, g.next_cells(alive, dead), x, y);
}

/// A cell of a well-formed grid has four bytes.
pub proof fn lemma_cell_len(g: Grid, x: int, y: int)
    requires
        g.wf(),
        g.in_bounds(x, y),
    ensures
        g.cell(x, y).len() == 4,
{
    lemma_index_in_range(g.rows, g.columns, x, y);
}

/// Setting a cell changes that cell and no other.
pub proof fn lemma_set_cell(g: Grid, x: int, y: int, color: Seq<u8>, cx: int, cy: int)
    requires
        g.wf(),
        color.len() == 4,
        g.in_bounds(cx, cy),
    ensures
        g.set(x, y, color).wf(),
        g.set(x, y, color).rows == g.rows,
        g.set(x, y, color).columns == g.columns,
        g.set(x, y, color).cell(cx, cy) == (if cx == x && cy == y {
            color
        } else {
            g.cell(cx, cy)
        }),
{
    if g.in_bounds(x, y) {
        lemma_cell_len(g, cx, cy);
        lemma_from_cells(g.rows, g.columns, g.cells_with(x, y, color), cx, cy);
    }
}

/// Two well-formed grids of the same dimensions with the same cells are the
/// same grid.
pub proof fn lemma_same_cells(a: Grid, b: Grid)
    requires
        a.wf(),
        b.wf(),
        a.rows == b.rows,
        a.columns == b.columns,
        forall|x: int, y: int| a.in_bounds(x, y) ==> a.cell(x, y) == b.cell(x, y),
    ensures
        a == b,
{
    assert(a.bytes =~= b.bytes) by {
        assert forall|k: int| 0 <= k < a.bytes.len() implies a.bytes[k] == b.bytes[k] by {
            let i = k / 4;
            lemma_coords_in_range(a.rows, a.columns, i);
            let x = i % (a.rows as int);
            let y = i / (a.rows as int);
            assert(a.in_bounds(x, y));
            assert(a.index(x, y) == i);
            assert(a.cell(x, y)[k % 4] == a.bytes[k]);
            assert(b.cell(x, y)[k % 4] == b.bytes[k]);
        }
    }
}

} // verus!
