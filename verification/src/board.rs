//! The board: a pixel buffer of four bytes per cell, with its dimensions.

use vstd::prelude::*;
use crate::grid::Grid;
use crate::grid::lemma_index_in_range;
use crate::grid::lemma_coords_in_range;

verus! {

/// A colour: red, green, blue and alpha.
pub type Color = [u8; 4];

/// Whether two colours agree in all four channels.
pub fn same_color(a: &Color, b: &Color) -> (same: bool)
    ensures
        same == (a@ == b@),
{
    let same = a[0] == b[0] && a[1] == b[1] && a[2] == b[2] && a[3] == b[3];
    proof {
        if same {
            assert(a@ =~= b@);
        }
    }
    same
}

/// A buffer of `cells` cells, each of the given colour.
fn uniform_buffer(cells: usize, color: &Color) -> (buf: Vec<u8>)
    requires
        4 * cells <= usize::MAX,
    ensures
        buf@.len() == 4 * cells,
        forall|k: int| 0 <= k < 4 * cells ==> buf@[k] == color@[k % 4],
{
    let mut buf: Vec<u8> = Vec::with_capacity(4 * cells);
    let mut i: usize = 0;
    while i < cells
        invariant
            i <= cells,
            buf@.len() == 4 * i,
            forall|k: int| 0 <= k < 4 * i ==> buf@[k] == color@[k % 4],
        decreases cells - i,
    {
        buf.push(color[0]);
        buf.push(color[1]);
        buf.push(color[2]);
        buf.push(color[3]);
        i = i + 1;
    }
    buf
}

/// The board of the simulation. `rows` cells wide and `columns` cells high;
/// cell `(x, y)` occupies the four bytes from offset `(y * rows + x) * 4`.
pub struct Board {
    rows: u32,
    columns: u32,
    buffer: Vec<u8>,
}

impl View for Board {
    type V = Grid;

    closed spec fn view(&self) -> Grid {
        Grid { rows: self.rows as nat, columns: self.columns as nat, bytes: self.buffer@ }
    }
}

impl Board {
    /// The buffer holds four bytes for each cell, and the dimensions are
    /// those of a board that can exist.
    pub closed spec fn wf(&self) -> bool {
        &&& self.buffer@.len() == 4 * (self.rows as nat * self.columns as nat)
        &&& self.buffer@.len() <= usize::MAX
    }

    /// A well-formed board has a well-formed picture, with dimensions that
    /// fit the machine.
    pub proof fn lemma_wf(&self)
        requires
            self.wf(),
        ensures
            self@.wf(),
            self@.rows <= u32::MAX,
            self@.columns <= u32::MAX,
            4 * (self@.rows * self@.columns) <= usize::MAX,
    {
    }

    /// A board of `rows` by `columns` cells, all of one colour. `None` where
    /// a buffer of that size cannot be addressed on this machine.
    pub fn new(rows: u32, columns: u32, color: Color) -> (made: Option<Board>)
        ensures
            made.is_some() <==> 4 * (rows as nat * columns as nat) <= usize::MAX,
            made matches Some(board) ==> board.wf() && board@ == Grid::filled(
                rows as nat,
                columns as nat,
                color@,
            ),
    {
        let cells = match (rows as usize).checked_mul(columns as usize) {
            Some(n) => n,
            None => {
                return None;
            },
        };
        if cells > usize::MAX / 4 {
            return None;
        }
        let buffer = uniform_buffer(cells, &color);
        let board = Board { rows, columns, buffer };
        proof {
            assert(board@.bytes =~= Grid::filled(rows as nat, columns as nat, color@).bytes);
        }
        Some(board)
    }

    /// The board of `rows` by `columns` cells that lives in a buffer made
    /// elsewhere. `None` where the buffer does not hold four bytes for each
    /// cell.
    pub fn from_data(rows: u32, columns: u32, data: Vec<u8>) -> (made: Option<Board>)
        ensures
            made.is_some() <==> data@.len() == 4 * (rows as nat * columns as nat),
            made matches Some(board) ==> board.wf() && board@ == (Grid {
                rows: rows as nat,
                columns: columns as nat,
                bytes: data@,
            }),
    {
        assert(rows as nat * columns as nat <= 0xffff_ffff * 0xffff_ffff) by (nonlinear_arith)
            requires
                rows <= 0xffff_ffff,
                columns <= 0xffff_ffff,
        ;
        let cells: u64 = (rows as u64) * (columns as u64);
        if data.len() % 4 != 0 || (data.len() / 4) as u64 != cells {
            return None;
        }
        Some(Board { rows, columns, buffer: data })
    }

    /// Gives the buffer away.
    pub fn into_data(self) -> (data: Vec<u8>)
        ensures
            data@ == self@.bytes,
    {
        self.buffer
    }

    /// The width in cells.
    pub fn rows(&self) -> (rows: u32)
        ensures
            rows == self@.rows,
    {
        self.rows
    }

    /// The height in cells.
    pub fn columns(&self) -> (columns: u32)
        ensures
            columns == self@.columns,
    {
        self.columns
    }

    /// The number of cells.
    pub fn cell_count(&self) -> (cells: usize)
        requires
            self.wf(),
        ensures
            cells == self@.rows * self@.columns,
    {
        self.buffer.len() / 4
    }

    /// The raw buffer, as a display surface takes it.
    pub fn data(&self) -> (bytes: &Vec<u8>)
        ensures
            bytes@ == self@.bytes,
    {
        &self.buffer
    }

    /// The colour of the cell at position `i` in row-major order.
    pub(crate) fn cell_at(&self, i: usize) -> (color: Color)
        requires
            self.wf(),
            i < self@.rows * self@.columns,
        ensures
            color@ == self@.bytes.subrange(4 * i, 4 * i + 4),
    {
        let o: usize = 4 * i;
        let color: Color = [self.buffer[o], self.buffer[o + 1], self.buffer[o + 2], self.buffer[o + 3]];
        proof {
            assert(color@ =~= self@.bytes.subrange(4 * i, 4 * i + 4));
        }
        color
    }

    /// Writes `color` into the cell at position `i` in row-major order.
    pub(crate) fn put(&mut self, i: usize, color: &Color)
        requires
            old(self).wf(),
            i < old(self)@.rows * old(self)@.columns,
        ensures
            final(self).wf(),
            final(self)@.rows == old(self)@.rows,
            final(self)@.columns == old(self)@.columns,
            final(self)@.bytes.len() == old(self)@.bytes.len(),
            forall|k: int|
                0 <= k < old(self)@.bytes.len() ==> final(self)@.bytes[k] == (if 4 * i <= k < 4 * i
                    + 4 {
                    color@[k - 4 * i]
                } else {
                    old(self)@.bytes[k]
                }),
    {
        let o: usize = 4 * i;
        self.buffer.set(o, color[0]);
        self.buffer.set(o + 1, color[1]);
        self.buffer.set(o + 2, color[2]);
        self.buffer.set(o + 3, color[3]);
    }

    /// Replaces the whole buffer by another of the same length.
    pub(crate) fn replace(&mut self, buffer: Vec<u8>)
        requires
            old(self).wf(),
            buffer@.len() == old(self)@.bytes.len(),
        ensures
            final(self).wf(),
            final(self)@.rows == old(self)@.rows,
            final(self)@.columns == old(self)@.columns,
            final(self)@.bytes == buffer@,
    {
        self.buffer = buffer;
    }

    /// The colour of cell `(x, y)`, or `None` where the grid has no such
    /// cell.
    pub fn get(&self, x: i64, y: i64) -> (found: Option<Color>)
        requires
            self.wf(),
        ensures
            found.is_some() <==> self@.in_bounds(x as int, y as int),
            found matches Some(color) ==> color@ == self@.cell(x as int, y as int),
    {
        if x < 0 || y < 0 || x >= self.rows as i64 || y >= self.columns as i64 {
            return None;
        }
        proof {
            lemma_index_in_range(self.rows as nat, self.columns as nat, x as int, y as int);
        }
        let i: usize = (y as usize) * (self.rows as usize) + (x as usize);
        Some(self.cell_at(i))
    }

    /// Sets cell `(x, y)` to `color`. Where the grid has no such cell,
    /// nothing happens.
    pub fn set(&mut self, x: i64, y: i64, color: Color)
        requires
            old(self).wf(),
        ensures
            final(self).wf(),
            final(self)@ == old(self)@.set(x as int, y as int, color@),
    {
        if x < 0 || y < 0 || x >= self.rows as i64 || y >= self.columns as i64 {
            return ;
        }
        proof {
            lemma_index_in_range(self.rows as nat, self.columns as nat, x as int, y as int);
        }
        let i: usize = (y as usize) * (self.rows as usize) + (x as usize);
        self.put(i, &color);
        proof {
            let before = old(self)@;
            let after = before.set(x as int, y as int, color@);
            assert(self@.bytes =~= after.bytes) by {
                assert forall|k: int| 0 <= k < self@.bytes.len() implies self@.bytes[k]
                    == after.bytes[k] by {
                    lemma_coords_in_range(before.rows, before.columns, k / 4);
                    let cx = (k / 4) % (before.rows as int);
                    let cy = (k / 4) / (before.rows as int);
                    assert(before.cell(cx, cy)[k % 4] == before.bytes[k]);
                }
            }
        }
    }

    /// Sets every cell to `color`.
    pub fn clear_to(&mut self, color: Color)
        requires
            old(self).wf(),
        ensures
            final(self).wf(),
            final(self)@ == Grid::filled(old(self)@.rows, old(self)@.columns, color@),
    {
        let cells = self.cell_count();
        let mut i: usize = 0;
        while i < cells
            invariant
                self.wf(),
                i <= cells,
                cells == self@.rows * self@.columns,
                self@.rows == old(self)@.rows,
                self@.columns == old(self)@.columns,
                forall|k: int| 0 <= k < 4 * i ==> self@.bytes[k] == color@[k % 4],
            decreases cells - i,
        {
            self.put(i, &color);
            i = i + 1;
        }
        proof {
            assert(self@.bytes =~= Grid::filled(self@.rows, self@.columns, color@).bytes);
        }
    }
}

} // verus!
