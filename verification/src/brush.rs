//! The brush: a round stamp of live cells.

use vstd::prelude::*;
use crate::board::Board;
use crate::grid::Grid;
use crate::grid::lemma_cell_len;
use crate::grid::lemma_from_cells;
use crate::grid::lemma_same_cells;
use crate::grid::lemma_set_cell;
use crate::settings::GameSettings;

verus! {

/// The brush and its radius in cells.
#[derive(Debug, Clone, Copy)]
pub struct Brush {
    pub size: u8,
}

impl Brush {
    /// The radius is at least 1.
    pub open spec fn wf(&self) -> bool {
        self.size >= 1
    }

    /// The smallest brush.
    pub fn new() -> (brush: Brush)
        ensures
            brush.wf(),
            brush.size == 1,
    {
        Brush { size: 1 }
    }

    /// One cell wider, up to 255.
    pub fn grow(&mut self)
        ensures
            old(self).wf() ==> final(self).wf(),
            final(self).size == (if old(self).size < 255 {
                old(self).size + 1
            } else {
                255
            }),
    {
        if self.size < u8::MAX {
            self.size = self.size + 1;
        }
    }

    /// One frame of the keys: narrowed first, then widened.
    pub fn resize(&mut self, shrink: bool, grow: bool)
        ensures
            old(self).wf() ==> final(self).wf(),
            final(self).size == resized(old(self).size, shrink, grow),
    {
        if shrink {
            self.shrink();
        }
        if grow {
            self.grow();
        }
    }

    /// One cell narrower, down to 1.
    pub fn shrink(&mut self)
        ensures
            old(self).wf() ==> final(self).wf(),
            final(self).size == (if old(self).size > 1 {
                old(self).size - 1
            } else {
                old(self).size as int
            }),
    {
        if self.size > 1 {
            self.size = self.size - 1;
        }
    }
}

/// The offset `(dx, dy)` lies within `radius` of the centre.
pub open spec fn in_disc(dx: int, dy: int, radius: nat) -> bool {
    dx * dx + dy * dy <= radius * radius
}

/// The grid with every cell within `radius` of `(x, y)` set to `alive`, and
/// every other cell kept. Where the disc reaches beyond the grid there is
/// nothing to set.
pub open spec fn painted(grid: Grid, x: int, y: int, radius: nat, alive: Seq<u8>) -> Grid {
    Grid::from_cells(grid.rows, grid.columns, painted_cells(grid, x, y, radius, alive))
}

/// The cells of the grid, but for `alive` within `radius` of `(x, y)`.
pub open spec fn painted_cells(grid: Grid, x: int, y: int, radius: nat, alive: Seq<u8>) -> spec_fn(
    int,
    int,
) -> Seq<u8> {
    |cx: int, cy: int|
        if in_disc(cx - x, cy - y, radius) {
            alive
        } else {
            grid.cell(cx, cy)
        }
}

/// An offset within the disc lies within the square around it.
pub proof fn lemma_disc_in_square(dx: int, dy: int, radius: nat)
    requires
        in_disc(dx, dy, radius),
    ensures
        -radius <= dx <= radius,
        -radius <= dy <= radius,
{
    assert(-radius <= dx <= radius && -radius <= dy <= radius) by (nonlinear_arith)
        requires
            dx * dx + dy * dy <= radius * radius,
            radius >= 0,
    ;
}

/// Whether the offset `(dx, dy)` lies within `radius` of the centre.
fn within(dx: i64, dy: i64, radius: u8) -> (inside: bool)
    requires
        -255 <= dx <= 255,
        -255 <= dy <= 255,
    ensures
        inside == in_disc(dx as int, dy as int, radius as nat),
{
    assert(0 <= dx * dx <= 65025 && 0 <= dy * dy <= 65025) by (nonlinear_arith)
        requires
            -255 <= dx <= 255,
            -255 <= dy <= 255,
    ;
    assert(0 <= radius * radius <= 65025) by (nonlinear_arith)
        requires
            0 <= radius <= 255,
    ;
    let r: i64 = radius as i64;
    dx * dx + dy * dy <= r * r
}

/// The offsets that the brush has passed when it stands at `(bx, by)`: it
/// goes through the square column by column.
pub open spec fn passed(dx: int, dy: int, bx: int, by: int) -> bool {
    dx < bx || (dx == bx && dy < by)
}

/// Stamps a disc of live cells of the given radius around `(x, y)`. Cells
/// of the disc that the board does not have are skipped.
pub fn paint(board: &mut Board, settings: &GameSettings, x: i64, y: i64, radius: u8)
    requires
        old(board).wf(),
    ensures
        final(board).wf(),
        final(board)@ == painted(
            old(board)@,
            x as int,
            y as int,
            radius as nat,
            settings.alive_color@,
        ),
{
    let ghost before = board@;
    let ghost alive = settings.alive_color@;
    let ghost target = painted(before, x as int, y as int, radius as nat, alive);
    let r: i64 = radius as i64;
    proof {
        board.lemma_wf();
    }
    if x < -256 || y < -256 || x > 4294967552 || y > 4294967552 {
        proof {
            assert forall|cx: int, cy: int| before.in_bounds(cx, cy) implies before.cell(cx, cy)
                == target.cell(cx, cy) by {
                lemma_cell_len(before, cx, cy);
                if in_disc(cx - x, cy - y, radius as nat) {
                    lemma_disc_in_square(cx - x, cy - y, radius as nat);
                }
                lemma_from_cells(
                    before.rows,
                    before.columns,
                    painted_cells(before, x as int, y as int, radius as nat, alive),
                    cx,
                    cy,
                );
            }
            lemma_same_cells(before, target);
        }
        return ;
    }
    let mut bx: i64 = -r;
    proof {
        assert forall|cx: int, cy: int| before.in_bounds(cx, cy) implies #[trigger] board@.cell(
            cx,
            cy,
        ) == (if in_disc(cx - x, cy - y, radius as nat) && cx - x < bx {
            alive
        } else {
            before.cell(cx, cy)
        }) by {
            if in_disc(cx - x, cy - y, radius as nat) {
                lemma_disc_in_square(cx - x, cy - y, radius as nat);
            }
        }
    }
    while bx <= r
        invariant
            board.wf(),
            before == old(board)@,
            before.wf(),
            alive == settings.alive_color@,
            r == radius,
            -r <= bx <= r + 1,
            -256 <= x <= 4294967552,
            -256 <= y <= 4294967552,
            board@.rows == before.rows,
            board@.columns == before.columns,
            forall|cx: int, cy: int|
                before.in_bounds(cx, cy) ==> #[trigger] board@.cell(cx, cy) == (if in_disc(
                    cx - x,
                    cy - y,
                    radius as nat,
                ) && cx - x < bx {
                    alive
                } else {
                    before.cell(cx, cy)
                }),
        decreases r + 1 - bx,
    {
        let mut by: i64 = -r;
        proof {
            assert forall|cx: int, cy: int| before.in_bounds(cx, cy) implies #[trigger] board@.cell(
                cx,
                cy,
            ) == (if in_disc(cx - x, cy - y, radius as nat) && passed(
                cx - x,
                cy - y,
                bx as int,
                by as int,
            ) {
                alive
            } else {
                before.cell(cx, cy)
            }) by {
                if in_disc(cx - x, cy - y, radius as nat) {
                    lemma_disc_in_square(cx - x, cy - y, radius as nat);
                }
            }
        }
        while by <= r
            invariant
                board.wf(),
                before.wf(),
                alive == settings.alive_color@,
                r == radius,
                -r <= bx <= r,
                -r <= by <= r + 1,
                -256 <= x <= 4294967552,
                -256 <= y <= 4294967552,
                board@.rows == before.rows,
                board@.columns == before.columns,
                forall|cx: int, cy: int|
                    before.in_bounds(cx, cy) ==> #[trigger] board@.cell(cx, cy) == (if in_disc(
                        cx - x,
                        cy - y,
                        radius as nat,
                    ) && passed(cx - x, cy - y, bx as int, by as int) {
                        alive
                    } else {
                        before.cell(cx, cy)
                    }),
            decreases r + 1 - by,
        {
            if within(bx, by, radius) {
                let ghost prev = board@;
                proof {
                    board.lemma_wf();
                }
                board.set(x + bx, y + by, settings.alive_color);
                proof {
                    assert forall|cx: int, cy: int| before.in_bounds(cx, cy) implies (
                    #[trigger] board@.cell(cx, cy)) == (if in_disc(cx - x, cy - y, radius as nat)
                        && passed(cx - x, cy - y, bx as int, by + 1) {
                        alive
                    } else {
                        before.cell(cx, cy)
                    }) by {
                        lemma_set_cell(prev, x + bx, y + by, alive, cx, cy);
                    }
                }
            }
            by = by + 1;
        }
        proof {
            assert forall|cx: int, cy: int| before.in_bounds(cx, cy) implies #[trigger] board@.cell(
                cx,
                cy,
            ) == (if in_disc(cx - x, cy - y, radius as nat) && cx - x < bx + 1 {
                alive
            } else {
                before.cell(cx, cy)
            }) by {
                if in_disc(cx - x, cy - y, radius as nat) {
                    lemma_disc_in_square(cx - x, cy - y, radius as nat);
                }
            }
        }
        bx = bx + 1;
    }
    proof {
        board.lemma_wf();
        assert forall|cx: int, cy: int| board@.in_bounds(cx, cy) implies board@.cell(cx, cy)
            == target.cell(cx, cy) by {
            lemma_cell_len(before, cx, cy);
            if in_disc(cx - x, cy - y, radius as nat) {
                lemma_disc_in_square(cx - x, cy - y, radius as nat);
            }
            lemma_from_cells(
                before.rows,
                before.columns,
                painted_cells(before, x as int, y as int, radius as nat, alive),
                cx,
                cy,
            );
        }
        lemma_same_cells(board@, target);
    }
}

} // verus!

verus! {

/// What the keyboard and the pointer report in one frame.
#[derive(Debug, Clone, Copy)]
pub struct Input {
    /// The key that narrows the brush is down.
    pub shrink: bool,
    /// The key that widens the brush is down.
    pub grow: bool,
    /// The painting button is down.
    pub pressed: bool,
    /// An overlay has captured the pointer. The overlay comes first: no
    /// cell is painted through it.
    pub over_overlay: bool,
    /// The cell under the pointer, where the pointer is over the window.
    pub cursor: Option<(i64, i64)>,
}

/// The brush's radius after one frame: narrowed first, then widened, each
/// by one step and within 1 to 255.
pub open spec fn resized(size: u8, shrink: bool, grow: bool) -> int {
    let narrowed: int = if shrink && size > 1 {
        size - 1
    } else {
        size as int
    };
    if grow && narrowed < 255 {
        narrowed + 1
    } else {
        narrowed
    }
}

/// Whether a frame with this input paints.
pub open spec fn paints(input: Input) -> bool {
    input.pressed && !input.over_overlay && input.cursor.is_some()
}

/// Whether a frame with this input paints.
pub fn will_paint(input: &Input) -> (painting: bool)
    ensures
        painting == paints(*input),
{
    input.pressed && !input.over_overlay && input.cursor.is_some()
}

/// One frame of input: the brush is resized as the keys ask, and then,
/// where the button is down, no overlay holds the pointer and the pointer
/// is over the window, a disc of the brush's radius is painted around the
/// cell under it.
pub fn handle_events(
    board: &mut Board,
    settings: &GameSettings,
    brush: &mut Brush,
    input: &Input,
) -> (painted_now: bool)
    requires
        old(board).wf(),
    ensures
        final(board).wf(),
        old(brush).wf() ==> final(brush).wf(),
        final(brush).size == resized(old(brush).size, input.shrink, input.grow),
        painted_now == paints(*input),
        painted_now ==> final(board)@ == painted(
            old(board)@,
            input.cursor.unwrap().0 as int,
            input.cursor.unwrap().1 as int,
            final(brush).size as nat,
            settings.alive_color@,
        ),
        !painted_now ==> final(board)@ == old(board)@,
{
    brush.resize(input.shrink, input.grow);
    if !input.pressed || input.over_overlay {
        return false;
    }
    match input.cursor {
        Some((x, y)) => {
            paint(board, settings, x, y, brush.size);
            true
        },
        None => false,
    }
}

} // verus!
