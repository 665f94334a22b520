//! What holds of the library as a whole, proved from the contracts of its
//! functions.

use vstd::prelude::*;
use crate::board::Color;
use crate::brush::in_disc;
use crate::brush::painted;
use crate::brush::painted_cells;
use crate::grid::Grid;
use crate::grid::as_count;
use crate::grid::lemma_cell_len;
use crate::grid::lemma_filled_cell;
use crate::grid::lemma_from_cells;
use crate::grid::lemma_from_cells_wf;
use crate::grid::lemma_same_cells;
use crate::grid::lemma_set_cell;
use crate::grid::lemma_step_cell;
use crate::manager::EventError;
use crate::manager::UIEvent;
use crate::manager::fresh_grid;
use crate::manager::fresh_seeded;
use crate::manager::outcome;
use crate::pattern::gosper_picture;
use crate::pattern::simkin_picture;
use crate::seed::centred_start;
use crate::seed::lemma_sprinkled_cell;
use crate::seed::lemma_stamped_cell;
use crate::settings::GameSettings;
use crate::settings::Seed;

verus! {

/// A cell beyond the edge of the grid is never alive, whatever the alive
/// colour is and whatever the buffer holds.
pub proof fn lemma_off_grid_is_dead(grid: Grid, x: int, y: int, alive: Seq<u8>)
    requires
        !grid.in_bounds(x, y),
    ensures
        !grid.is_alive(x, y, alive),
{
}

/// The cell in the corner `(0, 0)` counts the three neighbours that a grid
/// can have there, each only where the grid has it, and none of the five
/// that lie beyond the edge.
pub proof fn lemma_corner_counts_existing_neighbours(grid: Grid, alive: Seq<u8>)
    ensures
        grid.live_neighbours(0, 0, alive) == as_count(grid.is_alive(0, 1, alive)) + as_count(
            grid.is_alive(1, 0, alive),
        ) + as_count(grid.is_alive(1, 1, alive)),
        grid.live_neighbours(0, 0, alive) <= 3,
        grid.columns <= 1 ==> !grid.is_alive(0, 1, alive) && !grid.is_alive(1, 1, alive),
        grid.rows <= 1 ==> !grid.is_alive(1, 0, alive) && !grid.is_alive(1, 1, alive),
{
}

/// The grid holds a line of three live cells, lying across around `(x, y)`
/// or standing upright there, away from the edges, and every other cell
/// holds the dead colour.
pub open spec fn is_blinker(
    grid: Grid,
    x: int,
    y: int,
    upright: bool,
    alive: Seq<u8>,
    dead: Seq<u8>,
) -> bool {
    &&& grid.wf()
    &&& alive.len() == 4
    &&& dead.len() == 4
    &&& alive != dead
    &&& 1 <= x < grid.rows - 1
    &&& 1 <= y < grid.columns - 1
    &&& forall|cx: int, cy: int|
        grid.in_bounds(cx, cy) ==> #[trigger] grid.cell(cx, cy) == (if in_blinker(
            cx - x,
            cy - y,
            upright,
        ) {
            alive
        } else {
            dead
        })
}

/// The three offsets of a line of three cells around its middle.
pub open spec fn in_blinker(dx: int, dy: int, upright: bool) -> bool {
    if upright {
        dx == 0 && -1 <= dy <= 1
    } else {
        dy == 0 && -1 <= dx <= 1
    }
}

/// One generation turns a line of three live cells by a quarter.
pub proof fn lemma_blinker_turns(
    grid: Grid,
    x: int,
    y: int,
    upright: bool,
    alive: Seq<u8>,
    dead: Seq<u8>,
)
    requires
        is_blinker(grid, x, y, upright, alive, dead),
    ensures
        is_blinker(grid.step(alive, dead), x, y, !upright, alive, dead),
{
    let next = grid.step(alive, dead);
    lemma_from_cells_wf(grid.rows, grid.columns, grid.next_cells(alive, dead));
    assert forall|cx: int, cy: int| next.in_bounds(cx, cy) implies #[trigger] next.cell(cx, cy)
        == (if in_blinker(cx - x, cy - y, !upright) {
        alive
    } else {
        dead
    }) by {
        lemma_step_cell(grid, alive, dead, cx, cy);
    }
}

/// A line of three live cells on an otherwise dead board comes back after
/// two generations, byte for byte.
pub proof fn lemma_blinker_period_two(
    grid: Grid,
    x: int,
    y: int,
    upright: bool,
    alive: Seq<u8>,
    dead: Seq<u8>,
)
    requires
        is_blinker(grid, x, y, upright, alive, dead),
    ensures
        grid.step(alive, dead).step(alive, dead) == grid,
{
    let once = grid.step(alive, dead);
    let twice = once.step(alive, dead);
    lemma_blinker_turns(grid, x, y, upright, alive, dead);
    lemma_blinker_turns(once, x, y, !upright, alive, dead);
    lemma_same_cells(twice, grid);
}

/// Painting with radius 0 sets exactly the cell under the brush: the board
/// is the one that `set` gives, the cell reads back as the alive colour, and
/// every other cell is as before.
pub proof fn lemma_paint_point(grid: Grid, x: int, y: int, alive: Seq<u8>)
    requires
        grid.wf(),
        alive.len() == 4,
    ensures
        painted(grid, x, y, 0, alive) == grid.set(x, y, alive),
        grid.in_bounds(x, y) ==> painted(grid, x, y, 0, alive).cell(x, y) == alive,
        forall|cx: int, cy: int|
            grid.in_bounds(cx, cy) && !(cx == x && cy == y) ==> #[trigger] painted(
                grid,
                x,
                y,
                0,
                alive,
            ).cell(cx, cy) == grid.cell(cx, cy),
{
    let after = painted(grid, x, y, 0, alive);
    lemma_from_cells_wf(grid.rows, grid.columns, painted_cells(grid, x, y, 0, alive));
    assert forall|cx: int, cy: int| grid.in_bounds(cx, cy) implies #[trigger] after.cell(cx, cy)
        == (if cx == x && cy == y {
        alive
    } else {
        grid.cell(cx, cy)
    }) by {
        lemma_cell_len(grid, cx, cy);
        lemma_from_cells(grid.rows, grid.columns, painted_cells(grid, x, y, 0, alive), cx, cy);
        let dx = cx - x;
        let dy = cy - y;
        assert(in_disc(dx, dy, 0) <==> (dx == 0 && dy == 0)) by (nonlinear_arith)
            requires
                in_disc(dx, dy, 0) <==> dx * dx + dy * dy <= 0,
        ;
    }
    assert forall|cx: int, cy: int| after.in_bounds(cx, cy) implies after.cell(cx, cy)
        == grid.set(x, y, alive).cell(cx, cy) by {
        lemma_set_cell(grid, x, y, alive, cx, cy);
    }
    if grid.rows > 0 && grid.columns > 0 {
        lemma_set_cell(grid, x, y, alive, 0, 0);
    } else {
        assert(!grid.in_bounds(x, y));
    }
    lemma_same_cells(after, grid.set(x, y, alive));
}

/// A request for an alive colour and a dead colour that are the same is
/// turned down, and leaves the board and the settings as they were.
pub proof fn lemma_same_colors_rejected(
    grid: Grid,
    settings: GameSettings,
    color: Color,
    width: u32,
    height: u32,
    hits: Seq<bool>,
    done: Result<(), EventError>,
    grid_then: Grid,
    settings_then: GameSettings,
)
    requires
        outcome(
            grid,
            settings,
            UIEvent::ChangeColor(color, color),
            width,
            height,
            hits,
            done,
            grid_then,
            settings_then,
        ),
    ensures
        done == Err::<(), EventError>(EventError::SameColors),
        grid_then == grid,
        settings_then == settings,
{
}

/// Whether seeding a cleared board of `rows` by `columns` cells writes the
/// alive colour into cell `(x, y)`.
pub open spec fn seed_writes(
    rows: nat,
    columns: nat,
    seed: Seed,
    hits: Seq<bool>,
    x: int,
    y: int,
) -> bool {
    match seed {
        Seed::Random => y * rows + x < hits.len() && hits[y * rows + x],
        Seed::Spaceship => false,
        Seed::GosperGliderGun => gosper_picture().has(
            x - centred_start(rows, gosper_picture().width),
            y - centred_start(columns, gosper_picture().height()),
        ),
        Seed::SimkinGliderGun => simkin_picture().has(
            x - centred_start(rows, simkin_picture().width),
            y - centred_start(columns, simkin_picture().height()),
        ),
    }
}

/// After a change of the cell size that was carried out, the board has as
/// many whole cells as the viewport has room for in each direction, the
/// settings hold the new size, and every cell is dead but those that the
/// seed wrote.
pub proof fn lemma_cell_size_changed(
    grid: Grid,
    settings: GameSettings,
    size: u8,
    width: u32,
    height: u32,
    hits: Seq<bool>,
    done: Result<(), EventError>,
    grid_then: Grid,
    settings_then: GameSettings,
)
    requires
        outcome(
            grid,
            settings,
            UIEvent::ChangeCellSize(size),
            width,
            height,
            hits,
            done,
            grid_then,
            settings_then,
        ),
        done.is_ok(),
    ensures
        size > 0,
        grid_then.wf(),
        grid_then.rows == width as int / size as int,
        grid_then.columns == height as int / size as int,
        grid_then.rows > 0 && grid_then.columns > 0,
        settings_then.cell_size == size,
        forall|x: int, y: int|
            grid_then.in_bounds(x, y) ==> #[trigger] grid_then.cell(x, y) == (if seed_writes(
                grid_then.rows,
                grid_then.columns,
                settings.seed,
                hits,
                x,
                y,
            ) {
                settings.alive_color@
            } else {
                settings.dead_color@
            }),
{
    let alive = settings.alive_color@;
    let dead = settings.dead_color@;
    let fresh = fresh_grid(size, width, height, dead);
    assert(grid_then == fresh_seeded(
        GameSettings { cell_size: size, ..settings },
        width,
        height,
        hits,
    ));
    lemma_from_cells_wf(fresh.rows, fresh.columns, Grid::uniform(dead));
    assert forall|x: int, y: int| grid_then.in_bounds(x, y) implies #[trigger] grid_then.cell(x, y)
        == (if seed_writes(grid_then.rows, grid_then.columns, settings.seed, hits, x, y) {
        alive
    } else {
        dead
    }) by {
        lemma_filled_cell(fresh.rows, fresh.columns, dead, x, y);
        match settings.seed {
            Seed::Random => {
                lemma_sprinkled_cell(fresh, hits, alive, x, y);
            },
            Seed::Spaceship => {},
            Seed::GosperGliderGun => {
                lemma_stamped_cell(fresh, gosper_picture(), alive, dead, x, y);
            },
            Seed::SimkinGliderGun => {
                lemma_stamped_cell(fresh, simkin_picture(), alive, dead, x, y);
            },
        }
    }
}

} // verus!
