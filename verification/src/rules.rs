//! The rule of the game: from one generation to the next.

use vstd::prelude::*;
use crate::board::Board;
use crate::board::Color;
use crate::board::same_color;
use crate::grid::as_count;
use crate::grid::lemma_coords_in_range;
use crate::grid::rule;
use crate::settings::GameSettings;

verus! {

/// Whether a cell lives.
#[derive(PartialEq, Eq, Structural, Debug, Clone, Copy)]
pub enum State {
    Alive,
    Dead,
}

impl State {
    /// `Alive` for `true`, `Dead` for `false`.
    pub open spec fn of(alive: bool) -> State {
        if alive {
            State::Alive
        } else {
            State::Dead
        }
    }

    /// Classifies a colour: alive exactly when all four bytes are those of
    /// the alive colour. Any other colour is dead.
    pub fn cell_state(data: &Color, settings: &GameSettings) -> (state: State)
        ensures
            state == State::of(data@ == settings.alive_color@),
    {
        if same_color(data, &settings.alive_color) {
            State::Alive
        } else {
            State::Dead
        }
    }
}

/// How many of the neighbours exist and are alive.
pub open spec fn live_among(neighbours: Seq<Option<bool>>) -> nat
    decreases neighbours.len(),
{
    if neighbours.len() == 0 {
        0
    } else {
        live_among(neighbours.drop_last()) + as_count(neighbours.last() == Some(true))
    }
}

/// Whether a cell lives on, given whether it lives now and the state of
/// each of its eight neighbours, `None` for one beyond the edge.
pub fn is_cell_alive(alive: bool, neighbours: &[Option<bool>; 8]) -> (lives: bool)
    ensures
        lives == rule(alive, live_among(neighbours@)),
{
    let mut neighbours_alive: u8 = 0;
    let mut i: usize = 0;
    while i < 8
        invariant
            i <= 8,
            neighbours@.len() == 8,
            neighbours_alive <= i,
            neighbours_alive == live_among(neighbours@.take(i as int)),
        decreases 8 - i,
    {
        proof {
            assert(neighbours@.take(i + 1).drop_last() =~= neighbours@.take(i as int));
        }
        match neighbours[i] {
            Some(true) => {
                neighbours_alive = neighbours_alive + 1;
            },
            _ => {},
        }
        i = i + 1;
    }
    proof {
        assert(neighbours@.take(8) =~= neighbours@);
    }
    if alive {
        neighbours_alive == 2 || neighbours_alive == 3
    } else {
        neighbours_alive == 3
    }
}

/// 1 where cell `(x, y)` exists and is alive, else 0.
fn live_at(board: &Board, x: i64, y: i64, settings: &GameSettings) -> (count: u8)
    requires
        board.wf(),
    ensures
        count == as_count(board@.is_alive(x as int, y as int, settings.alive_color@)),
{
    match board.get(x, y) {
        Some(color) => match State::cell_state(&color, settings) {
            State::Alive => 1,
            State::Dead => 0,
        },
        None => 0,
    }
}

/// The state of cell `(x, y)` in the next generation.
pub fn cell_state(board: &Board, x: i64, y: i64, settings: &GameSettings) -> (state: State)
    requires
        board.wf(),
        board@.in_bounds(x as int, y as int),
    ensures
        state == State::of(board@.next_alive(x as int, y as int, settings.alive_color@)),
{
    proof {
        board.lemma_wf();
    }
    let neighbours_alive: u8 = live_at(board, x - 1, y - 1, settings) + live_at(
        board,
        x - 1,
        y,
        settings,
    ) + live_at(board, x - 1, y + 1, settings) + live_at(board, x, y - 1, settings) + live_at(
        board,
        x,
        y + 1,
        settings,
    ) + live_at(board, x + 1, y - 1, settings) + live_at(board, x + 1, y, settings) + live_at(
        board,
        x + 1,
        y + 1,
        settings,
    );
    let alive = live_at(board, x, y, settings) == 1;
    if alive {
        if neighbours_alive == 2 || neighbours_alive == 3 {
            State::Alive
        } else {
            State::Dead
        }
    } else {
        if neighbours_alive == 3 {
            State::Alive
        } else {
            State::Dead
        }
    }
}

/// Advances the board by one generation. Every cell is computed from the
/// generation before; the new buffer replaces the old one when it is
/// complete.
pub fn advance(board: &mut Board, settings: &GameSettings)
    requires
        old(board).wf(),
    ensures
        final(board).wf(),
        final(board)@ == old(board)@.step(settings.alive_color@, settings.dead_color@),
{
    let cells = board.cell_count();
    let rows = board.rows() as usize;
    let ghost target = board@.step(settings.alive_color@, settings.dead_color@);
    proof {
        board.lemma_wf();
    }
    let mut next: Vec<u8> = Vec::with_capacity(board.data().len());
    let mut i: usize = 0;
    while i < cells
        invariant
            board.wf(),
            *board == *old(board),
            i <= cells,
            cells == board@.rows * board@.columns,
            4 * cells <= usize::MAX,
            rows == board@.rows,
            board@.rows <= u32::MAX,
            board@.columns <= u32::MAX,
            target == board@.step(settings.alive_color@, settings.dead_color@),
            next@.len() == 4 * i,
            forall|k: int| 0 <= k < 4 * i ==> next@[k] == target.bytes[k],
        decreases cells - i,
    {
        proof {
            lemma_coords_in_range(board@.rows, board@.columns, i as int);
        }
        let x = (i % rows) as i64;
        let y = (i / rows) as i64;
        let color = match cell_state(board, x, y, settings) {
            State::Alive => settings.alive_color,
            State::Dead => settings.dead_color,
        };
        next.push(color[0]);
        next.push(color[1]);
        next.push(color[2]);
        next.push(color[3]);
        i = i + 1;
    }
    board.replace(next);
    proof {
        assert(board@.bytes =~= target.bytes);
    }
}

/// Whether a generation is due: more than `step` microseconds have passed
/// since `previous`.
pub open spec fn tick_due(previous: u64, now: u64, step: u64) -> bool {
    now - previous > step
}

/// Whether a generation is due at time `now`.
pub fn is_tick_due(previous: u64, now: u64, step: u64) -> (due: bool)
    ensures
        due == tick_due(previous, now, step),
{
    now > previous && now - previous > step
}

/// One visit of the update loop at time `now`, in microseconds of a
/// monotonic clock. Where more than the tick interval has passed since
/// `previous_tick`, the whole board advances by one generation and `now`
/// is remembered; otherwise nothing changes.
pub fn process_cells(
    board: &mut Board,
    settings: &GameSettings,
    previous_tick: &mut u64,
    now: u64,
) -> (ticked: bool)
    requires
        old(board).wf(),
    ensures
        final(board).wf(),
        ticked == tick_due(*old(previous_tick), now, settings.time_step_micros),
        ticked ==> *final(previous_tick) == now && final(board)@ == old(board)@.step(
            settings.alive_color@,
            settings.dead_color@,
        ),
        !ticked ==> *final(previous_tick) == *old(previous_tick) && final(board)@ == old(board)@,
{
    if !is_tick_due(*previous_tick, now, settings.time_step_micros) {
        return false;
    }
    *previous_tick = now;
    advance(board, settings);
    true
}

} // verus!
