//! Reconfiguration while the simulation runs: colours, seed, tick interval
//! and cell size.

use vstd::prelude::*;
use crate::board::Board;
use crate::board::Color;
use crate::board::same_color;
use crate::brush::Brush;
use crate::grid::Grid;
use crate::grid::lemma_coords_in_range;
use crate::grid::lemma_from_cells;
use crate::rules::State;
use crate::seed::Density;
use crate::seed::draw_for;
use crate::seed::drawn;
use crate::seed::seed_applies;
use crate::seed::seed_fits;
use crate::seed::seed_with;
use crate::seed::seeded;
use crate::settings::GameSettings;
use crate::settings::Seed;

verus! {

/// A request to change the running simulation.
#[derive(Debug, Clone, Copy)]
pub enum UIEvent {
    /// The new alive colour and the new dead colour.
    ChangeColor(Color, Color),
    /// The seed to fill the board with anew.
    ChangeSeed(Seed),
    /// The new tick interval in microseconds.
    ChangeTimestep(u64),
    /// The new edge of a cell in pixels.
    ChangeCellSize(u8),
}

/// Why a request was turned down. A request that is turned down changes
/// nothing.
#[derive(PartialEq, Eq, Structural, Debug, Clone, Copy)]
pub enum EventError {
    /// The alive colour and the dead colour would be the same.
    SameColors,
    /// The tick interval would be zero.
    ZeroTimestep,
    /// The cell size would be zero.
    ZeroCellSize,
    /// The viewport has no room for a single cell of that size in one of
    /// its directions.
    EmptyBoard,
    /// The board's buffer could not be addressed on this machine.
    BoardTooLarge,
    /// The seed's pattern is wider or higher than the board.
    BoardTooSmall,
}

/// Why no board can be made for a viewport of this size in pixels with
/// cells of this size, or `None` where one can.
pub open spec fn board_rejection(cell_size: u8, width: u32, height: u32) -> Option<EventError> {
    if cell_size == 0 {
        Some(EventError::ZeroCellSize)
    } else if width as int / cell_size as int == 0 || height as int / cell_size as int == 0 {
        Some(EventError::EmptyBoard)
    } else if 4 * ((width as int / cell_size as int) * (height as int / cell_size as int))
        > usize::MAX {
        Some(EventError::BoardTooLarge)
    } else {
        None
    }
}

/// The board that a viewport of this size in pixels has room for, every
/// cell dead: as many whole cells as fit in each direction.
pub open spec fn fresh_grid(cell_size: u8, width: u32, height: u32, dead: Seq<u8>) -> Grid {
    Grid::filled(
        (width as int / cell_size as int) as nat,
        (height as int / cell_size as int) as nat,
        dead,
    )
}

/// Why no seeded board can be made for the viewport with these settings, or
/// `None` where one can: the board itself cannot be made, or it is too
/// small for the pattern of the settings' seed.
pub open spec fn setup_rejection(settings: GameSettings, width: u32, height: u32) -> Option<
    EventError,
> {
    if board_rejection(settings.cell_size, width, height).is_some() {
        board_rejection(settings.cell_size, width, height)
    } else if seed_fits(
        fresh_grid(settings.cell_size, width, height, settings.dead_color@),
        settings.seed,
    ) {
        None
    } else {
        Some(EventError::BoardTooSmall)
    }
}

/// The board that `setup` makes: a fresh one for the viewport, seeded as the
/// settings say, given the draws that a random seed uses.
pub open spec fn fresh_seeded(settings: GameSettings, width: u32, height: u32, hits: Seq<bool>) -> Grid {
    seeded(
        fresh_grid(settings.cell_size, width, height, settings.dead_color@),
        settings.seed,
        hits,
        settings.alive_color@,
        settings.dead_color@,
    )
}

/// The grid with each cell that held `was_alive` set to `alive` and every
/// other cell set to `dead`.
pub open spec fn recolored(grid: Grid, was_alive: Seq<u8>, alive: Seq<u8>, dead: Seq<u8>) -> Grid {
    Grid::from_cells(grid.rows, grid.columns, recolored_cells(grid, was_alive, alive, dead))
}

/// The new colour of each cell.
pub open spec fn recolored_cells(
    grid: Grid,
    was_alive: Seq<u8>,
    alive: Seq<u8>,
    dead: Seq<u8>,
) -> spec_fn(int, int) -> Seq<u8> {
    |x: int, y: int|
        if grid.cell(x, y) == was_alive {
            alive
        } else {
            dead
        }
}

/// What a cell holds after new colours were set: the new alive colour where
/// it held the old one, else the new dead colour.
pub proof fn lemma_recolored_cell(
    grid: Grid,
    was_alive: Seq<u8>,
    alive: Seq<u8>,
    dead: Seq<u8>,
    x: int,
    y: int,
)
    requires
        grid.in_bounds(x, y),
        alive.len() == 4,
        dead.len() == 4,
    ensures
        recolored(grid, was_alive, alive, dead).cell(x, y) == (if grid.cell(x, y) == was_alive {
            alive
        } else {
            dead
        }),
{
    lemma_from_cells(
        grid.rows,
        grid.columns,
        recolored_cells(grid, was_alive, alive, dead),
        x,
        y,
    );
}

/// Why a request is turned down, or `None` where it is carried out.
pub open spec fn rejection(
    grid: Grid,
    settings: GameSettings,
    event: UIEvent,
    width: u32,
    height: u32,
) -> Option<EventError> {
    match event {
        UIEvent::ChangeColor(alive, dead) => if alive@ == dead@ {
            Some(EventError::SameColors)
        } else {
            None
        },
        UIEvent::ChangeSeed(kind) => if seed_fits(grid, kind) {
            None
        } else {
            Some(EventError::BoardTooSmall)
        },
        UIEvent::ChangeTimestep(micros) => if micros == 0 {
            Some(EventError::ZeroTimestep)
        } else {
            None
        },
        UIEvent::ChangeCellSize(size) => setup_rejection(
            GameSettings { cell_size: size, ..settings },
            width,
            height,
        ),
    }
}

/// The board after a request that is carried out, given the draws that a
/// random seed uses.
pub open spec fn grid_after(
    grid: Grid,
    settings: GameSettings,
    event: UIEvent,
    width: u32,
    height: u32,
    hits: Seq<bool>,
) -> Grid {
    match event {
        UIEvent::ChangeColor(alive, dead) => recolored(grid, settings.alive_color@, alive@, dead@),
        UIEvent::ChangeSeed(kind) => seeded(
            Grid::filled(grid.rows, grid.columns, settings.dead_color@),
            kind,
            hits,
            settings.alive_color@,
            settings.dead_color@,
        ),
        UIEvent::ChangeTimestep(micros) => grid,
        UIEvent::ChangeCellSize(size) => fresh_seeded(
            GameSettings { cell_size: size, ..settings },
            width,
            height,
            hits,
        ),
    }
}

/// The settings after a request that is carried out.
pub open spec fn settings_after(settings: GameSettings, event: UIEvent) -> GameSettings {
    match event {
        UIEvent::ChangeColor(alive, dead) => GameSettings {
            alive_color: alive,
            dead_color: dead,
            ..settings
        },
        UIEvent::ChangeSeed(kind) => GameSettings { seed: kind, ..settings },
        UIEvent::ChangeTimestep(micros) => GameSettings { time_step_micros: micros, ..settings },
        UIEvent::ChangeCellSize(size) => GameSettings { cell_size: size, ..settings },
    }
}

/// What a request does: turned down, it changes nothing; carried out, it
/// leaves the board and the settings as `grid_after` and `settings_after`
/// say.
pub open spec fn outcome(
    grid: Grid,
    settings: GameSettings,
    event: UIEvent,
    width: u32,
    height: u32,
    hits: Seq<bool>,
    done: Result<(), EventError>,
    grid_then: Grid,
    settings_then: GameSettings,
) -> bool {
    match rejection(grid, settings, event, width, height) {
        Some(e) => done == Err::<(), EventError>(e) && grid_then == grid && settings_then
            == settings,
        None => done == Ok::<(), EventError>(()) && grid_then == grid_after(
            grid,
            settings,
            event,
            width,
            height,
            hits,
        ) && settings_then == settings_after(settings, event),
    }
}

/// How many draws a request takes where it seeds at random: one for each
/// cell of the board that it seeds. Other requests take none.
pub open spec fn draws_needed(
    grid: Grid,
    settings: GameSettings,
    event: UIEvent,
    width: u32,
    height: u32,
) -> nat {
    match event {
        UIEvent::ChangeSeed(kind) => if kind == Seed::Random {
            grid.cell_count()
        } else {
            0
        },
        UIEvent::ChangeCellSize(size) => setup_draws(
            GameSettings { cell_size: size, ..settings },
            width,
            height,
        ),
        _ => 0,
    }
}

/// The dimensions in cells of the board for a viewport of `width` by
/// `height` pixels: as many whole cells of the given size as fit in each
/// direction.
pub fn board_dimensions(cell_size: u8, width: u32, height: u32) -> (dimensions: Result<
    (u32, u32),
    EventError,
>)
    ensures
        dimensions.is_err() <==> board_rejection(cell_size, width, height).is_some(),
        dimensions matches Err(e) ==> Some(e) == board_rejection(cell_size, width, height),
        dimensions matches Ok((rows, columns)) ==> rows == width as int / cell_size as int
            && columns == height as int / cell_size as int,
{
    if cell_size == 0 {
        return Err(EventError::ZeroCellSize);
    }
    let rows: u32 = width / (cell_size as u32);
    let columns: u32 = height / (cell_size as u32);
    if rows == 0 || columns == 0 {
        return Err(EventError::EmptyBoard);
    }
    match (rows as usize).checked_mul(columns as usize) {
        Some(cells) => if cells > usize::MAX / 4 {
            Err(EventError::BoardTooLarge)
        } else {
            Ok((rows, columns))
        },
        None => Err(EventError::BoardTooLarge),
    }
}

/// A board for a viewport of `width` by `height` pixels, with as many whole
/// cells of the settings' size as fit in each direction, every cell dead.
pub fn create_board(settings: &GameSettings, width: u32, height: u32) -> (made: Result<
    Board,
    EventError,
>)
    ensures
        made.is_err() <==> board_rejection(settings.cell_size, width, height).is_some(),
        made matches Err(e) ==> Some(e) == board_rejection(settings.cell_size, width, height),
        made matches Ok(board) ==> board.wf() && board@ == fresh_grid(
            settings.cell_size,
            width,
            height,
            settings.dead_color@,
        ),
{
    match board_dimensions(settings.cell_size, width, height) {
        Ok((rows, columns)) => match Board::new(rows, columns, settings.dead_color) {
            Some(board) => Ok(board),
            None => Err(EventError::BoardTooLarge),
        },
        Err(e) => Err(e),
    }
}

/// How many draws seeding a fresh board for the viewport takes: one per
/// cell where the settings' seed is random and the board can be made, else
/// none.
pub open spec fn setup_draws(settings: GameSettings, width: u32, height: u32) -> nat {
    if settings.seed == Seed::Random && board_rejection(settings.cell_size, width, height).is_none() {
        fresh_grid(settings.cell_size, width, height, settings.dead_color@).cell_count()
    } else {
        0
    }
}

/// Some row of draws made with this density, as many as `setup_draws`
/// says, accounts for the grid as the seeded board for the viewport.
pub open spec fn set_up_by_chance(
    settings: GameSettings,
    width: u32,
    height: u32,
    density: Density,
    grid: Grid,
) -> bool {
    exists|hits: Seq<bool>|
        hits.len() == setup_draws(settings, width, height) && drawn(density, hits) && grid
            == #[trigger] fresh_seeded(settings, width, height, hits)
}

/// A board for the viewport, seeded as the settings say, with the draws in
/// `hits` where the seed is random.
pub fn setup_with(settings: &GameSettings, width: u32, height: u32, hits: &Vec<bool>) -> (made:
    Result<Board, EventError>)
    ensures
        made.is_err() <==> setup_rejection(*settings, width, height).is_some(),
        made matches Err(e) ==> Some(e) == setup_rejection(*settings, width, height),
        made matches Ok(board) ==> board.wf() && board@ == fresh_seeded(
            *settings,
            width,
            height,
            hits@,
        ),
{
    match create_board(settings, width, height) {
        Err(e) => Err(e),
        Ok(mut board) => match seed_with(&mut board, settings, hits) {
            Ok(()) => Ok(board),
            Err(_) => Err(EventError::BoardTooSmall),
        },
    }
}

/// The draws that seeding a fresh board for the viewport takes.
pub fn draw_for_setup(settings: &GameSettings, width: u32, height: u32, density: &Density) -> (hits:
    Vec<bool>)
    requires
        density.wf(),
    ensures
        hits@.len() == setup_draws(*settings, width, height),
        drawn(*density, hits@),
{
    match board_dimensions(settings.cell_size, width, height) {
        Ok((rows, columns)) => draw_for(settings.seed, (rows as usize) * (columns as usize), density),
        Err(_) => Vec::new(),
    }
}

/// What a simulation starts with: a board for the viewport, seeded as the
/// settings say, at random with the given density where the seed asks for
/// it, and the smallest brush.
pub fn setup(settings: &GameSettings, width: u32, height: u32, density: &Density) -> (made: Result<
    (Board, Brush),
    EventError,
>)
    requires
        density.wf(),
    ensures
        made.is_err() <==> setup_rejection(*settings, width, height).is_some(),
        made matches Err(e) ==> Some(e) == setup_rejection(*settings, width, height),
        made matches Ok((board, brush)) ==> board.wf() && brush.size == 1 && set_up_by_chance(
            *settings,
            width,
            height,
            *density,
            board@,
        ),
{
    let hits = draw_for_setup(settings, width, height, density);
    match setup_with(settings, width, height, &hits) {
        Ok(board) => Ok((board, Brush::new())),
        Err(e) => Err(e),
    }
}

/// The requests that a settings panel sends when its user has edited the
/// settings: new colours where either differs and the two can be told
/// apart, then a new seed, a new tick interval and a new cell size, each
/// where it differs.
pub open spec fn requests(current: GameSettings, edited: GameSettings) -> Seq<UIEvent> {
    let colors: Seq<UIEvent> = if (edited.alive_color@ != current.alive_color@
        || edited.dead_color@ != current.dead_color@) && edited.alive_color@
        != edited.dead_color@ {
        seq![UIEvent::ChangeColor(edited.alive_color, edited.dead_color)]
    } else {
        seq![]
    };
    let seed: Seq<UIEvent> = if edited.seed != current.seed {
        seq![UIEvent::ChangeSeed(edited.seed)]
    } else {
        seq![]
    };
    let step: Seq<UIEvent> = if edited.time_step_micros != current.time_step_micros {
        seq![UIEvent::ChangeTimestep(edited.time_step_micros)]
    } else {
        seq![]
    };
    let size: Seq<UIEvent> = if edited.cell_size != current.cell_size {
        seq![UIEvent::ChangeCellSize(edited.cell_size)]
    } else {
        seq![]
    };
    colors + seed + step + size
}

/// Compares what a settings panel shows after its user has edited it with
/// the settings in force, and makes the requests that bring the one to the
/// other.
pub fn ui_events(current: &GameSettings, edited: &GameSettings) -> (events: Vec<UIEvent>)
    ensures
        events@ == requests(*current, *edited),
{
    let mut events: Vec<UIEvent> = Vec::new();
    let colors_differ = !same_color(&edited.alive_color, &current.alive_color) || !same_color(
        &edited.dead_color,
        &current.dead_color,
    );
    if colors_differ && !same_color(&edited.alive_color, &edited.dead_color) {
        events.push(UIEvent::ChangeColor(edited.alive_color, edited.dead_color));
    }
    if edited.seed != current.seed {
        events.push(UIEvent::ChangeSeed(edited.seed));
    }
    if edited.time_step_micros != current.time_step_micros {
        events.push(UIEvent::ChangeTimestep(edited.time_step_micros));
    }
    if edited.cell_size != current.cell_size {
        events.push(UIEvent::ChangeCellSize(edited.cell_size));
    }
    proof {
        assert(events@ =~= requests(*current, *edited));
    }
    events
}

/// Sets every cell dead.
pub fn reset_board(board: &mut Board, settings: &GameSettings)
    requires
        old(board).wf(),
    ensures
        final(board).wf(),
        final(board)@ == Grid::filled(old(board)@.rows, old(board)@.columns, settings.dead_color@),
{
    board.clear_to(settings.dead_color);
}

/// Rewrites the board in new colours: the cells that are alive under the
/// settings' alive colour get `alive`, all others get `dead`.
fn recolor(board: &mut Board, settings: &GameSettings, alive: &Color, dead: &Color)
    requires
        old(board).wf(),
    ensures
        final(board).wf(),
        final(board)@ == recolored(old(board)@, settings.alive_color@, alive@, dead@),
{
    let cells = board.cell_count();
    let ghost before = board@;
    let ghost target = recolored(before, settings.alive_color@, alive@, dead@);
    proof {
        board.lemma_wf();
    }
    let mut i: usize = 0;
    while i < cells
        invariant
            board.wf(),
            before == old(board)@,
            i <= cells,
            cells == before.rows * before.columns,
            board@.rows == before.rows,
            board@.columns == before.columns,
            board@.bytes.len() == before.bytes.len(),
            before.bytes.len() == 4 * cells,
            target == recolored(before, settings.alive_color@, alive@, dead@),
            forall|k: int| 0 <= k < 4 * i ==> board@.bytes[k] == target.bytes[k],
            forall|k: int| 4 * i <= k < 4 * cells ==> board@.bytes[k] == before.bytes[k],
        decreases cells - i,
    {
        proof {
            lemma_coords_in_range(before.rows, before.columns, i as int);
        }
        let current = board.cell_at(i);
        proof {
            assert(current@ =~= before.cell(
                i as int % before.rows as int,
                i as int / before.rows as int,
            ));
        }
        match State::cell_state(&current, settings) {
            State::Alive => board.put(i, alive),
            State::Dead => board.put(i, dead),
        }
        i = i + 1;
    }
    proof {
        assert(board@.bytes =~= target.bytes);
    }
}

/// Carries out one request, with the draws in `hits` where it seeds at
/// random. A request that cannot be carried out is turned down and changes
/// neither the board nor the settings.
///
/// New colours are told apart by the colours in force before the request.
/// A new seed is applied to the board cleared to the dead colour. A new
/// cell size replaces the board by a fresh one for the viewport of `width`
/// by `height` pixels, seeded as the settings say.
pub fn handle_ui_event_with(
    board: &mut Board,
    settings: &mut GameSettings,
    event: UIEvent,
    width: u32,
    height: u32,
    hits: &Vec<bool>,
) -> (done: Result<(), EventError>)
    requires
        old(board).wf(),
    ensures
        final(board).wf(),
        old(settings).wf() ==> final(settings).wf(),
        outcome(
            old(board)@,
            *old(settings),
            event,
            width,
            height,
            hits@,
            done,
            final(board)@,
            *final(settings),
        ),
{
    match event {
        UIEvent::ChangeColor(alive, dead) => {
            if same_color(&alive, &dead) {
                return Err(EventError::SameColors);
            }
            recolor(board, settings, &alive, &dead);
            settings.alive_color = alive;
            settings.dead_color = dead;
            Ok(())
        },
        UIEvent::ChangeSeed(kind) => {
            let mut fresh = *settings;
            fresh.seed = kind;
            let ghost before = board@;
            if !seed_applies(board, kind) {
                return Err(EventError::BoardTooSmall);
            }
            reset_board(board, &fresh);
            match seed_with(board, &fresh, hits) {
                Ok(()) => {
                    settings.seed = kind;
                    Ok(())
                },
                Err(_) => Err(EventError::BoardTooSmall),
            }
        },
        UIEvent::ChangeTimestep(micros) => {
            if micros == 0 {
                return Err(EventError::ZeroTimestep);
            }
            settings.time_step_micros = micros;
            Ok(())
        },
        UIEvent::ChangeCellSize(size) => {
            let mut fresh = *settings;
            fresh.cell_size = size;
            match setup_with(&fresh, width, height, hits) {
                Ok(rebuilt) => {
                    *board = rebuilt;
                    settings.cell_size = size;
                    Ok(())
                },
                Err(e) => Err(e),
            }
        },
    }
}

/// The draws that a request takes: one for each cell of the board that it
/// seeds at random, none otherwise.
pub fn draw_for_event(
    board: &Board,
    settings: &GameSettings,
    event: UIEvent,
    width: u32,
    height: u32,
    density: &Density,
) -> (hits: Vec<bool>)
    requires
        board.wf(),
        density.wf(),
    ensures
        hits@.len() == draws_needed(board@, *settings, event, width, height),
        drawn(*density, hits@),
{
    match event {
        UIEvent::ChangeSeed(kind) => draw_for(kind, board.cell_count(), density),
        UIEvent::ChangeCellSize(size) => {
            let mut fresh = *settings;
            fresh.cell_size = size;
            draw_for_setup(&fresh, width, height, density)
        },
        _ => Vec::new(),
    }
}

/// Carries out one request, seeding at random with the given density where
/// the request asks for it. A request that cannot be carried out is turned
/// down and changes neither the board nor the settings. Of a random seed it
/// is certain that some row of draws, one per cell, accounts for the board.
pub fn handle_ui_event(
    board: &mut Board,
    settings: &mut GameSettings,
    event: UIEvent,
    width: u32,
    height: u32,
    density: &Density,
) -> (done: Result<(), EventError>)
    requires
        old(board).wf(),
        density.wf(),
    ensures
        final(board).wf(),
        old(settings).wf() ==> final(settings).wf(),
        outcome_by_chance(
            old(board)@,
            *old(settings),
            event,
            width,
            height,
            *density,
            done,
            final(board)@,
            *final(settings),
        ),
{
    let hits = draw_for_event(board, settings, event, width, height, density);
    handle_ui_event_with(board, settings, event, width, height, &hits)
}

/// What a request does where it may seed at random: some row of draws made
/// with this density, as many as `draws_needed` says, accounts for it.
pub open spec fn outcome_by_chance(
    grid: Grid,
    settings: GameSettings,
    event: UIEvent,
    width: u32,
    height: u32,
    density: Density,
    done: Result<(), EventError>,
    grid_then: Grid,
    settings_then: GameSettings,
) -> bool {
    exists|hits: Seq<bool>|
        hits.len() == draws_needed(grid, settings, event, width, height) && drawn(density, hits)
            && #[trigger] outcome(
            grid,
            settings,
            event,
            width,
            height,
            hits,
            done,
            grid_then,
            settings_then,
        )
}

/// What a row of requests does, one after the other: each is carried out or
/// turned down on the board and the settings that the one before it left,
/// with draws of its own.
pub open spec fn outcomes(
    grid: Grid,
    settings: GameSettings,
    events: Seq<UIEvent>,
    width: u32,
    height: u32,
    density: Density,
    done: Seq<Result<(), EventError>>,
    grid_then: Grid,
    settings_then: GameSettings,
) -> bool
    decreases events.len(),
{
    if events.len() == 0 {
        done.len() == 0 && grid_then == grid && settings_then == settings
    } else {
        &&& done.len() == events.len()
        &&& exists|mid_grid: Grid, mid_settings: GameSettings|
            {
                &&& outcomes(
                    grid,
                    settings,
                    events.drop_last(),
                    width,
                    height,
                    density,
                    done.drop_last(),
                    mid_grid,
                    mid_settings,
                )
                &&& #[trigger] outcome_by_chance(
                    mid_grid,
                    mid_settings,
                    events.last(),
                    width,
                    height,
                    density,
                    done.last(),
                    grid_then,
                    settings_then,
                )
            }
    }
}

/// Carries out the requests in the order in which they came, and says of
/// each whether it was carried out.
pub fn handle_ui_events(
    board: &mut Board,
    settings: &mut GameSettings,
    events: &Vec<UIEvent>,
    width: u32,
    height: u32,
    density: &Density,
) -> (done: Vec<Result<(), EventError>>)
    requires
        old(board).wf(),
        density.wf(),
    ensures
        final(board).wf(),
        old(settings).wf() ==> final(settings).wf(),
        outcomes(
            old(board)@,
            *old(settings),
            events@,
            width,
            height,
            *density,
            done@,
            final(board)@,
            *final(settings),
        ),
{
    let mut done: Vec<Result<(), EventError>> = Vec::new();
    let mut i: usize = 0;
    while i < events.len()
        invariant
            board.wf(),
            density.wf(),
            i <= events@.len(),
            done@.len() == i,
            old(settings).wf() ==> settings.wf(),
            outcomes(
                old(board)@,
                *old(settings),
                events@.take(i as int),
                width,
                height,
                *density,
                done@,
                board@,
                *settings,
            ),
        decreases events@.len() - i,
    {
        let ghost mid_grid = board@;
        let ghost mid_settings = *settings;
        let ghost earlier = done@;
        let event = events[i];
        let result = handle_ui_event(board, settings, event, width, height, density);
        done.push(result);
        proof {
            let served = events@.take(i + 1);
            assert(served.drop_last() =~= events@.take(i as int));
            assert(done@.drop_last() =~= earlier);
            assert(outcome_by_chance(
                mid_grid,
                mid_settings,
                served.last(),
                width,
                height,
                *density,
                done@.last(),
                board@,
                *settings,
            ));
        }
        i = i + 1;
    }
    proof {
        assert(events@.take(i as int) =~= events@);
    }
    done
}

} // verus!
