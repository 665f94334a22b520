//! Seeding: filling a board with its first generation.

use vstd::prelude::*;
use rand::Rng;
use rand::rngs::ThreadRng;
use crate::board::Board;
use crate::grid::Grid;
use crate::grid::lemma_cell_len;
use crate::grid::lemma_coords_in_range;
use crate::grid::lemma_from_cells;
use crate::pattern::GOSPER_GLIDER_GUN;
use crate::pattern::GOSPER_WIDTH;
use crate::pattern::SIMKIN_GLIDER_GUN;
use crate::pattern::SIMKIN_WIDTH;
use crate::pattern::Pattern;
use crate::pattern::Picture;
use crate::pattern::gosper_picture;
use crate::pattern::simkin_picture;
use crate::settings::GameSettings;
use crate::settings::Seed;

verus! {

/// The generator of the `rand` crate that each thread has for itself. Verus
/// sees nothing inside it.
#[verifier::external_type_specification]
#[verifier::external_body]
pub struct ExThreadRng(rand::rngs::ThreadRng);

/// `rand::thread_rng` hands out the calling thread's generator, seeded by
/// the system. Nothing is said of the generator. The crate gives up where
/// the system has no randomness to seed it with.
pub assume_specification[ rand::thread_rng ]() -> (rng: ThreadRng);

/// `Rng::gen_ratio`: `true` with a chance of `numerator` in `denominator`.
/// Of a single draw only the two ends are certain, as the crate documents
/// them: never `true` at 0, always `true` where the two numbers are equal.
/// The crate panics on a zero denominator and on a numerator above the
/// denominator, so neither is admitted.
#[verifier::external_body]
fn gen_ratio(rng: &mut ThreadRng, numerator: u32, denominator: u32) -> (hit: bool)
    requires
        denominator > 0,
        numerator <= denominator,
    ensures
        numerator == 0 ==> !hit,
        numerator == denominator ==> hit,
{
    rng.gen_ratio(numerator, denominator)
}

/// The chance of a cell to be seeded alive, as a ratio of whole numbers.
#[derive(Debug, Clone, Copy)]
pub struct Density {
    pub numerator: u32,
    pub denominator: u32,
}

impl Density {
    /// A ratio between 0 and 1.
    pub open spec fn wf(&self) -> bool {
        0 < self.denominator && self.numerator <= self.denominator
    }

    /// The chance of `numerator` in `denominator`, where that is a chance.
    pub fn new(numerator: u32, denominator: u32) -> (made: Option<Density>)
        ensures
            made.is_some() <==> (0 < denominator && numerator <= denominator),
            made matches Some(density) ==> density.wf() && density.numerator == numerator
                && density.denominator == denominator,
    {
        if denominator == 0 || numerator > denominator {
            None
        } else {
            Some(Density { numerator, denominator })
        }
    }
}

impl Default for Density {
    /// One in two.
    fn default() -> (density: Density)
        ensures
            density.wf(),
            density.numerator == 1,
            density.denominator == 2,
    {
        Density { numerator: 1, denominator: 2 }
    }
}

/// Why a board was not seeded.
#[derive(PartialEq, Eq, Structural, Debug, Clone, Copy)]
pub enum SeedError {
    /// The pattern is wider or higher than the board.
    BoardTooSmall,
}

/// Where a picture `size` cells long begins on a board `extent` cells long,
/// so that it lies in the middle.
pub open spec fn centred_start(extent: nat, size: nat) -> int {
    extent / 2 - size / 2
}

/// The picture is no wider and no higher than the grid.
pub open spec fn fits(grid: Grid, picture: Picture) -> bool {
    picture.width <= grid.rows && picture.height() <= grid.columns
}

/// The grid cleared to `dead`, with the picture in its middle: a cell is
/// `alive` where the picture has a live cell, and `dead` everywhere else,
/// within the picture's box and beyond it.
pub open spec fn stamped(grid: Grid, picture: Picture, alive: Seq<u8>, dead: Seq<u8>) -> Grid {
    Grid::from_cells(grid.rows, grid.columns, stamped_cells(grid, picture, alive, dead))
}

/// The colour of each cell of a cleared grid with the picture in its
/// middle.
pub open spec fn stamped_cells(
    grid: Grid,
    picture: Picture,
    alive: Seq<u8>,
    dead: Seq<u8>,
) -> spec_fn(int, int) -> Seq<u8> {
    |x: int, y: int|
        if picture.has(
            x - centred_start(grid.rows, picture.width),
            y - centred_start(grid.columns, picture.height()),
        ) {
            alive
        } else {
            dead
        }
}

/// The grid with each cell set to `alive` whose draw, found by the cell's
/// position in row-major order, came out `true`. The other cells, and those
/// for which there is no draw, are kept.
pub open spec fn sprinkled(grid: Grid, hits: Seq<bool>, alive: Seq<u8>) -> Grid {
    Grid::from_cells(grid.rows, grid.columns, sprinkled_cells(grid, hits, alive))
}

/// The colour of each cell after the draws.
pub open spec fn sprinkled_cells(grid: Grid, hits: Seq<bool>, alive: Seq<u8>) -> spec_fn(
    int,
    int,
) -> Seq<u8> {
    |x: int, y: int|
        if grid.index(x, y) < hits.len() && hits[grid.index(x, y)] {
            alive
        } else {
            grid.cell(x, y)
        }
}

/// A picture that fits lies on the board with its whole box.
pub proof fn lemma_centred_within(extent: nat, size: nat)
    requires
        size <= extent,
    ensures
        0 <= centred_start(extent, size),
        centred_start(extent, size) + size <= extent,
{
}

/// What a cell holds after a pattern was written: the alive colour where
/// the picture, laid into the middle, has a live cell, else the dead colour.
pub proof fn lemma_stamped_cell(
    grid: Grid,
    picture: Picture,
    alive: Seq<u8>,
    dead: Seq<u8>,
    x: int,
    y: int,
)
    requires
        grid.in_bounds(x, y),
        alive.len() == 4,
        dead.len() == 4,
    ensures
        stamped(grid, picture, alive, dead).cell(x, y) == (if picture.has(
            x - centred_start(grid.rows, picture.width),
            y - centred_start(grid.columns, picture.height()),
        ) {
            alive
        } else {
            dead
        }),
{
    lemma_from_cells(grid.rows, grid.columns, stamped_cells(grid, picture, alive, dead), x, y);
}

/// What a cell holds after the draws: the alive colour where its draw came
/// out `true`, else what it held before.
pub proof fn lemma_sprinkled_cell(grid: Grid, hits: Seq<bool>, alive: Seq<u8>, x: int, y: int)
    requires
        grid.wf(),
        grid.in_bounds(x, y),
        alive.len() == 4,
    ensures
        sprinkled(grid, hits, alive).cell(x, y) == (if grid.index(x, y) < hits.len()
            && hits[grid.index(x, y)] {
            alive
        } else {
            grid.cell(x, y)
        }),
{
    lemma_cell_len(grid, x, y);
    lemma_from_cells(grid.rows, grid.columns, sprinkled_cells(grid, hits, alive), x, y);
}

/// Whether a board of this size can take the seed.
pub open spec fn seed_fits(grid: Grid, seed: Seed) -> bool {
    match seed {
        Seed::Random => true,
        Seed::Spaceship => true,
        Seed::GosperGliderGun => fits(grid, gosper_picture()),
        Seed::SimkinGliderGun => fits(grid, simkin_picture()),
    }
}

/// The grid after seeding, given the draws that a random seed uses.
pub open spec fn seeded(grid: Grid, seed: Seed, hits: Seq<bool>, alive: Seq<u8>, dead: Seq<u8>) -> Grid {
    match seed {
        Seed::Random => sprinkled(grid, hits, alive),
        Seed::Spaceship => grid,
        Seed::GosperGliderGun => stamped(grid, gosper_picture(), alive, dead),
        Seed::SimkinGliderGun => stamped(grid, simkin_picture(), alive, dead),
    }
}

/// What is certain of draws made with this density: at 0 none is `true`, at
/// 1 all are.
pub open spec fn drawn(density: Density, hits: Seq<bool>) -> bool {
    &&& density.numerator == 0 ==> forall|i: int| 0 <= i < hits.len() ==> !hits[i]
    &&& density.numerator == density.denominator ==> forall|i: int| 0 <= i < hits.len() ==> hits[i]
}

/// Some row of draws made with this density, one per cell, turns `before`
/// into `after` when the cells are set alive by it.
pub open spec fn sprinkled_by_chance(
    before: Grid,
    after: Grid,
    density: Density,
    alive: Seq<u8>,
) -> bool {
    exists|hits: Seq<bool>|
        hits.len() == before.cell_count() && drawn(density, hits) && after == #[trigger] sprinkled(
            before,
            hits,
            alive,
        )
}

/// Some row of draws made with this density, one per cell where the seed is
/// random, turns `before` into `after` when the board is seeded with it.
pub open spec fn seeded_by_chance(
    before: Grid,
    after: Grid,
    seed: Seed,
    density: Density,
    alive: Seq<u8>,
    dead: Seq<u8>,
) -> bool {
    exists|hits: Seq<bool>|
        (seed == Seed::Random ==> hits.len() == before.cell_count()) && drawn(density, hits)
            && after == #[trigger] seeded(before, seed, hits, alive, dead)
}

/// One draw per cell, each `true` with the chance that `density` gives.
pub fn draw_hits(cells: usize, density: &Density) -> (hits: Vec<bool>)
    requires
        density.wf(),
    ensures
        hits@.len() == cells,
        drawn(*density, hits@),
{
    let mut rng = rand::thread_rng();
    let mut hits: Vec<bool> = Vec::with_capacity(cells);
    let mut i: usize = 0;
    while i < cells
        invariant
            density.wf(),
            i <= cells,
            hits@.len() == i,
            density.numerator == 0 ==> forall|j: int| 0 <= j < i ==> !hits@[j],
            density.numerator == density.denominator ==> forall|j: int| 0 <= j < i ==> hits@[j],
        decreases cells - i,
    {
        let hit = gen_ratio(&mut rng, density.numerator, density.denominator);
        hits.push(hit);
        i = i + 1;
    }
    hits
}

/// Sets each cell alive whose draw in `hits` is `true`, and leaves the
/// others as they are.
pub fn seed_from_draws(board: &mut Board, settings: &GameSettings, hits: &Vec<bool>)
    requires
        old(board).wf(),
    ensures
        final(board).wf(),
        final(board)@ == sprinkled(old(board)@, hits@, settings.alive_color@),
{
    let cells = board.cell_count();
    let ghost before = board@;
    let ghost target = sprinkled(before, hits@, settings.alive_color@);
    proof {
        board.lemma_wf();
    }
    let mut i: usize = 0;
    while i < cells
        invariant
            board.wf(),
            before == old(board)@,
            i <= cells,
            cells == before.rows * before.columns,
            board@.rows == before.rows,
            board@.columns == before.columns,
            board@.bytes.len() == before.bytes.len(),
            before.bytes.len() == 4 * cells,
            target == sprinkled(before, hits@, settings.alive_color@),
            forall|k: int| 0 <= k < 4 * i ==> board@.bytes[k] == target.bytes[k],
            forall|k: int| 4 * i <= k < 4 * cells ==> board@.bytes[k] == before.bytes[k],
        decreases cells - i,
    {
        proof {
            lemma_coords_in_range(before.rows, before.columns, i as int);
        }
        if i < hits.len() && hits[i] {
            board.put(i, &settings.alive_color);
        }
        i = i + 1;
    }
    proof {
        assert(board@.bytes =~= target.bytes);
    }
}

/// Seeds the board at random: each cell is set alive with the chance that
/// `density` gives, independently of the others, and is left as it is
/// otherwise. What is certain of the outcome is that some row of draws, one
/// per cell, accounts for it.
pub fn seed_random(board: &mut Board, settings: &GameSettings, density: &Density)
    requires
        old(board).wf(),
        density.wf(),
    ensures
        final(board).wf(),
        sprinkled_by_chance(old(board)@, final(board)@, *density, settings.alive_color@),
{
    let hits = draw_hits(board.cell_count(), density);
    seed_from_draws(board, settings, &hits);
}

/// Clears the board to the dead colour and writes the pattern into its
/// middle, live and dead cells alike. The pattern begins at half the
/// board's extent less half its own, in whole numbers. A board smaller than
/// the pattern is left as it is.
pub fn seed_pattern(board: &mut Board, settings: &GameSettings, pattern: &Pattern) -> (done: Result<
    (),
    SeedError,
>)
    requires
        old(board).wf(),
        pattern.wf(),
    ensures
        final(board).wf(),
        done.is_ok() <==> fits(old(board)@, pattern@),
        done.is_ok() ==> final(board)@ == stamped(
            old(board)@,
            pattern@,
            settings.alive_color@,
            settings.dead_color@,
        ),
        done.is_err() ==> done == Err::<(), SeedError>(SeedError::BoardTooSmall) && final(board)@
            == old(board)@,
{
    proof {
        board.lemma_wf();
    }
    if pattern.width > board.rows() || pattern.lines.len() > board.columns() as usize {
        return Err(SeedError::BoardTooSmall);
    }
    let cells = board.cell_count();
    let rows = board.rows() as usize;
    let x_start: i64 = (board.rows() / 2) as i64 - (pattern.width / 2) as i64;
    let y_start: i64 = (board.columns() / 2) as i64 - (pattern.lines.len() / 2) as i64;
    let ghost before = board@;
    let ghost target = stamped(before, pattern@, settings.alive_color@, settings.dead_color@);
    let mut i: usize = 0;
    while i < cells
        invariant
            board.wf(),
            pattern.wf(),
            before == old(board)@,
            i <= cells,
            cells == before.rows * before.columns,
            rows == before.rows,
            before.rows <= u32::MAX,
            before.columns <= u32::MAX,
            board@.rows == before.rows,
            board@.columns == before.columns,
            board@.bytes.len() == 4 * cells,
            0 <= x_start <= u32::MAX,
            0 <= y_start <= u32::MAX,
            x_start == centred_start(before.rows, pattern@.width),
            y_start == centred_start(before.columns, pattern@.height()),
            target == stamped(before, pattern@, settings.alive_color@, settings.dead_color@),
            forall|k: int| 0 <= k < 4 * i ==> board@.bytes[k] == target.bytes[k],
        decreases cells - i,
    {
        proof {
            lemma_coords_in_range(before.rows, before.columns, i as int);
        }
        let x = (i % rows) as i64;
        let y = (i / rows) as i64;
        if pattern.is_set(x - x_start, y - y_start) {
            board.put(i, &settings.alive_color);
        } else {
            board.put(i, &settings.dead_color);
        }
        i = i + 1;
    }
    proof {
        assert(board@.bytes =~= target.bytes);
    }
    Ok(())
}

/// Whether the board has room for the seed.
pub fn seed_applies(board: &Board, kind: Seed) -> (applies: bool)
    requires
        board.wf(),
    ensures
        applies == seed_fits(board@, kind),
{
    match kind {
        Seed::Random => true,
        Seed::Spaceship => true,
        Seed::GosperGliderGun => GOSPER_WIDTH <= board.rows() && GOSPER_GLIDER_GUN.len()
            <= board.columns() as usize,
        Seed::SimkinGliderGun => SIMKIN_WIDTH <= board.rows() && SIMKIN_GLIDER_GUN.len()
            <= board.columns() as usize,
    }
}

/// Seeds the board as the settings' seed asks, with the draws in `hits`
/// where the seed is random. A board too small for the seed's pattern is
/// left as it is.
pub fn seed_with(board: &mut Board, settings: &GameSettings, hits: &Vec<bool>) -> (done: Result<
    (),
    SeedError,
>)
    requires
        old(board).wf(),
    ensures
        final(board).wf(),
        done.is_ok() <==> seed_fits(old(board)@, settings.seed),
        done.is_ok() ==> final(board)@ == seeded(
            old(board)@,
            settings.seed,
            hits@,
            settings.alive_color@,
            settings.dead_color@,
        ),
        done.is_err() ==> done == Err::<(), SeedError>(SeedError::BoardTooSmall) && final(board)@
            == old(board)@,
{
    match settings.seed {
        Seed::Random => {
            seed_from_draws(board, settings, hits);
            Ok(())
        },
        Seed::Spaceship => Ok(()),
        Seed::GosperGliderGun => seed_pattern(board, settings, &Pattern::gosper_glider_gun()),
        Seed::SimkinGliderGun => seed_pattern(board, settings, &Pattern::simkin_glider_gun()),
    }
}

/// The draws that seeding a board of `cells` cells takes: one per cell for
/// a random seed, none for the others.
pub fn draw_for(seed: Seed, cells: usize, density: &Density) -> (hits: Vec<bool>)
    requires
        density.wf(),
    ensures
        hits@.len() == (if seed == Seed::Random { cells } else { 0 }),
        drawn(*density, hits@),
{
    match seed {
        Seed::Random => draw_hits(cells, density),
        _ => Vec::new(),
    }
}

/// Seeds the board as the settings' seed asks: at random with the given
/// density, with one of the glider guns, or, for the seed that has no
/// pattern yet, not at all. A board too small for the seed's pattern is left
/// as it is.
pub fn seed(board: &mut Board, settings: &GameSettings, density: &Density) -> (done: Result<
    (),
    SeedError,
>)
    requires
        old(board).wf(),
        density.wf(),
    ensures
        final(board).wf(),
        done.is_ok() <==> seed_fits(old(board)@, settings.seed),
        done.is_ok() ==> seeded_by_chance(
            old(board)@,
            final(board)@,
            settings.seed,
            *density,
            settings.alive_color@,
            settings.dead_color@,
        ),
        done.is_err() ==> done == Err::<(), SeedError>(SeedError::BoardTooSmall) && final(board)@
            == old(board)@,
{
    let hits = draw_for(settings.seed, board.cell_count(), density);
    seed_with(board, settings, &hits)
}

} // verus!
