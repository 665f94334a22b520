//! The settings of a running simulation.

use vstd::prelude::*;
use crate::board::Color;

verus! {

/// The initial configuration that a board is seeded with.
#[derive(PartialEq, Eq, Structural, Debug, Clone, Copy)]
pub enum Seed {
    /// Every cell alive or dead by chance.
    Random,
    /// Named, but no pattern stands behind it yet: seeding leaves the board
    /// as it is.
    Spaceship,
    /// The Gosper glider gun, centred on the board.
    GosperGliderGun,
    /// The Simkin glider gun, centred on the board.
    SimkinGliderGun,
}

impl Default for Seed {
    fn default() -> (seed: Seed)
        ensures
            seed == Seed::Random,
    {
        Seed::Random
    }
}

/// Cell size, tick interval, the two colours and the seed.
///
/// The tick interval is held in whole microseconds, so that the library
/// compares time without rounding.
#[derive(Debug, Clone, Copy)]
pub struct GameSettings {
    /// The edge of a cell in pixels, at least 1.
    pub cell_size: u8,
    /// The time between two generations in microseconds, above 0.
    pub time_step_micros: u64,
    /// The colour that marks a live cell.
    pub alive_color: Color,
    /// The colour that dead cells are written with.
    pub dead_color: Color,
    /// The seed that the board is filled with when it is rebuilt.
    pub seed: Seed,
}

impl GameSettings {
    /// Settings that a simulation can run with: a cell has a size, time
    /// advances between generations, and live cells can be told from dead
    /// ones.
    pub open spec fn wf(&self) -> bool {
        &&& self.cell_size >= 1
        &&& self.time_step_micros > 0
        &&& self.alive_color@ != self.dead_color@
    }
}

impl Default for GameSettings {
    fn default() -> (settings: GameSettings)
        ensures
            settings.wf(),
            settings.cell_size == 3,
            settings.time_step_micros == 30_000,
            settings.alive_color@ == seq![64u8, 64u8, 243u8, 255u8],
            settings.dead_color@ == seq![0u8, 0u8, 0u8, 255u8],
            settings.seed == Seed::Random,
    {
        let settings = GameSettings {
            cell_size: 3,
            time_step_micros: 30_000,
            alive_color: [64, 64, 243, 255],
            dead_color: [0, 0, 0, 255],
            seed: Seed::Random,
        };
        proof {
            assert(settings.alive_color@ =~= seq![64u8, 64u8, 243u8, 255u8]);
            assert(settings.dead_color@ =~= seq![0u8, 0u8, 0u8, 255u8]);
            assert(settings.alive_color@[0] != settings.dead_color@[0]);
        }
        settings
    }
}

} // verus!
