//! What the library knows of the settings panel: whether it shows, and how
//! large the brush is drawn beside it.

use vstd::prelude::*;
use crate::brush::Brush;
use crate::settings::GameSettings;

verus! {

/// The state of the settings panel.
#[derive(Debug, Clone, Copy)]
pub struct GameOfLifeUI {
    /// Whether the panel, and the brush's outline with it, is shown.
    pub show: bool,
}

impl Default for GameOfLifeUI {
    /// The panel shows at first.
    fn default() -> (ui: GameOfLifeUI)
        ensures
            ui.show,
    {
        GameOfLifeUI { show: true }
    }
}

impl GameOfLifeUI {
    /// One frame of the keyboard: the panel changes between shown and hidden
    /// when its key has just been pressed.
    pub fn handle_events(&mut self, toggle_pressed: bool)
        ensures
            final(self).show == (old(self).show != toggle_pressed),
    {
        if toggle_pressed {
            self.show = !self.show;
        }
    }

    /// The radius in pixels of the circle that shows the brush under the
    /// pointer, or `None` while the panel is hidden.
    pub fn brush_outline(&self, brush: &Brush, settings: &GameSettings) -> (radius: Option<u32>)
        ensures
            radius == (if self.show {
                Some((brush.size * settings.cell_size) as u32)
            } else {
                None
            }),
    {
        if self.show {
            assert(brush.size * settings.cell_size <= 255 * 255) by (nonlinear_arith)
                requires
                    brush.size <= 255,
                    settings.cell_size <= 255,
            ;
            Some((brush.size as u32) * (settings.cell_size as u32))
        } else {
            None
        }
    }
}

} // verus!
