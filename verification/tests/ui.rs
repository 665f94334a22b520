use game_of_life::brush::Brush;
use game_of_life::settings::GameSettings;
use game_of_life::ui::GameOfLifeUI;

#[test]
fn panel_shows_at_first_and_its_key_hides_it() {
    let mut ui = GameOfLifeUI::default();
    assert!(ui.show);
    ui.handle_events(false);
    assert!(ui.show);
    ui.handle_events(true);
    assert!(!ui.show);
    ui.handle_events(false);
    assert!(!ui.show);
    ui.handle_events(true);
    assert!(ui.show);
}

#[test]
fn brush_is_outlined_in_pixels_while_the_panel_shows() {
    let settings = GameSettings::default();
    let mut ui = GameOfLifeUI::default();
    assert_eq!(ui.brush_outline(&Brush { size: 4 }, &settings), Some(12));
    let mut large = settings;
    large.cell_size = 255;
    assert_eq!(ui.brush_outline(&Brush { size: 255 }, &large), Some(65025));
    ui.handle_events(true);
    assert_eq!(ui.brush_outline(&Brush { size: 4 }, &settings), None);
}
