use game_of_life::board::Board;
use game_of_life::brush::handle_events;
use game_of_life::brush::paint;
use game_of_life::brush::will_paint;
use game_of_life::brush::Brush;
use game_of_life::brush::Input;
use game_of_life::settings::GameSettings;

fn lines_of(board: &Board, settings: &GameSettings) -> Vec<String> {
    let mut lines: Vec<String> = Vec::new();
    for y in 0..board.columns() {
        let mut line = String::new();
        for x in 0..board.rows() {
            let color = board.get(x as i64, y as i64).unwrap();
            if color == settings.alive_color {
                line.push('O');
            } else {
                assert_eq!(color, settings.dead_color);
                line.push('.');
            }
        }
        lines.push(line);
    }
    lines
}

fn quiet() -> Input {
    Input { shrink: false, grow: false, pressed: false, over_overlay: false, cursor: None }
}

#[test]
fn painting_with_radius_nought_sets_one_cell() {
    let settings = GameSettings::default();
    let mut board = Board::new(5, 4, settings.dead_color).unwrap();
    paint(&mut board, &settings, 3, 2, 0);
    assert_eq!(board.get(3, 2), Some(settings.alive_color));
    assert_eq!(lines_of(&board, &settings), vec![".....", ".....", "...O.", "....."]);
}

#[test]
fn painting_with_radius_one_sets_a_cross() {
    let settings = GameSettings::default();
    let mut board = Board::new(5, 5, settings.dead_color).unwrap();
    paint(&mut board, &settings, 2, 2, 1);
    assert_eq!(lines_of(&board, &settings), vec![".....", "..O..", ".OOO.", "..O..", "....."]);
}

#[test]
fn painting_with_radius_two_sets_a_disc() {
    let settings = GameSettings::default();
    let mut board = Board::new(7, 7, settings.dead_color).unwrap();
    paint(&mut board, &settings, 3, 3, 2);
    assert_eq!(
        lines_of(&board, &settings),
        vec![".......", "...O...", "..OOO..", ".OOOOO.", "..OOO..", "...O...", "......."]
    );
}

#[test]
fn painting_with_radius_five_reaches_three_and_four() {
    let settings = GameSettings::default();
    let mut board = Board::new(13, 13, settings.dead_color).unwrap();
    paint(&mut board, &settings, 6, 6, 5);
    assert_eq!(board.get(6 + 3, 6 + 4), Some(settings.alive_color));
    assert_eq!(board.get(6 - 4, 6 + 3), Some(settings.alive_color));
    assert_eq!(board.get(6 + 5, 6), Some(settings.alive_color));
    assert_eq!(board.get(6 + 4, 6 + 4), Some(settings.dead_color));
    assert_eq!(board.get(6 + 5, 6 + 1), Some(settings.dead_color));
    assert_eq!(board.get(0, 6), Some(settings.dead_color));
    let live: usize =
        board.data().chunks(4).filter(|cell| *cell == &settings.alive_color[..]).count();
    assert_eq!(live, 81);
}

#[test]
fn painting_at_the_edge_skips_what_is_not_there() {
    let settings = GameSettings::default();
    let mut board = Board::new(4, 3, settings.dead_color).unwrap();
    paint(&mut board, &settings, 0, 0, 1);
    assert_eq!(lines_of(&board, &settings), vec!["OO..", "O...", "...."]);
    paint(&mut board, &settings, 4, 2, 1);
    assert_eq!(lines_of(&board, &settings), vec!["OO..", "O...", "...O"]);
    paint(&mut board, &settings, -1, 2, 1);
    assert_eq!(lines_of(&board, &settings), vec!["OO..", "O...", "O..O"]);
}

#[test]
fn painting_far_from_the_board_changes_nothing() {
    let settings = GameSettings::default();
    let mut board = Board::new(4, 3, settings.dead_color).unwrap();
    let before = board.data().clone();
    paint(&mut board, &settings, -300, 0, 255);
    paint(&mut board, &settings, 1, 300, 255);
    paint(&mut board, &settings, i64::MAX, i64::MAX, 255);
    paint(&mut board, &settings, i64::MIN, i64::MIN, 255);
    paint(&mut board, &settings, 5_000_000_000, 1, 255);
    assert_eq!(board.data(), &before);
    paint(&mut board, &settings, -255, 0, 255);
    assert_eq!(lines_of(&board, &settings), vec!["O...", "....", "...."]);
}

#[test]
fn painting_keeps_cells_outside_the_disc() {
    let settings = GameSettings::default();
    let mut board = Board::new(3, 3, settings.dead_color).unwrap();
    board.set(0, 0, [1, 2, 3, 4]);
    board.set(1, 1, [1, 2, 3, 4]);
    paint(&mut board, &settings, 1, 1, 1);
    assert_eq!(board.get(0, 0), Some([1, 2, 3, 4]));
    assert_eq!(board.get(1, 1), Some(settings.alive_color));
    assert_eq!(board.get(2, 2), Some(settings.dead_color));
}

#[test]
fn brush_stays_between_one_and_the_largest_radius() {
    let mut brush = Brush::new();
    assert_eq!(brush.size, 1);
    brush.shrink();
    assert_eq!(brush.size, 1);
    brush.grow();
    assert_eq!(brush.size, 2);
    brush.shrink();
    assert_eq!(brush.size, 1);
    for _ in 0..300 {
        brush.grow();
    }
    assert_eq!(brush.size, 255);
    brush.shrink();
    assert_eq!(brush.size, 254);
}

#[test]
fn keys_resize_the_brush_narrower_first() {
    let settings = GameSettings::default();
    let mut board = Board::new(3, 3, settings.dead_color).unwrap();
    let mut brush = Brush::new();
    let both = Input { shrink: true, grow: true, ..quiet() };
    assert!(!handle_events(&mut board, &settings, &mut brush, &both));
    assert_eq!(brush.size, 2);
    assert!(!handle_events(&mut board, &settings, &mut brush, &both));
    assert_eq!(brush.size, 2);
    let mut widest = Brush { size: 255 };
    assert!(!handle_events(&mut board, &settings, &mut widest, &both));
    assert_eq!(widest.size, 255);
    let narrower = Input { shrink: true, ..quiet() };
    assert!(!handle_events(&mut board, &settings, &mut widest, &narrower));
    assert_eq!(widest.size, 254);
}

#[test]
fn button_paints_with_the_brush_as_resized() {
    let settings = GameSettings::default();
    let mut board = Board::new(7, 7, settings.dead_color).unwrap();
    let mut brush = Brush::new();
    let press = Input { grow: true, pressed: true, cursor: Some((3, 3)), ..quiet() };
    assert!(handle_events(&mut board, &settings, &mut brush, &press));
    assert_eq!(brush.size, 2);
    assert_eq!(
        lines_of(&board, &settings),
        vec![".......", "...O...", "..OOO..", ".OOOOO.", "..OOO..", "...O...", "......."]
    );
}

#[test]
fn overlay_keeps_the_brush_off_the_board() {
    let settings = GameSettings::default();
    let mut board = Board::new(5, 5, settings.dead_color).unwrap();
    let before = board.data().clone();
    let mut brush = Brush::new();
    let covered =
        Input { grow: true, pressed: true, over_overlay: true, cursor: Some((2, 2)), ..quiet() };
    assert!(!handle_events(&mut board, &settings, &mut brush, &covered));
    assert_eq!(board.data(), &before);
    assert_eq!(brush.size, 2);

    let away = Input { pressed: true, cursor: None, ..quiet() };
    assert!(!handle_events(&mut board, &settings, &mut brush, &away));
    let released = Input { pressed: false, cursor: Some((2, 2)), ..quiet() };
    assert!(!handle_events(&mut board, &settings, &mut brush, &released));
    assert_eq!(board.data(), &before);
}

#[test]
fn frame_paints_with_button_pointer_and_no_overlay() {
    let press = Input { pressed: true, cursor: Some((0, 0)), ..quiet() };
    assert!(will_paint(&press));
    assert!(!will_paint(&Input { over_overlay: true, ..press }));
    assert!(!will_paint(&Input { cursor: None, ..press }));
    assert!(!will_paint(&Input { pressed: false, ..press }));
    assert!(!will_paint(&quiet()));
}

#[test]
fn resize_narrows_first_and_widens_then() {
    let mut brush = Brush { size: 1 };
    brush.resize(true, true);
    assert_eq!(brush.size, 2);
    brush.resize(true, false);
    assert_eq!(brush.size, 1);
    brush.resize(false, false);
    assert_eq!(brush.size, 1);
    let mut widest = Brush { size: 255 };
    widest.resize(false, true);
    assert_eq!(widest.size, 255);
    widest.resize(true, true);
    assert_eq!(widest.size, 255);
}
