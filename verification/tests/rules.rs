use game_of_life::board::Board;
use game_of_life::rules::advance;
use game_of_life::rules::cell_state;
use game_of_life::rules::is_cell_alive;
use game_of_life::rules::is_tick_due;
use game_of_life::rules::process_cells;
use game_of_life::rules::State;
use game_of_life::settings::GameSettings;
use game_of_life::settings::Seed;

fn board_of(lines: &[&str], settings: &GameSettings) -> Board {
    let columns: u32 = lines.len() as u32;
    let rows: u32 = lines[0].len() as u32;
    let mut board = Board::new(rows, columns, settings.dead_color).unwrap();
    for (y, line) in lines.iter().enumerate() {
        for (x, ch) in line.chars().enumerate() {
            if ch == 'O' {
                board.set(x as i64, y as i64, settings.alive_color);
            }
        }
    }
    board
}

fn lines_of(board: &Board, settings: &GameSettings) -> Vec<String> {
    let mut lines: Vec<String> = Vec::new();
    for y in 0..board.columns() {
        let mut line = String::new();
        for x in 0..board.rows() {
            let color = board.get(x as i64, y as i64).unwrap();
            if color == settings.alive_color {
                line.push('O');
            } else {
                assert_eq!(color, settings.dead_color);
                line.push('.');
            }
        }
        lines.push(line);
    }
    lines
}

#[test]
fn default_settings() {
    let settings = GameSettings::default();
    assert_eq!(settings.cell_size, 3);
    assert_eq!(settings.time_step_micros, 30_000);
    assert_eq!(settings.alive_color, [64, 64, 243, 255]);
    assert_eq!(settings.dead_color, [0, 0, 0, 255]);
    assert_eq!(settings.seed, Seed::Random);
    assert_eq!(Seed::default(), Seed::Random);
}

#[test]
fn blinker_returns_after_two_generations() {
    let settings = GameSettings::default();
    let start = [".....", ".....", ".OOO.", ".....", "....."];
    let mut board = board_of(&start, &settings);
    let first = board.data().clone();
    advance(&mut board, &settings);
    assert_eq!(lines_of(&board, &settings), vec![".....", "..O..", "..O..", "..O..", "....."]);
    advance(&mut board, &settings);
    assert_eq!(board.data(), &first);
}

#[test]
fn blinker_at_the_edge_is_cut_off() {
    let settings = GameSettings::default();
    let mut board = board_of(&["OOO", "..."], &settings);
    advance(&mut board, &settings);
    assert_eq!(lines_of(&board, &settings), vec![".O.", ".O."]);
}

#[test]
fn corner_counts_only_the_neighbours_that_exist() {
    let settings = GameSettings::default();
    let lonely = board_of(&["O"], &settings);
    assert_eq!(cell_state(&lonely, 0, 0, &settings), State::Dead);

    let block = board_of(&["OO", "OO"], &settings);
    assert_eq!(cell_state(&block, 0, 0, &settings), State::Alive);
    assert_eq!(cell_state(&block, 1, 1, &settings), State::Alive);

    let born = board_of(&[".O", "OO"], &settings);
    assert_eq!(cell_state(&born, 0, 0, &settings), State::Alive);

    let far_side = board_of(&["..O", "..O", "OOO"], &settings);
    assert_eq!(cell_state(&far_side, 0, 0, &settings), State::Dead);
}

#[test]
fn block_on_the_smallest_board_is_still() {
    let settings = GameSettings::default();
    let mut board = board_of(&["OO", "OO"], &settings);
    let before = board.data().clone();
    advance(&mut board, &settings);
    assert_eq!(board.data(), &before);
}

#[test]
fn live_cell_survives_with_two_or_three_neighbours_only() {
    let settings = GameSettings::default();
    let none = board_of(&["...", ".O.", "..."], &settings);
    assert_eq!(cell_state(&none, 1, 1, &settings), State::Dead);
    let one = board_of(&["O..", ".O.", "..."], &settings);
    assert_eq!(cell_state(&one, 1, 1, &settings), State::Dead);
    let two = board_of(&["O..", ".O.", "..O"], &settings);
    assert_eq!(cell_state(&two, 1, 1, &settings), State::Alive);
    let three = board_of(&["O.O", ".O.", "..O"], &settings);
    assert_eq!(cell_state(&three, 1, 1, &settings), State::Alive);
    let four = board_of(&["O.O", ".O.", "O.O"], &settings);
    assert_eq!(cell_state(&four, 1, 1, &settings), State::Dead);
    let eight = board_of(&["OOO", "OOO", "OOO"], &settings);
    assert_eq!(cell_state(&eight, 1, 1, &settings), State::Dead);
}

#[test]
fn dead_cell_is_born_with_exactly_three_neighbours() {
    let settings = GameSettings::default();
    let two = board_of(&["O..", "...", "..O"], &settings);
    assert_eq!(cell_state(&two, 1, 1, &settings), State::Dead);
    let three = board_of(&["O.O", "...", "..O"], &settings);
    assert_eq!(cell_state(&three, 1, 1, &settings), State::Alive);
    let four = board_of(&["O.O", "...", "O.O"], &settings);
    assert_eq!(cell_state(&four, 1, 1, &settings), State::Dead);
}

#[test]
fn a_colour_that_is_not_the_alive_colour_is_dead() {
    let settings = GameSettings::default();
    assert_eq!(State::cell_state(&settings.alive_color, &settings), State::Alive);
    assert_eq!(State::cell_state(&settings.dead_color, &settings), State::Dead);
    assert_eq!(State::cell_state(&[64, 64, 243, 254], &settings), State::Dead);
    assert_eq!(State::cell_state(&[65, 64, 243, 255], &settings), State::Dead);

    let mut board = board_of(&["O.O", "...", "..O"], &settings);
    board.set(0, 0, [64, 64, 242, 255]);
    assert_eq!(cell_state(&board, 1, 1, &settings), State::Dead);
    advance(&mut board, &settings);
    for cell in board.data().chunks(4) {
        assert_eq!(cell, &settings.dead_color[..]);
    }
}

#[test]
fn glider_moves_one_cell_diagonally_in_four_generations() {
    let settings = GameSettings::default();
    let mut board = board_of(
        &["......", "..O...", "...O..", ".OOO..", "......", "......"],
        &settings,
    );
    for _ in 0..4 {
        advance(&mut board, &settings);
    }
    assert_eq!(
        lines_of(&board, &settings),
        vec!["......", "......", "...O..", "....O.", "..OOO.", "......"]
    );
}

#[test]
fn generation_is_due_only_after_more_than_the_interval() {
    let mut settings = GameSettings::default();
    settings.time_step_micros = 100;
    let start = [".....", ".....", ".OOO.", ".....", "....."];
    let mut board = board_of(&start, &settings);
    let first = board.data().clone();
    let mut previous: u64 = 1_000;

    assert!(!process_cells(&mut board, &settings, &mut previous, 1_000));
    assert!(!process_cells(&mut board, &settings, &mut previous, 1_100));
    assert!(!process_cells(&mut board, &settings, &mut previous, 900));
    assert_eq!(previous, 1_000);
    assert_eq!(board.data(), &first);

    assert!(process_cells(&mut board, &settings, &mut previous, 1_101));
    assert_eq!(previous, 1_101);
    assert_eq!(lines_of(&board, &settings), vec![".....", "..O..", "..O..", "..O..", "....."]);

    assert!(!process_cells(&mut board, &settings, &mut previous, 1_201));
    assert!(process_cells(&mut board, &settings, &mut previous, 1_202));
    assert_eq!(board.data(), &first);
}

#[test]
fn rule_on_a_cell_and_its_eight_neighbours() {
    let l = Some(true);
    let d = Some(false);
    let n: Option<bool> = None;
    assert!(!is_cell_alive(true, &[n, n, n, n, n, n, n, n]));
    assert!(!is_cell_alive(true, &[l, d, d, d, d, d, d, d]));
    assert!(is_cell_alive(true, &[l, d, d, d, d, d, d, l]));
    assert!(is_cell_alive(true, &[l, n, n, l, l, d, d, d]));
    assert!(!is_cell_alive(true, &[l, l, n, l, l, d, d, d]));
    assert!(!is_cell_alive(true, &[l, l, l, l, l, l, l, l]));
    assert!(!is_cell_alive(false, &[l, d, d, d, d, d, d, l]));
    assert!(is_cell_alive(false, &[d, l, d, n, l, d, l, d]));
    assert!(is_cell_alive(false, &[n, n, n, n, n, l, l, l]));
    assert!(!is_cell_alive(false, &[l, l, d, n, l, d, l, d]));
    assert!(!is_cell_alive(false, &[n, n, n, n, n, n, n, n]));
}

#[test]
fn tick_is_due_after_more_than_the_interval() {
    assert!(!is_tick_due(0, 0, 0));
    assert!(is_tick_due(0, 1, 0));
    assert!(!is_tick_due(100, 130, 30));
    assert!(is_tick_due(100, 131, 30));
    assert!(!is_tick_due(100, 99, 30));
    assert!(!is_tick_due(u64::MAX, 0, 0));
    assert!(is_tick_due(0, u64::MAX, u64::MAX - 1));
    assert!(!is_tick_due(0, u64::MAX, u64::MAX));
}
