use blocchi::board::GameBoard;
use blocchi::grid::{NUMBER_OF_CELLS, NUMBER_OF_COLUMNS, NUMBER_OF_ROWS};
use blocchi::shapes::TetrominoType;
use blocchi::tetromino::{CanSpawnMoreTetromino, DroppedStatus, MoveDirection, MoveStatus, Tetromino};
use rand::rngs::StdRng;
use rand::SeedableRng;

fn cell(row: u8, col: u8) -> u8 {
    Tetromino::get_cell_from_row_and_column(row, col)
}

fn ready_board(current: TetrominoType, next: TetrominoType) -> GameBoard {
    let mut board = GameBoard::new();
    board.init_with_types(current, next);
    board
}

fn fill_row(board: &mut GameBoard, row: u8, except: &[u8]) {
    for col in 0..NUMBER_OF_COLUMNS {
        if !except.contains(&col) {
            board.occupy(cell(row, col));
        }
    }
}

fn occupied_count(board: &GameBoard) -> usize {
    (0..NUMBER_OF_CELLS as u8).filter(|c| board.is_cell_occupied(*c)).count()
}

fn occupied_cells(board: &GameBoard) -> Vec<u8> {
    (0..NUMBER_OF_CELLS as u8).filter(|c| board.is_cell_occupied(*c)).collect()
}

#[test]
fn new_board_is_empty_and_uninitialized() {
    let board = GameBoard::new();
    assert!(!board.is_initialized());
    assert_eq!(occupied_count(&board), 0);
    assert_eq!(board.get_number_of_filled_rows(), 0);
    assert_eq!(board.get_next_cell_from_filled_row_after(None), None);
}

#[test]
fn init_happens_once() {
    let mut board = ready_board(TetrominoType::J, TetrominoType::S);
    assert!(board.is_initialized());
    board.init_with_types(TetrominoType::I, TetrominoType::I);
    assert_eq!(*board.get_current_tetromino_type(), TetrominoType::J);
    assert_eq!(*board.get_upcoming_tetromino_type(), TetrominoType::S);
    assert_eq!(board.get_current_tetromino_cells(), [5, 15, 25, 24]);
    assert_eq!(board.get_upcoming_tetromino_cells(), [4, 14, 5, 13]);
}

#[test]
fn random_init_gives_spawned_pieces() {
    let mut rng = StdRng::seed_from_u64(11);
    let mut board = GameBoard::new();
    board.init(&mut rng);
    assert!(board.is_initialized());
    let kind = *board.get_current_tetromino_type();
    assert_eq!(board.get_current_tetromino_cells(), Tetromino::spawn(kind).get_cells());
    let upcoming = *board.get_upcoming_tetromino_type();
    assert_eq!(board.get_upcoming_tetromino_cells(), Tetromino::spawn(upcoming).get_cells());
    let before = board.get_current_tetromino_cells();
    board.init(&mut rng);
    assert_eq!(board.get_current_tetromino_cells(), before);
}

#[test]
fn board_i_piece_falls_sixteen_rows_then_locks() {
    let mut board = ready_board(TetrominoType::I, TetrominoType::O);
    for _ in 0..16 {
        assert!(matches!(board.drop_down(), DroppedStatus::Dropped));
    }
    assert_eq!(occupied_count(&board), 0);
    match board.drop_down() {
        DroppedStatus::NotDropped(cells) => assert_eq!(cells, [164, 174, 184, 194]),
        DroppedStatus::Dropped => panic!("the piece should rest on the floor"),
    }
    assert_eq!(occupied_cells(&board), vec![164, 174, 184, 194]);
}

#[test]
fn locking_the_last_cell_of_a_row_fills_it_and_collapse_shifts_down() {
    let mut board = ready_board(TetrominoType::I, TetrominoType::O);
    fill_row(&mut board, 19, &[4]);
    board.occupy(cell(10, 0));
    assert_eq!(board.get_number_of_filled_rows(), 0);
    loop {
        match board.drop_down() {
            DroppedStatus::Dropped => {}
            DroppedStatus::NotDropped(cells) => {
                assert_eq!(cells, [164, 174, 184, 194]);
                break;
            }
        }
    }
    assert_eq!(board.get_number_of_filled_rows(), 1);
    assert_eq!(occupied_count(&board), 14);
    board.collapse_filled_rows();
    assert_eq!(board.get_number_of_filled_rows(), 0);
    // Row 19 now holds what row 18 held: the I-piece's cell in column 4.
    assert_eq!(occupied_cells(&board), vec![cell(11, 0), cell(17, 4), cell(18, 4), cell(19, 4)]);
    assert_eq!(occupied_count(&board), 14 - 10);
}

#[test]
fn collapse_clears_several_rows_at_once() {
    let mut board = GameBoard::new();
    fill_row(&mut board, 19, &[]);
    fill_row(&mut board, 18, &[2]);
    fill_row(&mut board, 17, &[]);
    fill_row(&mut board, 15, &[]);
    board.occupy(cell(14, 7));
    board.occupy(cell(16, 3));
    assert_eq!(board.get_number_of_filled_rows(), 3);
    let before = occupied_count(&board);
    board.collapse_filled_rows();
    assert_eq!(board.get_number_of_filled_rows(), 0);
    assert_eq!(occupied_count(&board), before - 3 * NUMBER_OF_COLUMNS as usize);
    let mut expected: Vec<u8> = (0..NUMBER_OF_COLUMNS).filter(|c| *c != 2).map(|c| cell(19, c)).collect();
    expected.insert(0, cell(18, 3));
    expected.insert(0, cell(17, 7));
    assert_eq!(occupied_cells(&board), expected);
}

#[test]
fn collapse_of_row_zero_empties_it() {
    let mut board = GameBoard::new();
    fill_row(&mut board, 0, &[]);
    board.occupy(cell(5, 5));
    board.collapse_filled_rows();
    assert_eq!(occupied_cells(&board), vec![cell(5, 5)]);
}

#[test]
fn collapse_of_a_full_grid_empties_it() {
    let mut board = GameBoard::new();
    for row in 0..NUMBER_OF_ROWS {
        fill_row(&mut board, row, &[]);
    }
    assert_eq!(board.get_number_of_filled_rows(), NUMBER_OF_ROWS);
    board.collapse_filled_rows();
    assert_eq!(occupied_count(&board), 0);
}

#[test]
fn clearing_cursor_visits_every_cell_of_filled_rows_once() {
    let mut board = GameBoard::new();
    fill_row(&mut board, 19, &[]);
    fill_row(&mut board, 17, &[]);
    fill_row(&mut board, 16, &[0]);
    fill_row(&mut board, 3, &[]);
    let mut visited = Vec::new();
    let mut cursor = None;
    loop {
        cursor = board.get_next_cell_from_filled_row_after(cursor);
        match cursor {
            Some(c) => visited.push(c),
            None => break,
        }
        assert!(visited.len() <= 30);
    }
    let mut expected = Vec::new();
    for row in [19u8, 17, 3] {
        for col in 0..NUMBER_OF_COLUMNS {
            expected.push(cell(row, col));
        }
    }
    assert_eq!(visited, expected);
}

#[test]
fn clearing_cursor_steps_within_and_between_rows() {
    let mut board = GameBoard::new();
    fill_row(&mut board, 12, &[]);
    fill_row(&mut board, 8, &[]);
    assert_eq!(board.get_next_cell_from_filled_row_after(None), Some(120));
    assert_eq!(board.get_next_cell_from_filled_row_after(Some(120)), Some(121));
    assert_eq!(board.get_next_cell_from_filled_row_after(Some(129)), Some(80));
    assert_eq!(board.get_next_cell_from_filled_row_after(Some(89)), None);
}

#[test]
fn blocked_spawn_ends_the_game() {
    let mut board = ready_board(TetrominoType::O, TetrominoType::T);
    for row in 1..NUMBER_OF_ROWS {
        fill_row(&mut board, row, &[9]);
    }
    assert_eq!(board.next_tetromino_with_type(TetrominoType::I), CanSpawnMoreTetromino::No);
    assert_eq!(*board.get_current_tetromino_type(), TetrominoType::T);
}

#[test]
fn spawn_onto_free_cells_succeeds() {
    let mut board = ready_board(TetrominoType::O, TetrominoType::T);
    fill_row(&mut board, 19, &[0]);
    assert_eq!(board.next_tetromino_with_type(TetrominoType::I), CanSpawnMoreTetromino::Yes);
    assert_eq!(*board.get_current_tetromino_type(), TetrominoType::T);
    assert_eq!(*board.get_upcoming_tetromino_type(), TetrominoType::I);
}

#[test]
fn board_o_piece_rotation_is_a_no_op() {
    let mut board = ready_board(TetrominoType::O, TetrominoType::I);
    for _ in 0..3 {
        let before = board.get_current_tetromino_cells();
        assert_eq!(board.rotate_tetromino(), MoveStatus::Moved);
        assert_eq!(board.get_current_tetromino_cells(), before);
        assert_eq!(board.move_tetromino(MoveDirection::Right), MoveStatus::Moved);
        assert!(matches!(board.drop_down(), DroppedStatus::Dropped));
    }
}

#[test]
fn board_moves_respect_occupied_cells() {
    let mut board = ready_board(TetrominoType::I, TetrominoType::O);
    board.occupy(cell(2, 5));
    let before = board.get_current_tetromino_cells();
    assert_eq!(board.move_tetromino(MoveDirection::Right), MoveStatus::NotMoved);
    assert_eq!(board.get_current_tetromino_cells(), before);
    assert_eq!(board.rotate_tetromino(), MoveStatus::Moved);
    assert_eq!(board.get_current_tetromino_cells(), [4, 5, 6, 7]);
}

#[test]
fn reset_empties_the_grid_and_refreshes_the_queue() {
    let mut board = ready_board(TetrominoType::I, TetrominoType::O);
    fill_row(&mut board, 19, &[]);
    board.reset_with_types(TetrominoType::L, TetrominoType::Z);
    assert_eq!(occupied_count(&board), 0);
    assert_eq!(*board.get_current_tetromino_type(), TetrominoType::L);
    assert_eq!(*board.get_upcoming_tetromino_type(), TetrominoType::Z);
    assert_eq!(board.get_current_tetromino_cells(), [4, 14, 24, 25]);

    let mut rng = StdRng::seed_from_u64(3);
    fill_row(&mut board, 10, &[]);
    board.reset(&mut rng);
    assert_eq!(occupied_count(&board), 0);
    let kind = *board.get_current_tetromino_type();
    assert_eq!(board.get_current_tetromino_cells(), Tetromino::spawn(kind).get_cells());
}

#[test]
fn random_next_piece_is_spawned() {
    let mut rng = StdRng::seed_from_u64(5);
    let mut board = ready_board(TetrominoType::I, TetrominoType::O);
    assert_eq!(board.next_tetromino(&mut rng), CanSpawnMoreTetromino::Yes);
    assert_eq!(*board.get_current_tetromino_type(), TetrominoType::O);
    let upcoming = *board.get_upcoming_tetromino_type();
    assert_eq!(board.get_upcoming_tetromino_cells(), Tetromino::spawn(upcoming).get_cells());
}

#[test]
fn init_on_a_filled_queue_leaves_the_generator_alone() {
    let mut rng = StdRng::seed_from_u64(17);
    let mut board = GameBoard::new();
    board.init(&mut rng);
    let before = rng.clone();
    board.init(&mut rng);
    assert!(rng == before);
}

#[test]
fn full_top_row_blocks_any_next_piece() {
    for kind in [
        TetrominoType::I,
        TetrominoType::O,
        TetrominoType::T,
        TetrominoType::J,
        TetrominoType::L,
        TetrominoType::S,
        TetrominoType::Z,
    ] {
        let mut board = ready_board(TetrominoType::O, kind);
        fill_row(&mut board, 0, &[]);
        assert_eq!(board.next_tetromino_with_type(TetrominoType::I), CanSpawnMoreTetromino::No);
    }
}
