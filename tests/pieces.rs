use blocchi::grid::NUMBER_OF_CELLS;
use blocchi::shapes::{TetrominoRotation, TetrominoType};
use blocchi::tetromino::{
    DroppedStatus, MoveDirection, MoveStatus, Tetromino, TetrominoPosition, TetrominoProvider,
};
use rand::rngs::StdRng;
use rand::SeedableRng;

const ALL_KINDS: [TetrominoType; 7] = [
    TetrominoType::I,
    TetrominoType::O,
    TetrominoType::T,
    TetrominoType::J,
    TetrominoType::L,
    TetrominoType::S,
    TetrominoType::Z,
];

fn empty_board() -> [u8; NUMBER_OF_CELLS] {
    [0; NUMBER_OF_CELLS]
}

fn sorted(cells: [u8; 4]) -> [u8; 4] {
    let mut c = cells;
    c.sort();
    c
}

fn distinct(cells: [u8; 4]) -> bool {
    let c = sorted(cells);
    c[0] < c[1] && c[1] < c[2] && c[2] < c[3]
}

/// Moves the piece in play down `rows` times on an empty board.
fn lower(provider: &mut TetrominoProvider, rows: usize) {
    let board = empty_board();
    for _ in 0..rows {
        assert!(matches!(provider.drop_down(&board), DroppedStatus::Dropped));
    }
}

#[test]
fn cell_index_and_row_column_are_inverse() {
    assert_eq!(Tetromino::get_cell_from_row_and_column(0, 0), 0);
    assert_eq!(Tetromino::get_cell_from_row_and_column(3, 7), 37);
    assert_eq!(Tetromino::get_cell_from_row_and_column(19, 9), 199);
    assert_eq!(Tetromino::get_row_and_column_by_cell(37), (3, 7));
    assert_eq!(Tetromino::get_row_and_column_by_cell(199), (19, 9));
    for cell in 0..200u8 {
        let (row, col) = Tetromino::get_row_and_column_by_cell(cell);
        assert_eq!(Tetromino::get_cell_from_row_and_column(row, col), cell);
    }
}

#[test]
fn spawned_pieces_sit_at_their_columns_on_row_zero() {
    assert_eq!(Tetromino::spawn(TetrominoType::I).get_cells(), [4, 14, 24, 34]);
    assert_eq!(Tetromino::spawn(TetrominoType::O).get_cells(), [4, 14, 5, 15]);
    assert_eq!(Tetromino::spawn(TetrominoType::T).get_cells(), [5, 15, 4, 6]);
    assert_eq!(Tetromino::spawn(TetrominoType::J).get_cells(), [5, 15, 25, 24]);
    assert_eq!(Tetromino::spawn(TetrominoType::L).get_cells(), [4, 14, 24, 25]);
    assert_eq!(Tetromino::spawn(TetrominoType::S).get_cells(), [4, 14, 5, 13]);
    assert_eq!(Tetromino::spawn(TetrominoType::Z).get_cells(), [5, 15, 4, 16]);
}

#[test]
fn every_rotation_covers_four_distinct_cells() {
    for kind in ALL_KINDS {
        let mut provider = TetrominoProvider::from_types(kind, TetrominoType::O);
        lower(&mut provider, 5);
        let board = empty_board();
        for _ in 0..4 {
            assert!(distinct(provider.get_current_cells()));
            assert_eq!(provider.rotate_current(&board), MoveStatus::Moved);
            assert!(distinct(provider.get_current_cells()));
        }
    }
}

#[test]
fn rotations_follow_the_transition_graph() {
    let t = TetrominoType::T;
    assert_eq!(t.next_rotation(&TetrominoRotation::Zero), TetrominoRotation::HalfPi);
    assert_eq!(t.next_rotation(&TetrominoRotation::HalfPi), TetrominoRotation::Pi);
    assert_eq!(t.next_rotation(&TetrominoRotation::Pi), TetrominoRotation::ThreeHalfPi);
    assert_eq!(t.next_rotation(&TetrominoRotation::ThreeHalfPi), TetrominoRotation::Zero);
    assert_eq!(TetrominoType::I.next_rotation(&TetrominoRotation::HalfPi), TetrominoRotation::Zero);
    assert_eq!(TetrominoType::S.next_rotation(&TetrominoRotation::Zero), TetrominoRotation::HalfPi);
    assert_eq!(TetrominoType::O.next_rotation(&TetrominoRotation::Zero), TetrominoRotation::Zero);
}

#[test]
fn t_piece_turns_a_quarter_at_a_time() {
    let mut provider = TetrominoProvider::from_types(TetrominoType::T, TetrominoType::O);
    lower(&mut provider, 5);
    let board = empty_board();
    // Anchor at row 5, column 5 (cell 55).
    assert_eq!(sorted(provider.get_current_cells()), [54, 55, 56, 65]);
    assert_eq!(provider.rotate_current(&board), MoveStatus::Moved);
    assert_eq!(sorted(provider.get_current_cells()), [45, 55, 56, 65]);
    assert_eq!(provider.rotate_current(&board), MoveStatus::Moved);
    assert_eq!(sorted(provider.get_current_cells()), [45, 54, 55, 56]);
    assert_eq!(provider.rotate_current(&board), MoveStatus::Moved);
    assert_eq!(sorted(provider.get_current_cells()), [45, 54, 55, 65]);
    assert_eq!(provider.rotate_current(&board), MoveStatus::Moved);
    assert_eq!(sorted(provider.get_current_cells()), [54, 55, 56, 65]);
}

#[test]
fn i_piece_has_two_orientations() {
    let mut provider = TetrominoProvider::from_types(TetrominoType::I, TetrominoType::O);
    lower(&mut provider, 2);
    let board = empty_board();
    assert_eq!(provider.get_current_cells(), [24, 34, 44, 54]);
    assert_eq!(provider.rotate_current(&board), MoveStatus::Moved);
    assert_eq!(provider.get_current_cells(), [24, 25, 26, 27]);
    assert_eq!(provider.rotate_current(&board), MoveStatus::Moved);
    assert_eq!(provider.get_current_cells(), [24, 34, 44, 54]);
}

#[test]
fn move_against_the_wall_changes_nothing() {
    let board = empty_board();
    let mut provider = TetrominoProvider::from_types(TetrominoType::I, TetrominoType::O);
    for _ in 0..4 {
        assert_eq!(provider.move_current(MoveDirection::Left, &board), MoveStatus::Moved);
    }
    assert_eq!(provider.get_current_cells(), [0, 10, 20, 30]);
    assert_eq!(provider.move_current(MoveDirection::Left, &board), MoveStatus::NotMoved);
    assert_eq!(provider.get_current_cells(), [0, 10, 20, 30]);
    for _ in 0..9 {
        assert_eq!(provider.move_current(MoveDirection::Right, &board), MoveStatus::Moved);
    }
    assert_eq!(provider.get_current_cells(), [9, 19, 29, 39]);
    assert_eq!(provider.move_current(MoveDirection::Right, &board), MoveStatus::NotMoved);
    assert_eq!(provider.get_current_cells(), [9, 19, 29, 39]);
}

#[test]
fn move_into_an_occupied_cell_changes_nothing() {
    let mut board = empty_board();
    board[13] = 1;
    let mut provider = TetrominoProvider::from_types(TetrominoType::I, TetrominoType::O);
    assert_eq!(provider.move_current(MoveDirection::Left, &board), MoveStatus::NotMoved);
    assert_eq!(provider.get_current_cells(), [4, 14, 24, 34]);
    assert_eq!(provider.move_current(MoveDirection::Right, &board), MoveStatus::Moved);
    assert_eq!(provider.get_current_cells(), [5, 15, 25, 35]);
}

#[test]
fn blocked_rotation_changes_nothing() {
    // A vertical I at the right wall cannot turn flat.
    let board = empty_board();
    let mut provider = TetrominoProvider::from_types(TetrominoType::I, TetrominoType::O);
    for _ in 0..5 {
        assert_eq!(provider.move_current(MoveDirection::Right, &board), MoveStatus::Moved);
    }
    let before = provider.get_current_cells();
    assert_eq!(provider.rotate_current(&board), MoveStatus::NotMoved);
    assert_eq!(provider.get_current_cells(), before);
    // An occupied cell in the way blocks the turn too.
    let mut provider = TetrominoProvider::from_types(TetrominoType::I, TetrominoType::O);
    let mut board = empty_board();
    board[6] = 1;
    assert_eq!(provider.rotate_current(&board), MoveStatus::NotMoved);
    assert_eq!(provider.get_current_cells(), [4, 14, 24, 34]);
}

#[test]
fn o_piece_rotation_is_a_no_op() {
    let board = empty_board();
    let mut provider = TetrominoProvider::from_types(TetrominoType::O, TetrominoType::I);
    for (moves, rows) in [(0usize, 0usize), (3, 4), (4, 18)] {
        let mut provider_here = TetrominoProvider::from_types(TetrominoType::O, TetrominoType::I);
        for _ in 0..moves {
            assert_eq!(provider_here.move_current(MoveDirection::Right, &board), MoveStatus::Moved);
        }
        lower(&mut provider_here, rows);
        let before = provider_here.get_current_cells();
        assert_eq!(provider_here.rotate_current(&board), MoveStatus::Moved);
        assert_eq!(provider_here.get_current_cells(), before);
    }
    for _ in 0..4 {
        assert_eq!(provider.move_current(MoveDirection::Left, &board), MoveStatus::Moved);
    }
    assert_eq!(provider.get_current_cells(), [0, 10, 1, 11]);
    assert_eq!(provider.rotate_current(&board), MoveStatus::Moved);
    assert_eq!(provider.get_current_cells(), [0, 10, 1, 11]);
}

#[test]
fn i_piece_falls_sixteen_rows_then_locks_on_the_floor() {
    let board = empty_board();
    let mut provider = TetrominoProvider::from_types(TetrominoType::I, TetrominoType::O);
    assert_eq!(provider.get_current_cells(), [4, 14, 24, 34]);
    for _ in 0..16 {
        assert!(matches!(provider.drop_down(&board), DroppedStatus::Dropped));
    }
    match provider.drop_down(&board) {
        DroppedStatus::NotDropped(cells) => assert_eq!(cells, [164, 174, 184, 194]),
        DroppedStatus::Dropped => panic!("the piece should rest on the floor"),
    }
    assert_eq!(provider.get_current_cells(), [164, 174, 184, 194]);
}

#[test]
fn descent_stops_on_the_stack() {
    let mut board = empty_board();
    board[104] = 1;
    let mut provider = TetrominoProvider::from_types(TetrominoType::I, TetrominoType::O);
    for _ in 0..6 {
        assert!(matches!(provider.drop_down(&board), DroppedStatus::Dropped));
    }
    match provider.drop_down(&board) {
        DroppedStatus::NotDropped(cells) => assert_eq!(cells, [64, 74, 84, 94]),
        DroppedStatus::Dropped => panic!("the piece should rest on the stack"),
    }
}

#[test]
fn queue_promotes_the_next_piece() {
    let mut board = empty_board();
    let mut provider = TetrominoProvider::from_types(TetrominoType::I, TetrominoType::T);
    assert_eq!(*provider.get_current_type(), TetrominoType::I);
    assert_eq!(*provider.get_upcoming_type(), TetrominoType::T);
    let spawn = provider.next_with_type(TetrominoType::Z, &board);
    assert!(matches!(spawn, blocchi::tetromino::CanSpawnMoreTetromino::Yes));
    assert_eq!(*provider.get_current_type(), TetrominoType::T);
    assert_eq!(provider.get_current_cells(), [5, 15, 4, 6]);
    assert_eq!(*provider.get_upcoming_type(), TetrominoType::Z);
    board[15] = 1;
    let spawn = provider.next_with_type(TetrominoType::L, &board);
    assert!(matches!(spawn, blocchi::tetromino::CanSpawnMoreTetromino::No));
    assert_eq!(*provider.get_current_type(), TetrominoType::Z);
}

#[test]
fn kinds_map_from_draws_in_declaration_order() {
    for (n, kind) in (1..=7u8).zip(ALL_KINDS) {
        assert_eq!(TetrominoType::from_roll(n), kind);
    }
}

#[test]
fn random_queue_holds_fresh_pieces() {
    let mut rng = StdRng::seed_from_u64(7);
    let mut seen = Vec::new();
    let board = empty_board();
    let mut provider = TetrominoProvider::new(&mut rng);
    for _ in 0..50 {
        let kind = *provider.get_current_type();
        let fresh = Tetromino::spawn(kind).get_cells();
        assert_eq!(provider.get_current_cells(), fresh);
        if !seen.contains(&kind) {
            seen.push(kind);
        }
        let _ = provider.next(&mut rng, &board);
    }
    assert!(seen.len() > 1);
}

#[test]
fn placement_check_rejects_the_column_left_of_the_field() {
    let board = empty_board();
    let piece = Tetromino::spawn(TetrominoType::I);
    let left_of_field = TetrominoPosition { row: 0, col: 255 };
    let rotation = TetrominoRotation::Zero;
    assert_eq!(
        piece.check_position_and_rotation_are_sound(&left_of_field, &rotation, &board),
        MoveStatus::NotMoved
    );
    let left_edge = TetrominoPosition { row: 0, col: 0 };
    assert_eq!(piece.check_position_and_rotation_are_sound(&left_edge, &rotation, &board), MoveStatus::Moved);
    let below_field = TetrominoPosition { row: 17, col: 3 };
    assert_eq!(piece.check_position_and_rotation_are_sound(&below_field, &rotation, &board), MoveStatus::NotMoved);
}

#[test]
fn shape_cells_follow_any_anchor() {
    let piece = Tetromino::spawn(TetrominoType::L);
    let far = TetrominoPosition { row: 30, col: 30 };
    assert_eq!(
        piece.get_cell_positions_from_position(&far, &TetrominoRotation::Zero),
        [(30, 30), (31, 30), (32, 30), (32, 31)]
    );
    let left_of_field = TetrominoPosition { row: 2, col: 255 };
    assert_eq!(
        piece.get_cell_positions_from_position(&left_of_field, &TetrominoRotation::HalfPi),
        [(2, -1), (2, 0), (2, 1), (1, 1)]
    );
}

#[test]
fn piece_moves_and_turns_on_its_own() {
    let board = empty_board();
    let mut piece = Tetromino::spawn(TetrominoType::O);
    for _ in 0..4 {
        assert_eq!(piece.move_with_direction(MoveDirection::Left, &board), MoveStatus::Moved);
    }
    assert_eq!(piece.move_with_direction(MoveDirection::Left, &board), MoveStatus::NotMoved);
    assert_eq!(piece.get_cells(), [0, 10, 1, 11]);
    assert_eq!(piece.rotate(&board), MoveStatus::Moved);
    assert_eq!(piece.get_cells(), [0, 10, 1, 11]);
    assert!(matches!(piece.drop_down(&board), DroppedStatus::Dropped));
    assert_eq!(piece.get_cells(), [10, 20, 11, 21]);
}
