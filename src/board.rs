//! The board: the occupancy grid together with the piece queue, and every
//! operation a game performs on them.
use vstd::prelude::*;
use crate::grid::{
    cell_index, collapse_rows, count_full, empty_row, filled_row_count, in_bounds, is_full, lemma_collapse_step,
    lemma_collapse_without_full_rows, lemma_row_filled_is_full, lemma_shift_rows, lemma_unfilled_len,
    next_cleared_cell, occupied, scan_filled, row_filled, rows_of, NUMBER_OF_CELLS, NUMBER_OF_COLUMNS, NUMBER_OF_ROWS,
};
use crate::shapes::{spawn_column, TetrominoType};
use crate::tetromino::{
    column_delta, indices_of, lemma_anchor_first, indices_of_cells, is_spawned, moved_by, piece_cells, placement_legal,
    queue_fits_field, spawn_state, turned, CanSpawnMoreTetromino, DroppedStatus, MoveDirection,
    MoveStatus, PieceState, QueueState, Tetromino, TetrominoProvider,
};

verus! {

/// The grid and the piece queue of one game.
#[derive(Debug)]
pub struct GameBoard {
    board: [u8; NUMBER_OF_CELLS],
    provider: Option<TetrominoProvider>,
}

/// What a board holds, as the contracts see it.
pub struct BoardState {
    pub grid: Seq<u8>,
    pub queue: Option<QueueState>,
}

impl View for GameBoard {
    type V = BoardState;

    closed spec fn view(&self) -> BoardState {
        BoardState {
            grid: self.board@,
            queue: match self.provider {
                Some(p) => Some(p@),
                None => None,
            },
        }
    }
}

/// Grid `g` with the cells listed in `cells` marked occupied.
pub open spec fn lock_cells(g: Seq<u8>, cells: Seq<int>) -> Seq<u8> {
    Seq::new(g.len(), |i: int| if cells.contains(i) { 1u8 } else { g[i] })
}

/// An optional `u8` cell index read as an optional integer.
pub open spec fn as_index(o: Option<u8>) -> Option<int> {
    match o {
        Some(c) => Some(c as int),
        None => None,
    }
}

/// A grid with no occupied cell.
pub open spec fn empty_grid() -> Seq<u8> {
    Seq::new(NUMBER_OF_CELLS as nat, |i: int| 0u8)
}

/// A new piece always covers its anchor on row 0, so once row 0 is filled
/// the next piece cannot come into play: `next_tetromino` answers `No`.
pub proof fn lemma_full_top_row_blocks_spawn(b: GameBoard)
    requires
        b.is_ready(),
        row_filled(b@.grid, 0),
    ensures
        !placement_legal(b@.grid, piece_cells(b.upcoming())),
{
    let p = b.upcoming();
    lemma_anchor_first(p.kind, p.row, p.col, p.rotation);
    let cells = piece_cells(p);
    assert(cells[0] == (0int, spawn_column(p.kind)));
    assert(occupied(b@.grid, cell_index(0, spawn_column(p.kind))));
    assert(indices_of_cells(cells)[0] == cell_index(0, spawn_column(p.kind)));
}

impl GameBoard {
    /// The grid has its full size, and a queue, once there is one, holds
    /// pieces that lie on the field, the next of which has not moved since
    /// it was queued.
    pub open spec fn wf(&self) -> bool {
        &&& self@.grid.len() == NUMBER_OF_CELLS
        &&& self@.queue matches Some(q) ==> queue_fits_field(q) && is_spawned(q.next)
    }

    /// The board is well formed and its queue has been filled.
    pub open spec fn is_ready(&self) -> bool {
        self.wf() && self@.queue is Some
    }

    /// The piece in play.
    pub open spec fn current(&self) -> PieceState {
        self@.queue->0.current
    }

    /// The piece that comes next.
    pub open spec fn upcoming(&self) -> PieceState {
        self@.queue->0.next
    }

    /// An empty grid and no pieces yet.
    pub fn new() -> (r: GameBoard)
        ensures
            r.wf(),
            r@.grid == empty_grid(),
            r@.queue is None,
    {
        let r = GameBoard { board: [0; NUMBER_OF_CELLS], provider: None };
        assert(r@.grid =~= empty_grid());
        r
    }

    /// Whether the queue has been filled.
    pub fn is_initialized(&self) -> (r: bool)
        ensures
            r == self@.queue is Some,
    {
        self.provider.is_some()
    }

    /// Fills the queue with two pieces drawn at random, unless it is filled already.
    pub fn init(&mut self, rng: &mut rand::rngs::StdRng)
        requires
            old(self).wf(),
        ensures
            final(self).is_ready(),
            final(self)@.grid == old(self)@.grid,
            old(self)@.queue is Some ==> final(self)@ == old(self)@ && *final(rng) == *old(rng),
            old(self)@.queue is None ==> is_spawned(final(self).current()) && is_spawned(final(self).upcoming()),
    {
        if self.provider.is_none() {
            self.provider = Some(TetrominoProvider::new(rng));
        }
    }

    /// Fills the queue with fresh pieces of the given kinds, unless it is filled already.
    pub fn init_with_types(&mut self, current: TetrominoType, next: TetrominoType)
        requires
            old(self).wf(),
        ensures
            final(self).is_ready(),
            final(self)@.grid == old(self)@.grid,
            old(self)@.queue is Some ==> final(self)@ == old(self)@,
            old(self)@.queue is None ==> final(self).current() == spawn_state(current)
                && final(self).upcoming() == spawn_state(next),
    {
        if self.provider.is_none() {
            self.provider = Some(TetrominoProvider::from_types(current, next));
        }
    }

    /// Brings the next piece into play and draws a new next piece at random.
    /// Answers `No` when the piece brought into play covers an occupied cell:
    /// the game is over.
    pub fn next_tetromino(&mut self, rng: &mut rand::rngs::StdRng) -> (r: CanSpawnMoreTetromino)
        requires
            old(self).is_ready(),
        ensures
            final(self).is_ready(),
            final(self)@.grid == old(self)@.grid,
            final(self).current() == old(self).upcoming(),
            is_spawned(final(self).upcoming()),
            (r == CanSpawnMoreTetromino::Yes) <==> placement_legal(old(self)@.grid, piece_cells(old(self).upcoming())),
    {
        match &mut self.provider {
            Some(provider) => provider.next(rng, &self.board),
            None => unreached(),
        }
    }

    /// Brings the next piece into play and queues a fresh piece of `kind`.
    /// Answers `No` when the piece brought into play covers an occupied cell.
    pub fn next_tetromino_with_type(&mut self, kind: TetrominoType) -> (r: CanSpawnMoreTetromino)
        requires
            old(self).is_ready(),
        ensures
            final(self).is_ready(),
            final(self)@.grid == old(self)@.grid,
            final(self).current() == old(self).upcoming(),
            final(self).upcoming() == spawn_state(kind),
            (r == CanSpawnMoreTetromino::Yes) <==> placement_legal(old(self)@.grid, piece_cells(old(self).upcoming())),
    {
        match &mut self.provider {
            Some(provider) => provider.next_with_type(kind, &self.board),
            None => unreached(),
        }
    }

    /// Empties the grid and replaces both queued pieces with pieces drawn at random.
    pub fn reset(&mut self, rng: &mut rand::rngs::StdRng)
        requires
            old(self).is_ready(),
        ensures
            final(self).is_ready(),
            final(self)@.grid == empty_grid(),
            is_spawned(final(self).current()),
            is_spawned(final(self).upcoming()),
    {
        self.board = [0; NUMBER_OF_CELLS];
        assert(self@.grid =~= empty_grid());
        match &mut self.provider {
            Some(provider) => {
                provider.next(rng, &self.board);
                provider.next(rng, &self.board);
            },
            None => unreached(),
        }
    }

    /// Empties the grid and queues fresh pieces of the given kinds.
    pub fn reset_with_types(&mut self, current: TetrominoType, next: TetrominoType)
        requires
            old(self).is_ready(),
        ensures
            final(self).is_ready(),
            final(self)@.grid == empty_grid(),
            final(self).current() == spawn_state(current),
            final(self).upcoming() == spawn_state(next),
    {
        self.board = [0; NUMBER_OF_CELLS];
        assert(self@.grid =~= empty_grid());
        match &mut self.provider {
            Some(provider) => {
                provider.next_with_type(current, &self.board);
                provider.next_with_type(next, &self.board);
            },
            None => unreached(),
        }
    }

    /// The kind of the piece in play.
    pub fn get_current_tetromino_type(&self) -> (r: &TetrominoType)
        requires
            self.is_ready(),
        ensures
            *r == self.current().kind,
    {
        match &self.provider {
            Some(provider) => provider.get_current_type(),
            None => unreached(),
        }
    }

    /// The kind of the piece that comes next.
    pub fn get_upcoming_tetromino_type(&self) -> (r: &TetrominoType)
        requires
            self.is_ready(),
        ensures
            *r == self.upcoming().kind,
    {
        match &self.provider {
            Some(provider) => provider.get_upcoming_type(),
            None => unreached(),
        }
    }

    /// The cells of the piece in play.
    pub fn get_current_tetromino_cells(&self) -> (r: [u8; 4])
        requires
            self.is_ready(),
        ensures
            indices_of(r) == indices_of_cells(piece_cells(self.current())),
    {
        match &self.provider {
            Some(provider) => provider.get_current_cells(),
            None => unreached(),
        }
    }

    /// The cells where the next piece will appear.
    pub fn get_upcoming_tetromino_cells(&self) -> (r: [u8; 4])
        requires
            self.is_ready(),
        ensures
            indices_of(r) == indices_of_cells(piece_cells(self.upcoming())),
    {
        match &self.provider {
            Some(provider) => provider.get_upcoming_cells(),
            None => unreached(),
        }
    }

    /// Tries to move the piece in play one row down. Where it cannot move,
    /// its cells become occupied in the grid and are returned.
    pub fn drop_down(&mut self) -> (r: DroppedStatus)
        requires
            old(self).is_ready(),
        ensures
            final(self).is_ready(),
            (r is Dropped) <==> placement_legal(old(self)@.grid, piece_cells(moved_by(old(self).current(), 1, 0))),
            r is Dropped ==> final(self).current() == moved_by(old(self).current(), 1, 0)
                && final(self).upcoming() == old(self).upcoming()
                && final(self)@.grid == old(self)@.grid,
            r is NotDropped ==> final(self)@.queue == old(self)@.queue
                && final(self)@.grid == lock_cells(old(self)@.grid, indices_of_cells(piece_cells(old(self).current()))),
            r matches DroppedStatus::NotDropped(cells) ==> indices_of(cells) == indices_of_cells(piece_cells(old(self).current())),
    {
        let ghost g = self@.grid;
        let ghost locked = indices_of_cells(piece_cells(self.current()));
        let dropped_status = match &mut self.provider {
            Some(provider) => provider.drop_down(&self.board),
            None => unreached(),
        };
        if let DroppedStatus::NotDropped(occupied_cells) = dropped_status {
            let ghost cells = piece_cells(self.current());
            proof {
                assert forall|k: int| 0 <= k < 4 implies occupied_cells[k] < NUMBER_OF_CELLS by {
                    assert(in_bounds(cells[k].0, cells[k].1));
                    assert(indices_of(occupied_cells)[k] == locked[k]);
                }
            }
            let mut i: usize = 0;
            while i < 4
                invariant
                    i <= 4,
                    self.wf(),
                    self@.queue == old(self)@.queue,
                    self@.grid == lock_cells(g, locked.take(i as int)),
                    indices_of(occupied_cells) == locked,
                    locked.len() == 4,
                    g.len() == NUMBER_OF_CELLS,
                    forall|k: int| 0 <= k < 4 ==> occupied_cells[k] < NUMBER_OF_CELLS,
                decreases 4 - i,
            {
                let cell = occupied_cells[i];
                self.board[cell as usize] = 1;
                proof {
                    assert(locked[i as int] == cell);
                    let before = locked.take(i as int);
                    let after = locked.take(i + 1);
                    assert(after =~= before.push(cell as int));
                    assert forall|j: int| 0 <= j < g.len() implies #[trigger] self@.grid[j] == lock_cells(g, after)[j] by {
                        if j == cell as int {
                            assert(after[i as int] == j);
                        } else {
                            if after.contains(j) {
                                let m = choose|m: int| 0 <= m < after.len() && after[m] == j;
                                assert(before[m] == j);
                            }
                            if before.contains(j) {
                                let m = choose|m: int| 0 <= m < before.len() && before[m] == j;
                                assert(after[m] == j);
                            }
                        }
                    }
                    assert(self@.grid =~= lock_cells(g, after));
                }
                i = i + 1;
            }
            assert(locked.take(4) =~= locked);
        }
        dropped_status
    }

    /// Whether cell `cell` is occupied.
    pub fn is_cell_occupied(&self, cell: u8) -> (r: bool)
        requires
            self.wf(),
            cell < NUMBER_OF_CELLS,
        ensures
            r == occupied(self@.grid, cell as int),
    {
        self.board[cell as usize] != 0
    }

    /// Marks cell `cell` occupied.
    pub fn occupy(&mut self, cell: u8)
        requires
            old(self).wf(),
            cell < NUMBER_OF_CELLS,
        ensures
            final(self).wf(),
            final(self)@.queue == old(self)@.queue,
            final(self)@.grid == old(self)@.grid.update(cell as int, 1u8),
    {
        self.board[cell as usize] = 1;
    }

    /// Tries to shift the piece in play one column in `direction`.
    pub fn move_tetromino(&mut self, direction: MoveDirection) -> (r: MoveStatus)
        requires
            old(self).is_ready(),
        ensures
            final(self).is_ready(),
            final(self)@.grid == old(self)@.grid,
            final(self).upcoming() == old(self).upcoming(),
            (r == MoveStatus::Moved) <==> placement_legal(old(self)@.grid, piece_cells(moved_by(old(self).current(), 0, column_delta(direction)))),
            r == MoveStatus::Moved ==> final(self).current() == moved_by(old(self).current(), 0, column_delta(direction)),
            r == MoveStatus::NotMoved ==> final(self)@ == old(self)@,
    {
        match &mut self.provider {
            Some(provider) => provider.move_current(direction, &self.board),
            None => unreached(),
        }
    }

    /// Tries to turn the piece in play to the next rotation of its kind.
    pub fn rotate_tetromino(&mut self) -> (r: MoveStatus)
        requires
            old(self).is_ready(),
        ensures
            final(self).is_ready(),
            final(self)@.grid == old(self)@.grid,
            final(self).upcoming() == old(self).upcoming(),
            (r == MoveStatus::Moved) <==> placement_legal(old(self)@.grid, piece_cells(turned(old(self).current()))),
            r == MoveStatus::Moved ==> final(self).current() == turned(old(self).current()),
            r == MoveStatus::NotMoved ==> final(self)@ == old(self)@,
            old(self).current().kind == TetrominoType::O && placement_legal(old(self)@.grid, piece_cells(old(self).current()))
                ==> r == MoveStatus::Moved && final(self)@ == old(self)@,
    {
        match &mut self.provider {
            Some(provider) => provider.rotate_current(&self.board),
            None => unreached(),
        }
    }

    /// The indices of the cells of row `row`, left to right (one per column).
    fn get_row_cells(row: u8) -> (r: [u8; 10])
        requires
            row < NUMBER_OF_ROWS,
        ensures
            forall|c: int| 0 <= c < NUMBER_OF_COLUMNS ==> #[trigger] r[c] == cell_index(row as int, c),
    {
        let mut result: [u8; 10] = [0; 10];
        result[0] = Tetromino::get_cell_from_row_and_column(row, 0);
        let mut col: u8 = 1;
        while col < NUMBER_OF_COLUMNS
            invariant
                1 <= col <= NUMBER_OF_COLUMNS,
                row < NUMBER_OF_ROWS,
                forall|c: int| 0 <= c < col ==> #[trigger] result[c] == cell_index(row as int, c),
            decreases NUMBER_OF_COLUMNS - col,
        {
            result[col as usize] = result[0] + col;
            col = col + 1;
        }
        result
    }

    /// Whether every cell of row `row` is occupied.
    pub fn is_row_filled(&self, row: u8) -> (r: bool)
        requires
            self.wf(),
            row < NUMBER_OF_ROWS,
        ensures
            r == row_filled(self@.grid, row as int),
    {
        let cells = GameBoard::get_row_cells(row);
        let mut col: u8 = 0;
        while col < NUMBER_OF_COLUMNS
            invariant
                col <= NUMBER_OF_COLUMNS,
                self.wf(),
                row < NUMBER_OF_ROWS,
                forall|c: int| 0 <= c < NUMBER_OF_COLUMNS ==> #[trigger] cells[c] == cell_index(row as int, c),
                forall|c: int| 0 <= c < col ==> occupied(self@.grid, #[trigger] cell_index(row as int, c)),
            decreases NUMBER_OF_COLUMNS - col,
        {
            assert(cells[col as int] == cell_index(row as int, col as int));
            if !self.is_cell_occupied(cells[col as usize]) {
                return false;
            }
            col = col + 1;
        }
        true
    }

    /// How many rows are filled.
    pub fn get_number_of_filled_rows(&self) -> (r: u8)
        requires
            self.wf(),
        ensures
            r == filled_row_count(self@.grid),
    {
        let ghost rows = rows_of(self@.grid);
        let mut number_of_filled_rows: u8 = 0;
        let mut row: u8 = 0;
        while row < NUMBER_OF_ROWS
            invariant
                row <= NUMBER_OF_ROWS,
                self.wf(),
                rows == rows_of(self@.grid),
                number_of_filled_rows == count_full(rows.take(row as int)),
            decreases NUMBER_OF_ROWS - row,
        {
            proof {
                lemma_row_filled_is_full(self@.grid, row as int);
                assert(rows.take(row + 1).drop_last() =~= rows.take(row as int));
                lemma_unfilled_len(rows.take(row as int));
            }
            if self.is_row_filled(row) {
                number_of_filled_rows = number_of_filled_rows + 1;
            }
            row = row + 1;
        }
        assert(rows.take(NUMBER_OF_ROWS as int) =~= rows);
        number_of_filled_rows
    }

    /// Moves rows `0..row` one row down over row `row` and empties row 0.
    fn shift_down_onto(&mut self, row: u8)
        requires
            old(self).wf(),
            row < NUMBER_OF_ROWS,
        ensures
            final(self).wf(),
            final(self)@.queue == old(self)@.queue,
            rows_of(final(self)@.grid) == seq![empty_row()] + rows_of(old(self)@.grid).subrange(0, row as int)
                + rows_of(old(self)@.grid).subrange(row + 1, NUMBER_OF_ROWS as int),
    {
        let ghost g1 = self@.grid;
        let mut row_to_drop: u8 = row;
        while row_to_drop > 0
            invariant
                row_to_drop <= row < NUMBER_OF_ROWS,
                self.wf(),
                self@.queue == old(self)@.queue,
                forall|r: int, c: int|
                    0 <= r < NUMBER_OF_ROWS && 0 <= c < NUMBER_OF_COLUMNS ==> #[trigger] self@.grid[cell_index(r, c)]
                        == if row_to_drop < r <= row { g1[cell_index(r - 1, c)] } else { g1[cell_index(r, c)] },
            decreases row_to_drop,
        {
            let mut col: u8 = 0;
            while col < NUMBER_OF_COLUMNS
                invariant
                    0 < row_to_drop <= row < NUMBER_OF_ROWS,
                    col <= NUMBER_OF_COLUMNS,
                    self.wf(),
                    self@.queue == old(self)@.queue,
                    forall|r: int, c: int|
                        0 <= r < NUMBER_OF_ROWS && 0 <= c < NUMBER_OF_COLUMNS ==> #[trigger] self@.grid[cell_index(r, c)]
                            == if (row_to_drop < r <= row) || (r == row_to_drop && c < col) {
                                g1[cell_index(r - 1, c)]
                            } else {
                                g1[cell_index(r, c)]
                            },
                decreases NUMBER_OF_COLUMNS - col,
            {
                let target_cell = Tetromino::get_cell_from_row_and_column(row_to_drop, col) as usize;
                let source_cell = Tetromino::get_cell_from_row_and_column(row_to_drop - 1, col) as usize;
                proof {
                    assert(self@.grid[cell_index(row_to_drop - 1, col as int)] == g1[cell_index(row_to_drop - 1, col as int)]);
                }
                self.board[target_cell] = self.board[source_cell];
                col = col + 1;
            }
            row_to_drop = row_to_drop - 1;
        }
        let mut col: u8 = 0;
        while col < NUMBER_OF_COLUMNS
            invariant
                row < NUMBER_OF_ROWS,
                col <= NUMBER_OF_COLUMNS,
                self.wf(),
                self@.queue == old(self)@.queue,
                forall|r: int, c: int|
                    0 <= r < NUMBER_OF_ROWS && 0 <= c < NUMBER_OF_COLUMNS ==> #[trigger] self@.grid[cell_index(r, c)]
                        == if r == 0 && c < col {
                            0u8
                        } else if 0 < r <= row {
                            g1[cell_index(r - 1, c)]
                        } else {
                            g1[cell_index(r, c)]
                        },
            decreases NUMBER_OF_COLUMNS - col,
        {
            self.board[col as usize] = 0;
            proof {
                assert(cell_index(0, col as int) == col);
            }
            col = col + 1;
        }
        proof {
            lemma_shift_rows(g1, self@.grid, row as int);
        }
    }

    /// Clears every filled row: rows are examined from the bottom up, and each
    /// time the row examined is filled, the rows above it move one row down
    /// and an empty row enters at the top.
    pub fn collapse_filled_rows(&mut self)
        requires
            old(self).wf(),
        ensures
            final(self).wf(),
            final(self)@.queue == old(self)@.queue,
            rows_of(final(self)@.grid) == collapse_rows(rows_of(old(self)@.grid)),
    {
        let ghost g0 = self@.grid;
        let mut rows_left: u8 = NUMBER_OF_ROWS;
        while rows_left > 0
            invariant
                rows_left <= NUMBER_OF_ROWS,
                self.wf(),
                self@.queue == old(self)@.queue,
                collapse_rows(rows_of(self@.grid)) == collapse_rows(rows_of(g0)),
                forall|r: int| rows_left <= r < NUMBER_OF_ROWS ==> !#[trigger] row_filled(self@.grid, r),
            decreases rows_left,
        {
            let row = rows_left - 1;
            while self.is_row_filled(row)
                invariant
                    row < NUMBER_OF_ROWS,
                    rows_left == row + 1,
                    self.wf(),
                    self@.queue == old(self)@.queue,
                    collapse_rows(rows_of(self@.grid)) == collapse_rows(rows_of(g0)),
                    forall|r: int| rows_left <= r < NUMBER_OF_ROWS ==> !#[trigger] row_filled(self@.grid, r),
                decreases count_full(rows_of(self@.grid).take(row + 1)),
            {
                let ghost before = self@.grid;
                proof {
                    lemma_row_filled_is_full(before, row as int);
                }
                self.shift_down_onto(row);
                proof {
                    let rows = rows_of(before);
                    lemma_collapse_step(rows, row as int);
                    assert(rows.subrange(0, row + 1) =~= rows.take(row + 1));
                    assert(rows_of(self@.grid).take(row + 1) =~= seq![empty_row()] + rows.subrange(0, row as int));
                    assert forall|r: int| rows_left <= r < NUMBER_OF_ROWS implies !#[trigger] row_filled(self@.grid, r) by {
                        lemma_row_filled_is_full(before, r);
                        lemma_row_filled_is_full(self@.grid, r);
                        assert(rows_of(self@.grid)[r] == rows[r]);
                    }
                }
            }
            rows_left = row;
        }
        proof {
            assert forall|i: int| 0 <= i < rows_of(self@.grid).len() implies !is_full(#[trigger] rows_of(self@.grid)[i]) by {
                lemma_row_filled_is_full(self@.grid, i);
            }
            lemma_collapse_without_full_rows(rows_of(self@.grid));
        }
    }

    /// The next cell for the line-clear animation to visit after `cell`, or
    /// the first one when `cell` is `None`: filled rows from the bottom up,
    /// each from its first column to its last. `None` once every cell of
    /// every filled row has been visited.
    pub fn get_next_cell_from_filled_row_after(&self, cell: Option<u8>) -> (r: Option<u8>)
        requires
            self.wf(),
            cell matches Some(c) ==> c < NUMBER_OF_CELLS,
        ensures
            as_index(r) == next_cleared_cell(self@.grid, as_index(cell)),
    {
        let ghost target = next_cleared_cell(self@.grid, as_index(cell));
        let (max_row, mut max_col, mut increment) = match cell {
            Some(cell) => {
                let (r, c) = Tetromino::get_row_and_column_by_cell(cell);
                (r, c, true)
            },
            None => (NUMBER_OF_ROWS - 1, 0, false),
        };
        let mut rows_left: u8 = max_row + 1;
        while rows_left > 0
            invariant
                rows_left <= NUMBER_OF_ROWS,
                max_col < NUMBER_OF_COLUMNS,
                self.wf(),
                scan_filled(self@.grid, rows_left - 1, max_col as int, increment) == target,
                target == next_cleared_cell(self@.grid, as_index(cell)),
            decreases rows_left,
        {
            let row = rows_left - 1;
            if self.is_row_filled(row) {
                if max_col < NUMBER_OF_COLUMNS - 1 {
                    let col = max_col + if increment { 1 } else { 0 };
                    assert(row_filled(self@.grid, row as int));
                    assert(scan_filled(self@.grid, row as int, max_col as int, increment)
                        == Some(cell_index(row as int, col as int)));
                    return Some(Tetromino::get_cell_from_row_and_column(row, col));
                } else {
                    max_col = 0;
                    increment = false;
                }
            }
            rows_left = row;
        }
        None
    }
}

} // verus!
