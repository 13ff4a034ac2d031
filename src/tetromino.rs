//! Pieces in play: the moves a piece can make against a grid (shift, rotate,
//! descend), and the two-piece queue that feeds the game.
use vstd::prelude::*;
use crate::grid::{cell_index, in_bounds, occupied, NUMBER_OF_CELLS, NUMBER_OF_COLUMNS, NUMBER_OF_ROWS};
use crate::shapes::{
    cells_of_i, cells_of_j, cells_of_l, cells_of_o, cells_of_s, cells_of_t, cells_of_z, is_turned_silhouette,
    lemma_turned_silhouette_witness, next_rotation_of, shape_cells, shape_offsets, spawn_column, supports,
    TetrominoRotation, TetrominoType,
};

verus! {

/// The anchor cell of a piece.
#[derive(Clone, Copy, Debug, PartialEq, Eq, Structural)]
pub struct TetrominoPosition {
    pub row: u8,
    pub col: u8,
}

/// An `(i8, i8)` cell array read as mathematical pairs.
pub open spec fn pairs_of(cells: [(i8, i8); 4]) -> Seq<(int, int)> {
    cells@.map_values(|p: (i8, i8)| (p.0 as int, p.1 as int))
}

/// A `u8` cell-index array read as mathematical integers.
pub open spec fn indices_of(cells: [u8; 4]) -> Seq<int> {
    cells@.map_values(|c: u8| c as int)
}

/// The row-major indices of a sequence of `(row, col)` cells.
pub open spec fn indices_of_cells(cells: Seq<(int, int)>) -> Seq<int> {
    cells.map_values(|p: (int, int)| cell_index(p.0, p.1))
}

/// Whether every cell of `cells` lies on the playing field.
pub open spec fn all_in_bounds(cells: Seq<(int, int)>) -> bool {
    forall|k: int| 0 <= k < cells.len() ==> in_bounds(#[trigger] cells[k].0, cells[k].1)
}

/// A piece in play: its kind, anchor and rotation.
#[derive(Clone, Copy, Debug)]
pub struct Tetromino {
    tetromino: TetrominoType,
    position: TetrominoPosition,
    rotation: TetrominoRotation,
}

/// What a piece is, as the contracts see it.
pub struct PieceState {
    pub kind: TetrominoType,
    pub row: int,
    pub col: int,
    pub rotation: TetrominoRotation,
}

/// The absolute cells that a piece occupies.
pub open spec fn piece_cells(p: PieceState) -> Seq<(int, int)> {
    shape_cells(p.kind, p.row, p.col, p.rotation)
}

/// Whether the shape table covers the piece and all its cells lie on the field.
pub open spec fn piece_fits_field(p: PieceState) -> bool {
    supports(p.kind, p.rotation) && all_in_bounds(piece_cells(p))
}

impl View for Tetromino {
    type V = PieceState;

    closed spec fn view(&self) -> PieceState {
        PieceState {
            kind: self.tetromino,
            row: self.position.row as int,
            col: self.position.col as int,
            rotation: self.rotation,
        }
    }
}

/// The outcome of one descent step.
#[derive(Clone, Copy, Debug)]
pub enum DroppedStatus {
    /// The piece moved one row down.
    Dropped,
    /// The piece could not move down and has settled on these cells.
    NotDropped([u8; 4]),
}

/// Whether a shift or a rotation took place.
#[derive(Clone, Copy, Debug, PartialEq, Eq, Structural)]
pub enum MoveStatus {
    Moved,
    NotMoved,
}

/// A sideways shift.
#[derive(Clone, Copy, Debug, PartialEq, Eq, Structural)]
pub enum MoveDirection {
    Right,
    Left,
}

/// Whether the piece that has just come into play fits on the grid.
#[derive(Clone, Copy, Debug, PartialEq, Eq, Structural)]
pub enum CanSpawnMoreTetromino {
    Yes,
    No,
}

/// The column by which a shift in `direction` moves a piece.
pub open spec fn column_delta(direction: MoveDirection) -> int {
    match direction {
        MoveDirection::Right => 1,
        MoveDirection::Left => -1,
    }
}

/// `p` moved by `dr` rows and `dc` columns.
pub open spec fn moved_by(p: PieceState, dr: int, dc: int) -> PieceState {
    PieceState { kind: p.kind, row: p.row + dr, col: p.col + dc, rotation: p.rotation }
}

/// `p` turned to the next rotation of its kind, anchor unchanged.
pub open spec fn turned(p: PieceState) -> PieceState {
    PieceState { kind: p.kind, row: p.row, col: p.col, rotation: next_rotation_of(p.kind, p.rotation) }
}

/// A new piece of `kind`: row 0, its spawn column, rotation zero.
pub open spec fn spawn_state(kind: TetrominoType) -> PieceState {
    PieceState { kind, row: 0, col: spawn_column(kind), rotation: TetrominoRotation::Zero }
}

/// Whether `cells` can hold a piece on grid `g`: every cell lies on the
/// field and none is occupied.
pub open spec fn placement_legal(g: Seq<u8>, cells: Seq<(int, int)>) -> bool {
    &&& all_in_bounds(cells)
    &&& forall|k: int| 0 <= k < cells.len() ==> !occupied(g, #[trigger] indices_of_cells(cells)[k])
}

/// The shape table starts every entry with the anchor, so a piece always
/// covers its own anchor cell.
pub(crate) proof fn lemma_anchor_first(kind: TetrominoType, row: int, col: int, rotation: TetrominoRotation)
    ensures
        shape_cells(kind, row, col, rotation).len() == 4,
        shape_cells(kind, row, col, rotation)[0] == (row, col),
{
}

/// Whether any of the four cells is occupied on `board`.
fn any_occupied(board: &[u8; NUMBER_OF_CELLS], cells: &[u8; 4]) -> (r: bool)
    requires
        forall|k: int| 0 <= k < 4 ==> cells[k] < NUMBER_OF_CELLS,
    ensures
        r == exists|k: int| 0 <= k < 4 && occupied(board@, #[trigger] indices_of(*cells)[k]),
{
    let mut i: usize = 0;
    while i < 4
        invariant
            i <= 4,
            forall|k: int| 0 <= k < 4 ==> cells[k] < NUMBER_OF_CELLS,
            forall|k: int| 0 <= k < i ==> !occupied(board@, #[trigger] indices_of(*cells)[k]),
        decreases 4 - i,
    {
        if board[cells[i] as usize] != 0 {
            assert(occupied(board@, indices_of(*cells)[i as int]));
            return true;
        }
        i = i + 1;
    }
    false
}

/// Every entry of the shape table is four distinct cells, and each is the
/// zero-rotation silhouette of its kind turned by a whole number of quarter
/// turns about the anchor. A piece that lies on the field therefore covers
/// four distinct cells of the grid.
pub proof fn lemma_piece_silhouette(p: PieceState)
    requires
        supports(p.kind, p.rotation),
    ensures
        shape_offsets(p.kind, p.rotation).len() == 4,
        shape_offsets(p.kind, p.rotation).no_duplicates(),
        piece_cells(p).len() == 4,
        piece_cells(p).no_duplicates(),
        piece_fits_field(p) ==> indices_of_cells(piece_cells(p)).no_duplicates(),
        exists|n: int| 0 <= n < 4 && is_turned_silhouette(p.kind, p.rotation, n),
{
    let s = shape_offsets(p.kind, p.rotation);
    let cells = piece_cells(p);
    let n = match p.kind {
        TetrominoType::O => 0int,
        TetrominoType::Z => if p.rotation == TetrominoRotation::Zero { 0int } else { 3int },
        _ => match p.rotation {
            TetrominoRotation::Zero => 0int,
            TetrominoRotation::HalfPi => 1int,
            TetrominoRotation::Pi => 2int,
            TetrominoRotation::ThreeHalfPi => 3int,
        },
    };
    lemma_turned_silhouette_witness(p.kind, p.rotation, n);
    assert(s.len() == 4);
    assert forall|i: int, j: int| 0 <= i < 4 && 0 <= j < 4 && i != j implies s[i] != s[j] by {
    }
    assert forall|i: int, j: int| 0 <= i < 4 && 0 <= j < 4 && i != j implies cells[i] != cells[j] by {
        assert(s[i] != s[j]);
    }
    if piece_fits_field(p) {
        let idx = indices_of_cells(cells);
        assert forall|i: int, j: int| 0 <= i < 4 && 0 <= j < 4 && i != j implies idx[i] != idx[j] by {
            assert(in_bounds(cells[i].0, cells[i].1));
            assert(in_bounds(cells[j].0, cells[j].1));
            assert(cells[i] != cells[j]);
        }
    }
}

/// An anchor coordinate read as the shape arithmetic reads it, as a signed
/// byte: 255 stands for one left of (or above) the field.
pub open spec fn signed_coord(x: u8) -> int {
    if x < 128 {
        x as int
    } else {
        x - 256
    }
}

/// Whether the shape arithmetic on signed bytes can place the cells around
/// an anchor coordinate: offsets reach two below it and three above it.
pub open spec fn anchor_fits_i8(x: u8) -> bool {
    -126 <= signed_coord(x) <= 124
}

/// An anchor coordinate as a signed byte.
fn as_signed(x: u8) -> (r: i8)
    ensures
        r == signed_coord(x),
{
    if x < 128 {
        x as i8
    } else {
        (x as i16 - 256) as i8
    }
}

impl Tetromino {
    /// Whether the piece has an entry in the shape table and lies on the field.
    pub open spec fn wf(&self) -> bool {
        piece_fits_field(self@)
    }

    /// A new piece of `kind` at its spawn column, row 0, rotation zero.
    pub fn spawn(kind: TetrominoType) -> (r: Tetromino)
        ensures
            r@ == spawn_state(kind),
            r.wf(),
    {
        let col = kind.starting_column();
        let r = Tetromino {
            tetromino: kind,
            position: TetrominoPosition { row: 0, col },
            rotation: TetrominoRotation::Zero,
        };
        assert(all_in_bounds(piece_cells(r@)));
        r
    }

    /// A new piece of a kind drawn at random, placed as `spawn` places it.
    fn new(rng: &mut rand::rngs::StdRng) -> (r: Tetromino)
        ensures
            r@ == spawn_state(r@.kind),
            r.wf(),
    {
        let kind = TetrominoType::random(rng);
        Tetromino::spawn(kind)
    }

    /// The row-major indices of the cells this piece occupies.
    pub fn get_cells(&self) -> (r: [u8; 4])
        requires
            self.wf(),
        ensures
            indices_of(r) == indices_of_cells(piece_cells(self@)),
    {
        proof {
            lemma_anchor_first(self@.kind, self@.row, self@.col, self@.rotation);
            assert(in_bounds(piece_cells(self@)[0].0, piece_cells(self@)[0].1));
        }
        self.get_cells_from_position(&self.position, &self.rotation)
    }

    /// The cells that this piece's kind would occupy anchored at `position`
    /// (each coordinate read as a signed byte) with `rotation`. Cells may lie
    /// off the field; the caller checks them.
    pub fn get_cell_positions_from_position(
        &self,
        position: &TetrominoPosition,
        rotation: &TetrominoRotation,
    ) -> (r: [(i8, i8); 4])
        requires
            supports(self@.kind, *rotation),
            anchor_fits_i8(position.row),
            anchor_fits_i8(position.col),
        ensures
            pairs_of(r) == shape_cells(self@.kind, signed_coord(position.row), signed_coord(position.col), *rotation),
    {
        let row = as_signed(position.row);
        let col = as_signed(position.col);
        match self.tetromino {
            TetrominoType::I => cells_of_i(row, col, rotation),
            TetrominoType::O => cells_of_o(row, col, rotation),
            TetrominoType::T => cells_of_t(row, col, rotation),
            TetrominoType::J => cells_of_j(row, col, rotation),
            TetrominoType::L => cells_of_l(row, col, rotation),
            TetrominoType::S => cells_of_s(row, col, rotation),
            TetrominoType::Z => cells_of_z(row, col, rotation),
        }
    }

    /// The row-major indices of four cells that lie on the field.
    fn get_cells_from_positions(&self, positions: &[(i8, i8); 4]) -> (r: [u8; 4])
        requires
            all_in_bounds(pairs_of(*positions)),
        ensures
            indices_of(r) == indices_of_cells(pairs_of(*positions)),
    {
        assert(in_bounds(pairs_of(*positions)[0].0, pairs_of(*positions)[0].1));
        assert(in_bounds(pairs_of(*positions)[1].0, pairs_of(*positions)[1].1));
        assert(in_bounds(pairs_of(*positions)[2].0, pairs_of(*positions)[2].1));
        assert(in_bounds(pairs_of(*positions)[3].0, pairs_of(*positions)[3].1));
        let r = [
            Tetromino::get_cell_from_row_and_column(positions[0].0 as u8, positions[0].1 as u8),
            Tetromino::get_cell_from_row_and_column(positions[1].0 as u8, positions[1].1 as u8),
            Tetromino::get_cell_from_row_and_column(positions[2].0 as u8, positions[2].1 as u8),
            Tetromino::get_cell_from_row_and_column(positions[3].0 as u8, positions[3].1 as u8),
        ];
        assert(indices_of(r) =~= indices_of_cells(pairs_of(*positions)));
        r
    }

    /// The row-major indices of the cells this piece's kind would occupy
    /// anchored at `position` with `rotation`; those cells lie on the field.
    fn get_cells_from_position(&self, position: &TetrominoPosition, rotation: &TetrominoRotation) -> (r: [u8; 4])
        requires
            supports(self@.kind, *rotation),
            anchor_fits_i8(position.row),
            anchor_fits_i8(position.col),
            all_in_bounds(shape_cells(self@.kind, signed_coord(position.row), signed_coord(position.col), *rotation)),
        ensures
            indices_of(r) == indices_of_cells(
                shape_cells(self@.kind, signed_coord(position.row), signed_coord(position.col), *rotation),
            ),
    {
        let positions = self.get_cell_positions_from_position(position, rotation);
        self.get_cells_from_positions(&positions)
    }

    /// The row-major index of the cell at `(row, col)`.
    pub fn get_cell_from_row_and_column(row: u8, col: u8) -> (r: u8)
        requires
            cell_index(row as int, col as int) <= u8::MAX,
        ensures
            r == cell_index(row as int, col as int),
    {
        row * NUMBER_OF_COLUMNS + col
    }

    /// The `(row, col)` of the cell at row-major index `cell`.
    pub fn get_row_and_column_by_cell(cell: u8) -> (r: (u8, u8))
        ensures
            r.0 == cell as int / NUMBER_OF_COLUMNS as int,
            r.1 == cell as int % NUMBER_OF_COLUMNS as int,
            cell_index(r.0 as int, r.1 as int) == cell,
    {
        (cell / NUMBER_OF_COLUMNS, cell % NUMBER_OF_COLUMNS)
    }

    /// Whether this piece's kind, anchored at `next_position` (each coordinate
    /// read as a signed byte, so 255 is one left of column 0) with
    /// `next_rotation`, would lie on the field without covering an occupied
    /// cell. Cells off the field make the placement illegal.
    pub fn check_position_and_rotation_are_sound(
        &self,
        next_position: &TetrominoPosition,
        next_rotation: &TetrominoRotation,
        board: &[u8; NUMBER_OF_CELLS],
    ) -> (r: MoveStatus)
        requires
            supports(self@.kind, *next_rotation),
            anchor_fits_i8(next_position.row),
            anchor_fits_i8(next_position.col),
        ensures
            (r == MoveStatus::Moved) <==> placement_legal(
                board@,
                shape_cells(self@.kind, signed_coord(next_position.row), signed_coord(next_position.col), *next_rotation),
            ),
    {
        let ghost target = shape_cells(self@.kind, signed_coord(next_position.row), signed_coord(next_position.col), *next_rotation);
        let cells = self.get_cell_positions_from_position(next_position, next_rotation);
        let mut i: usize = 0;
        while i < 4
            invariant
                i <= 4,
                pairs_of(cells) == target,
                target == shape_cells(self@.kind, signed_coord(next_position.row), signed_coord(next_position.col), *next_rotation),
                target.len() == 4,
                forall|k: int| 0 <= k < i ==> in_bounds(#[trigger] target[k].0, target[k].1),
            decreases 4 - i,
        {
            let row = cells[i].0;
            let col = cells[i].1;
            assert(target[i as int] == (row as int, col as int));
            if row < 0 || row >= NUMBER_OF_ROWS as i8 || col < 0 || col >= NUMBER_OF_COLUMNS as i8 {
                assert(!in_bounds(target[i as int].0, target[i as int].1));
                assert(!all_in_bounds(target));
                return MoveStatus::NotMoved;
            }
            i = i + 1;
        }
        assert(all_in_bounds(target));
        let targeted_cells = self.get_cells_from_positions(&cells);
        proof {
            assert forall|k: int| 0 <= k < 4 implies targeted_cells[k] < NUMBER_OF_CELLS by {
                assert(in_bounds(target[k].0, target[k].1));
                assert(indices_of(targeted_cells)[k] == indices_of_cells(target)[k]);
            }
        }
        if any_occupied(board, &targeted_cells) {
            proof {
                let k = choose|k: int| 0 <= k < 4 && occupied(board@, #[trigger] indices_of(targeted_cells)[k]);
                assert(indices_of(targeted_cells)[k] == indices_of_cells(target)[k]);
            }
            return MoveStatus::NotMoved;
        }
        proof {
            assert forall|k: int| 0 <= k < target.len() implies !occupied(board@, #[trigger] indices_of_cells(target)[k]) by {
                assert(indices_of(targeted_cells)[k] == indices_of_cells(target)[k]);
            }
        }
        MoveStatus::Moved
    }

    /// Tries to move the piece one row down. When the row below is free the
    /// piece moves; otherwise it stays and the cells it has settled on are
    /// returned.
    pub fn drop_down(&mut self, board: &[u8; NUMBER_OF_CELLS]) -> (r: DroppedStatus)
        requires
            old(self).wf(),
        ensures
            final(self).wf(),
            (r is Dropped) <==> placement_legal(board@, piece_cells(moved_by(old(self)@, 1, 0))),
            r is Dropped ==> final(self)@ == moved_by(old(self)@, 1, 0),
            r is NotDropped ==> final(self)@ == old(self)@,
            r matches DroppedStatus::NotDropped(cells) ==> indices_of(cells) == indices_of_cells(piece_cells(old(self)@)),
    {
        let ghost p = self@;
        let ghost below = piece_cells(moved_by(p, 1, 0));
        let height = self.tetromino.height(&self.rotation);
        proof {
            lemma_anchor_first(p.kind, p.row, p.col, p.rotation);
            assert(in_bounds(piece_cells(p)[0].0, piece_cells(p)[0].1));
            assert(in_bounds(piece_cells(p)[1].0, piece_cells(p)[1].1));
            assert(in_bounds(piece_cells(p)[2].0, piece_cells(p)[2].1));
            assert(in_bounds(piece_cells(p)[3].0, piece_cells(p)[3].1));
        }
        if self.position.row + height == NUMBER_OF_ROWS {
            proof {
                let k = choose|k: int| 0 <= k < 4 && #[trigger] shape_offsets(p.kind, p.rotation)[k].0 == height - 1;
                assert(!in_bounds(below[k].0, below[k].1));
            }
            let cells = self.get_cells();
            return DroppedStatus::NotDropped(cells);
        }
        let lowest = NUMBER_OF_ROWS - height;
        let next_row = if lowest < self.position.row + 1 { lowest } else { self.position.row + 1 };
        let next_position = TetrominoPosition { row: next_row, col: self.position.col };
        proof {
            assert(next_row == p.row + 1);
            assert forall|k: int| 0 <= k < 4 implies in_bounds(#[trigger] below[k].0, below[k].1) by {
                assert(in_bounds(piece_cells(p)[k].0, piece_cells(p)[k].1));
                assert(shape_offsets(p.kind, p.rotation)[k].0 < height);
            }
            assert(below == shape_cells(p.kind, next_row as int, p.col, p.rotation));
        }
        let targeted_cells = self.get_cells_from_position(&next_position, &self.rotation);
        proof {
            assert forall|k: int| 0 <= k < 4 implies targeted_cells[k] < NUMBER_OF_CELLS by {
                assert(in_bounds(below[k].0, below[k].1));
                assert(indices_of(targeted_cells)[k] == indices_of_cells(below)[k]);
            }
        }
        if any_occupied(board, &targeted_cells) {
            proof {
                let k = choose|k: int| 0 <= k < 4 && occupied(board@, #[trigger] indices_of(targeted_cells)[k]);
                assert(indices_of(targeted_cells)[k] == indices_of_cells(below)[k]);
            }
            let cells = self.get_cells();
            return DroppedStatus::NotDropped(cells);
        }
        proof {
            assert forall|k: int| 0 <= k < below.len() implies !occupied(board@, #[trigger] indices_of_cells(below)[k]) by {
                assert(indices_of(targeted_cells)[k] == indices_of_cells(below)[k]);
            }
        }
        self.position.row = next_row;
        proof {
            assert(self@ == moved_by(p, 1, 0));
        }
        DroppedStatus::Dropped
    }

    /// Tries to shift the piece one column in `direction`; the piece moves
    /// only where it would lie on the field without covering an occupied cell.
    pub fn move_with_direction(&mut self, direction: MoveDirection, board: &[u8; NUMBER_OF_CELLS]) -> (r: MoveStatus)
        requires
            old(self).wf(),
        ensures
            final(self).wf(),
            (r == MoveStatus::Moved) <==> placement_legal(board@, piece_cells(moved_by(old(self)@, 0, column_delta(direction)))),
            r == MoveStatus::Moved ==> final(self)@ == moved_by(old(self)@, 0, column_delta(direction)),
            r == MoveStatus::NotMoved ==> final(self)@ == old(self)@,
    {
        let ghost p = self@;
        let ghost target = piece_cells(moved_by(p, 0, column_delta(direction)));
        proof {
            lemma_anchor_first(p.kind, p.row, p.col, p.rotation);
            lemma_anchor_first(p.kind, p.row, p.col + column_delta(direction), p.rotation);
            assert(in_bounds(piece_cells(p)[0].0, piece_cells(p)[0].1));
        }
        let next_column = match direction {
            MoveDirection::Left => self.position.col.wrapping_sub(1),
            MoveDirection::Right => self.position.col + 1,
        };
        assert(signed_coord(next_column) == p.col + column_delta(direction));
        let next_position = TetrominoPosition { row: self.position.row, col: next_column };
        let moved = self.check_position_and_rotation_are_sound(&next_position, &self.rotation, board);
        if let MoveStatus::Moved = moved {
            proof {
                assert(in_bounds(target[0].0, target[0].1));
            }
            self.position.col = next_column;
        }
        moved
    }

    /// Tries to turn the piece to the next rotation of its kind, anchor
    /// unchanged; the piece turns only where it would lie on the field
    /// without covering an occupied cell.
    pub fn rotate(&mut self, board: &[u8; NUMBER_OF_CELLS]) -> (r: MoveStatus)
        requires
            old(self).wf(),
        ensures
            final(self).wf(),
            (r == MoveStatus::Moved) <==> placement_legal(board@, piece_cells(turned(old(self)@))),
            r == MoveStatus::Moved ==> final(self)@ == turned(old(self)@),
            r == MoveStatus::NotMoved ==> final(self)@ == old(self)@,
            old(self)@.kind == TetrominoType::O && placement_legal(board@, piece_cells(old(self)@))
                ==> r == MoveStatus::Moved && final(self)@ == old(self)@,
    {
        let ghost p = self@;
        proof {
            lemma_anchor_first(p.kind, p.row, p.col, p.rotation);
            assert(in_bounds(piece_cells(p)[0].0, piece_cells(p)[0].1));
        }
        let next_rotation = self.tetromino.next_rotation(&self.rotation);
        let moved = self.check_position_and_rotation_are_sound(&self.position, &next_rotation, board);
        if let MoveStatus::Moved = moved {
            self.rotation = next_rotation;
        }
        moved
    }
}


/// The two pieces of the queue: the one in play and the one after it.
#[derive(Debug)]
pub struct TetrominoProvider {
    current: Tetromino,
    next: Tetromino,
}

/// What the queue holds, as the contracts see it.
pub struct QueueState {
    pub current: PieceState,
    pub next: PieceState,
}

impl View for TetrominoProvider {
    type V = QueueState;

    closed spec fn view(&self) -> QueueState {
        QueueState { current: self.current@, next: self.next@ }
    }
}

/// Whether both pieces of the queue have an entry in the shape table and lie on the field.
pub open spec fn queue_fits_field(q: QueueState) -> bool {
    piece_fits_field(q.current) && piece_fits_field(q.next)
}

/// Whether `p` is a piece freshly placed by the queue.
pub open spec fn is_spawned(p: PieceState) -> bool {
    p == spawn_state(p.kind)
}

impl TetrominoProvider {
    /// Whether both pieces lie on the field.
    pub open spec fn wf(&self) -> bool {
        queue_fits_field(self@)
    }

    /// A queue of two pieces whose kinds are drawn at random.
    pub fn new(rng: &mut rand::rngs::StdRng) -> (r: TetrominoProvider)
        ensures
            r.wf(),
            is_spawned(r@.current),
            is_spawned(r@.next),
    {
        let current = Tetromino::new(rng);
        let next = Tetromino::new(rng);
        TetrominoProvider { current, next }
    }

    /// A queue holding a fresh `current` piece and a fresh `next` piece of the
    /// given kinds.
    pub fn from_types(current: TetrominoType, next: TetrominoType) -> (r: TetrominoProvider)
        ensures
            r.wf(),
            r@.current == spawn_state(current),
            r@.next == spawn_state(next),
    {
        TetrominoProvider { current: Tetromino::spawn(current), next: Tetromino::spawn(next) }
    }

    /// Promotes the next piece into play and draws a new next piece at random.
    /// Answers whether the promoted piece covers no occupied cell of `board`.
    pub fn next(&mut self, rng: &mut rand::rngs::StdRng, board: &[u8; NUMBER_OF_CELLS]) -> (r: CanSpawnMoreTetromino)
        requires
            old(self).wf(),
        ensures
            final(self).wf(),
            final(self)@.current == old(self)@.next,
            is_spawned(final(self)@.next),
            (r == CanSpawnMoreTetromino::Yes) <==> placement_legal(board@, piece_cells(old(self)@.next)),
    {
        let kind = TetrominoType::random(rng);
        self.next_with_type(kind, board)
    }

    /// Promotes the next piece into play and queues a fresh piece of `kind`.
    /// Answers whether the promoted piece covers no occupied cell of `board`.
    pub fn next_with_type(&mut self, kind: TetrominoType, board: &[u8; NUMBER_OF_CELLS]) -> (r: CanSpawnMoreTetromino)
        requires
            old(self).wf(),
        ensures
            final(self).wf(),
            final(self)@.current == old(self)@.next,
            final(self)@.next == spawn_state(kind),
            (r == CanSpawnMoreTetromino::Yes) <==> placement_legal(board@, piece_cells(old(self)@.next)),
    {
        self.current = self.next;
        self.next = Tetromino::spawn(kind);
        let ghost cells = piece_cells(self.current@);
        let new_current_cells = self.current.get_cells();
        proof {
            assert forall|k: int| 0 <= k < 4 implies new_current_cells[k] < NUMBER_OF_CELLS by {
                assert(in_bounds(cells[k].0, cells[k].1));
                assert(indices_of(new_current_cells)[k] == indices_of_cells(cells)[k]);
            }
        }
        if any_occupied(board, &new_current_cells) {
            proof {
                let k = choose|k: int| 0 <= k < 4 && occupied(board@, #[trigger] indices_of(new_current_cells)[k]);
                assert(indices_of(new_current_cells)[k] == indices_of_cells(cells)[k]);
            }
            return CanSpawnMoreTetromino::No;
        }
        proof {
            assert forall|k: int| 0 <= k < cells.len() implies !occupied(board@, #[trigger] indices_of_cells(cells)[k]) by {
                assert(indices_of(new_current_cells)[k] == indices_of_cells(cells)[k]);
            }
        }
        CanSpawnMoreTetromino::Yes
    }

    /// The kind of the piece in play.
    pub fn get_current_type(&self) -> (r: &TetrominoType)
        ensures
            *r == self@.current.kind,
    {
        &self.current.tetromino
    }

    /// The kind of the piece that comes next.
    pub fn get_upcoming_type(&self) -> (r: &TetrominoType)
        ensures
            *r == self@.next.kind,
    {
        &self.next.tetromino
    }

    /// The cells of the piece in play.
    pub fn get_current_cells(&self) -> (r: [u8; 4])
        requires
            self.wf(),
        ensures
            indices_of(r) == indices_of_cells(piece_cells(self@.current)),
    {
        self.current.get_cells()
    }

    /// The cells of the piece that comes next, where it will appear.
    pub fn get_upcoming_cells(&self) -> (r: [u8; 4])
        requires
            self.wf(),
        ensures
            indices_of(r) == indices_of_cells(piece_cells(self@.next)),
    {
        self.next.get_cells()
    }

    /// Tries to move the piece in play one row down (see `DroppedStatus`).
    pub fn drop_down(&mut self, board: &[u8; NUMBER_OF_CELLS]) -> (r: DroppedStatus)
        requires
            old(self).wf(),
        ensures
            final(self).wf(),
            final(self)@.next == old(self)@.next,
            (r is Dropped) <==> placement_legal(board@, piece_cells(moved_by(old(self)@.current, 1, 0))),
            r is Dropped ==> final(self)@.current == moved_by(old(self)@.current, 1, 0),
            r is NotDropped ==> final(self)@ == old(self)@,
            r matches DroppedStatus::NotDropped(cells) ==> indices_of(cells) == indices_of_cells(piece_cells(old(self)@.current)),
    {
        self.current.drop_down(board)
    }

    /// Tries to shift the piece in play one column in `direction`.
    pub fn move_current(&mut self, direction: MoveDirection, board: &[u8; NUMBER_OF_CELLS]) -> (r: MoveStatus)
        requires
            old(self).wf(),
        ensures
            final(self).wf(),
            final(self)@.next == old(self)@.next,
            (r == MoveStatus::Moved) <==> placement_legal(board@, piece_cells(moved_by(old(self)@.current, 0, column_delta(direction)))),
            r == MoveStatus::Moved ==> final(self)@.current == moved_by(old(self)@.current, 0, column_delta(direction)),
            r == MoveStatus::NotMoved ==> final(self)@ == old(self)@,
    {
        self.current.move_with_direction(direction, board)
    }

    /// Tries to turn the piece in play to the next rotation of its kind.
    pub fn rotate_current(&mut self, board: &[u8; NUMBER_OF_CELLS]) -> (r: MoveStatus)
        requires
            old(self).wf(),
        ensures
            final(self).wf(),
            final(self)@.next == old(self)@.next,
            (r == MoveStatus::Moved) <==> placement_legal(board@, piece_cells(turned(old(self)@.current))),
            r == MoveStatus::Moved ==> final(self)@.current == turned(old(self)@.current),
            r == MoveStatus::NotMoved ==> final(self)@ == old(self)@,
            old(self)@.current.kind == TetrominoType::O && placement_legal(board@, piece_cells(old(self)@.current))
                ==> r == MoveStatus::Moved && final(self)@ == old(self)@,
    {
        self.current.rotate(board)
    }
}

} // verus!
