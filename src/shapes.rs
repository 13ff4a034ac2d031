//! The shape table: tetromino kinds and rotation labels, the four cells each
//! kind covers at each rotation, the rotation-transition graph, and where a
//! new piece of each kind appears.
use vstd::prelude::*;
use crate::random::roll_one_to_seven;
use crate::tetromino::pairs_of;

verus! {

/// The seven tetromino kinds.
#[derive(Clone, Copy, Debug, PartialEq, Eq, Structural)]
pub enum TetrominoType {
    I,
    O,
    T,
    J,
    L,
    S,
    Z,
}

/// A rotation label, in quarter turns.
#[derive(Clone, Copy, Debug, PartialEq, Eq, Structural)]
pub enum TetrominoRotation {
    Zero,
    HalfPi,
    Pi,
    ThreeHalfPi,
}

/// Whether the shape table holds an entry for `kind` at `rotation`:
/// O has one orientation, I, S and Z have two, T, J and L have four.
pub open spec fn supports(kind: TetrominoType, rotation: TetrominoRotation) -> bool {
    match kind {
        TetrominoType::O => rotation == TetrominoRotation::Zero,
        TetrominoType::I | TetrominoType::S | TetrominoType::Z => {
            rotation == TetrominoRotation::Zero || rotation == TetrominoRotation::HalfPi
        },
        _ => true,
    }
}

/// The rotation-transition graph: O loops on itself, I, S and Z alternate
/// between 0 and 90 degrees, T, J and L cycle through all four labels.
pub open spec fn next_rotation_of(kind: TetrominoType, rotation: TetrominoRotation) -> TetrominoRotation {
    match kind {
        TetrominoType::O => TetrominoRotation::Zero,
        TetrominoType::I | TetrominoType::S | TetrominoType::Z => match rotation {
            TetrominoRotation::Zero => TetrominoRotation::HalfPi,
            _ => TetrominoRotation::Zero,
        },
        _ => match rotation {
            TetrominoRotation::Zero => TetrominoRotation::HalfPi,
            TetrominoRotation::HalfPi => TetrominoRotation::Pi,
            TetrominoRotation::Pi => TetrominoRotation::ThreeHalfPi,
            TetrominoRotation::ThreeHalfPi => TetrominoRotation::Zero,
        },
    }
}

/// The shape table: the four `(row, col)` offsets, from the anchor, of the
/// cells that `kind` occupies at `rotation`. The anchor itself comes first.
pub open spec fn shape_offsets(kind: TetrominoType, rotation: TetrominoRotation) -> Seq<(int, int)> {
    match kind {
        TetrominoType::I => match rotation {
            TetrominoRotation::Zero => seq![(0, 0), (1, 0), (2, 0), (3, 0)],
            _ => seq![(0, 0), (0, 1), (0, 2), (0, 3)],
        },
        TetrominoType::O => seq![(0, 0), (1, 0), (0, 1), (1, 1)],
        TetrominoType::T => match rotation {
            TetrominoRotation::Zero => seq![(0, 0), (1, 0), (0, -1), (0, 1)],
            TetrominoRotation::HalfPi => seq![(0, 0), (1, 0), (-1, 0), (0, 1)],
            TetrominoRotation::Pi => seq![(0, 0), (-1, 0), (0, -1), (0, 1)],
            TetrominoRotation::ThreeHalfPi => seq![(0, 0), (1, 0), (-1, 0), (0, -1)],
        },
        TetrominoType::J => match rotation {
            TetrominoRotation::Zero => seq![(0, 0), (1, 0), (2, 0), (2, -1)],
            TetrominoRotation::HalfPi => seq![(0, 0), (0, 1), (0, 2), (1, 2)],
            TetrominoRotation::Pi => seq![(0, 0), (-1, 0), (-2, 0), (-2, 1)],
            TetrominoRotation::ThreeHalfPi => seq![(0, 0), (0, -1), (0, -2), (-1, -2)],
        },
        TetrominoType::L => match rotation {
            TetrominoRotation::Zero => seq![(0, 0), (1, 0), (2, 0), (2, 1)],
            TetrominoRotation::HalfPi => seq![(0, 0), (0, 1), (0, 2), (-1, 2)],
            TetrominoRotation::Pi => seq![(0, 0), (-1, 0), (-2, 0), (-2, -1)],
            TetrominoRotation::ThreeHalfPi => seq![(0, 0), (0, -1), (0, -2), (1, -2)],
        },
        TetrominoType::S => match rotation {
            TetrominoRotation::Zero => seq![(0, 0), (1, 0), (0, 1), (1, -1)],
            _ => seq![(0, 0), (-1, 0), (0, 1), (1, 1)],
        },
        TetrominoType::Z => match rotation {
            TetrominoRotation::Zero => seq![(0, 0), (1, 0), (0, -1), (1, 1)],
            _ => seq![(0, 0), (-1, 0), (0, -1), (1, -1)],
        },
    }
}

/// The absolute `(row, col)` cells of `kind` anchored at `(row, col)` with
/// `rotation`, in the order of the shape table.
pub open spec fn shape_cells(kind: TetrominoType, row: int, col: int, rotation: TetrominoRotation) -> Seq<(int, int)> {
    shape_offsets(kind, rotation).map_values(|o: (int, int)| (row + o.0, col + o.1))
}

/// The column where a new piece of `kind` appears.
pub open spec fn spawn_column(kind: TetrominoType) -> int {
    match kind {
        TetrominoType::I | TetrominoType::O | TetrominoType::L | TetrominoType::S => 4,
        TetrominoType::T | TetrominoType::J | TetrominoType::Z => 5,
    }
}

/// The kind that a draw of `n` in `1..=7` stands for, in declaration order.
pub open spec fn kind_of_roll(n: int) -> TetrominoType {
    if n == 1 {
        TetrominoType::I
    } else if n == 2 {
        TetrominoType::O
    } else if n == 3 {
        TetrominoType::T
    } else if n == 4 {
        TetrominoType::J
    } else if n == 5 {
        TetrominoType::L
    } else if n == 6 {
        TetrominoType::S
    } else {
        TetrominoType::Z
    }
}

/// Offset `o` turned by `n` quarter turns about the anchor, each turn
/// taking `(row, col)` to `(-col, row)`.
pub open spec fn quarter_turns(o: (int, int), n: int) -> (int, int) {
    if n == 0 {
        o
    } else if n == 1 {
        (-o.1, o.0)
    } else if n == 2 {
        (-o.0, -o.1)
    } else {
        (o.1, -o.0)
    }
}

/// Whether the shape of `kind` at `rotation` holds every offset of its
/// zero-rotation shape turned by `n` quarter turns.
pub open spec fn is_turned_silhouette(kind: TetrominoType, rotation: TetrominoRotation, n: int) -> bool {
    forall|k: int| 0 <= k < 4
        ==> #[trigger] shape_offsets(kind, rotation).contains(quarter_turns(shape_offsets(kind, TetrominoRotation::Zero)[k], n))
}

pub(crate) proof fn lemma_turned_silhouette_witness(kind: TetrominoType, rotation: TetrominoRotation, n: int)
    requires
        supports(kind, rotation),
        0 <= n < 4,
        n == match kind {
            TetrominoType::O => 0int,
            TetrominoType::Z => if rotation == TetrominoRotation::Zero { 0int } else { 3int },
            _ => match rotation {
                TetrominoRotation::Zero => 0int,
                TetrominoRotation::HalfPi => 1int,
                TetrominoRotation::Pi => 2int,
                TetrominoRotation::ThreeHalfPi => 3int,
            },
        },
    ensures
        is_turned_silhouette(kind, rotation, n),
{
    let s = shape_offsets(kind, rotation);
    let z = shape_offsets(kind, TetrominoRotation::Zero);
    assert forall|k: int| 0 <= k < 4 implies #[trigger] s.contains(quarter_turns(z[k], n)) by {
        let t = quarter_turns(z[k], n);
        if s[0] == t {
        } else if s[1] == t {
        } else if s[2] == t {
        } else {
            assert(s[3] == t);
        }
    }
}

/// Whether the shape of `kind` at rotation `to` holds every offset of its
/// shape at rotation `from`, turned a quarter turn about the anchor and then
/// shifted by `(dr, dc)`. Both shapes are four distinct cells, so the two
/// then cover the same silhouette.
pub open spec fn is_quarter_turn_step(
    kind: TetrominoType,
    from: TetrominoRotation,
    to: TetrominoRotation,
    dr: int,
    dc: int,
) -> bool {
    forall|k: int| 0 <= k < 4 ==> #[trigger] shape_offsets(kind, to).contains(
        (quarter_turns(shape_offsets(kind, from)[k], 1).0 + dr, quarter_turns(shape_offsets(kind, from)[k], 1).1 + dc),
    )
}

/// Each step of the rotation graph turns the silhouette by a quarter turn,
/// up to a shift of the whole shape; for O the step leaves the shape as it is.
pub proof fn lemma_rotation_step_is_quarter_turn(kind: TetrominoType, rotation: TetrominoRotation)
    requires
        supports(kind, rotation),
    ensures
        exists|dr: int, dc: int| is_quarter_turn_step(kind, rotation, next_rotation_of(kind, rotation), dr, dc),
        kind == TetrominoType::O ==> shape_offsets(kind, next_rotation_of(kind, rotation)) == shape_offsets(kind, rotation),
{
    let to = next_rotation_of(kind, rotation);
    let (dr, dc) = match kind {
        TetrominoType::I => if rotation == TetrominoRotation::Zero { (0int, 0int) } else { (3int, 0int) },
        TetrominoType::O => (1int, 0int),
        TetrominoType::S => if rotation == TetrominoRotation::Zero { (0int, 0int) } else { (1int, 0int) },
        TetrominoType::Z => if rotation == TetrominoRotation::Zero { (0int, -1int) } else { (0int, 0int) },
        _ => (0int, 0int),
    };
    let s = shape_offsets(kind, to);
    let f = shape_offsets(kind, rotation);
    assert forall|k: int| 0 <= k < 4 implies #[trigger] s.contains(
        (quarter_turns(f[k], 1).0 + dr, quarter_turns(f[k], 1).1 + dc),
    ) by {
        let t = (quarter_turns(f[k], 1).0 + dr, quarter_turns(f[k], 1).1 + dc);
        if s[0] == t {
        } else if s[1] == t {
        } else if s[2] == t {
        } else {
            assert(s[3] == t);
        }
    }
    assert(is_quarter_turn_step(kind, rotation, to, dr, dc));
}

/// The cells of an I piece: a bar of four, upright at 0 degrees, flat at 90.
pub(crate) fn cells_of_i(row: i8, col: i8, rotation: &TetrominoRotation) -> (r: [(i8, i8); 4])
    requires
        supports(TetrominoType::I, *rotation),
        -126 <= row <= 124,
        -126 <= col <= 124,
    ensures
        pairs_of(r) == shape_cells(TetrominoType::I, row as int, col as int, *rotation),
{
    let r = match rotation {
        TetrominoRotation::Zero => [(row, col), (row + 1, col), (row + 2, col), (row + 3, col)],
        _ => [(row, col), (row, col + 1), (row, col + 2), (row, col + 3)],
    };
    assert(pairs_of(r) =~= shape_cells(TetrominoType::I, row as int, col as int, *rotation));
    r
}

/// The cells of an O piece: a two-by-two square, the same at every rotation.
pub(crate) fn cells_of_o(row: i8, col: i8, rotation: &TetrominoRotation) -> (r: [(i8, i8); 4])
    requires
        -126 <= row <= 124,
        -126 <= col <= 124,
    ensures
        pairs_of(r) == shape_cells(TetrominoType::O, row as int, col as int, *rotation),
{
    let r = [(row, col), (row + 1, col), (row, col + 1), (row + 1, col + 1)];
    assert(pairs_of(r) =~= shape_cells(TetrominoType::O, row as int, col as int, *rotation));
    r
}

/// The cells of a T piece: three in a line with one beside the middle.
pub(crate) fn cells_of_t(row: i8, col: i8, rotation: &TetrominoRotation) -> (r: [(i8, i8); 4])
    requires
        -126 <= row <= 124,
        -126 <= col <= 124,
    ensures
        pairs_of(r) == shape_cells(TetrominoType::T, row as int, col as int, *rotation),
{
    let r = match rotation {
        TetrominoRotation::Zero => [(row, col), (row + 1, col), (row, col - 1), (row, col + 1)],
        TetrominoRotation::HalfPi => [(row, col), (row + 1, col), (row - 1, col), (row, col + 1)],
        TetrominoRotation::Pi => [(row, col), (row - 1, col), (row, col - 1), (row, col + 1)],
        TetrominoRotation::ThreeHalfPi => [(row, col), (row + 1, col), (row - 1, col), (row, col - 1)],
    };
    assert(pairs_of(r) =~= shape_cells(TetrominoType::T, row as int, col as int, *rotation));
    r
}

/// The cells of a J piece: three in a line with one beside the far end.
pub(crate) fn cells_of_j(row: i8, col: i8, rotation: &TetrominoRotation) -> (r: [(i8, i8); 4])
    requires
        -126 <= row <= 124,
        -126 <= col <= 124,
    ensures
        pairs_of(r) == shape_cells(TetrominoType::J, row as int, col as int, *rotation),
{
    let r = match rotation {
        TetrominoRotation::Zero => [(row, col), (row + 1, col), (row + 2, col), (row + 2, col - 1)],
        TetrominoRotation::HalfPi => [(row, col), (row, col + 1), (row, col + 2), (row + 1, col + 2)],
        TetrominoRotation::Pi => [(row, col), (row - 1, col), (row - 2, col), (row - 2, col + 1)],
        TetrominoRotation::ThreeHalfPi => [(row, col), (row, col - 1), (row, col - 2), (row - 1, col - 2)],
    };
    assert(pairs_of(r) =~= shape_cells(TetrominoType::J, row as int, col as int, *rotation));
    r
}

/// The cells of an L piece: three in a line with one beside the far end, mirrored from J.
pub(crate) fn cells_of_l(row: i8, col: i8, rotation: &TetrominoRotation) -> (r: [(i8, i8); 4])
    requires
        -126 <= row <= 124,
        -126 <= col <= 124,
    ensures
        pairs_of(r) == shape_cells(TetrominoType::L, row as int, col as int, *rotation),
{
    let r = match rotation {
        TetrominoRotation::Zero => [(row, col), (row + 1, col), (row + 2, col), (row + 2, col + 1)],
        TetrominoRotation::HalfPi => [(row, col), (row, col + 1), (row, col + 2), (row - 1, col + 2)],
        TetrominoRotation::Pi => [(row, col), (row - 1, col), (row - 2, col), (row - 2, col - 1)],
        TetrominoRotation::ThreeHalfPi => [(row, col), (row, col - 1), (row, col - 2), (row + 1, col - 2)],
    };
    assert(pairs_of(r) =~= shape_cells(TetrominoType::L, row as int, col as int, *rotation));
    r
}

/// The cells of an S piece: two offset pairs.
pub(crate) fn cells_of_s(row: i8, col: i8, rotation: &TetrominoRotation) -> (r: [(i8, i8); 4])
    requires
        supports(TetrominoType::S, *rotation),
        -126 <= row <= 124,
        -126 <= col <= 124,
    ensures
        pairs_of(r) == shape_cells(TetrominoType::S, row as int, col as int, *rotation),
{
    let r = match rotation {
        TetrominoRotation::Zero => [(row, col), (row + 1, col), (row, col + 1), (row + 1, col - 1)],
        _ => [(row, col), (row - 1, col), (row, col + 1), (row + 1, col + 1)],
    };
    assert(pairs_of(r) =~= shape_cells(TetrominoType::S, row as int, col as int, *rotation));
    r
}

/// The cells of a Z piece: two offset pairs, mirrored from S.
pub(crate) fn cells_of_z(row: i8, col: i8, rotation: &TetrominoRotation) -> (r: [(i8, i8); 4])
    requires
        supports(TetrominoType::Z, *rotation),
        -126 <= row <= 124,
        -126 <= col <= 124,
    ensures
        pairs_of(r) == shape_cells(TetrominoType::Z, row as int, col as int, *rotation),
{
    let r = match rotation {
        TetrominoRotation::Zero => [(row, col), (row + 1, col), (row, col - 1), (row + 1, col + 1)],
        _ => [(row, col), (row - 1, col), (row, col - 1), (row + 1, col - 1)],
    };
    assert(pairs_of(r) =~= shape_cells(TetrominoType::Z, row as int, col as int, *rotation));
    r
}

impl TetrominoType {
    /// Maps a draw in `1..=7` onto a kind.
    pub fn from_roll(n: u8) -> (r: TetrominoType)
        requires
            1 <= n <= 7,
        ensures
            r == kind_of_roll(n as int),
    {
        match n {
            1 => TetrominoType::I,
            2 => TetrominoType::O,
            3 => TetrominoType::T,
            4 => TetrominoType::J,
            5 => TetrominoType::L,
            6 => TetrominoType::S,
            _ => TetrominoType::Z,
        }
    }

    /// A kind drawn uniformly at random.
    pub(crate) fn random(rng: &mut rand::rngs::StdRng) -> (r: TetrominoType) {
        let n = roll_one_to_seven(rng);
        TetrominoType::from_roll(n)
    }

    /// The rotation that follows `rotation` in this kind's transition graph.
    pub fn next_rotation(&self, rotation: &TetrominoRotation) -> (r: TetrominoRotation)
        requires
            supports(*self, *rotation),
        ensures
            r == next_rotation_of(*self, *rotation),
            supports(*self, r),
    {
        match self {
            TetrominoType::I | TetrominoType::S | TetrominoType::Z => match rotation {
                TetrominoRotation::Zero => TetrominoRotation::HalfPi,
                _ => TetrominoRotation::Zero,
            },
            TetrominoType::O => TetrominoRotation::Zero,
            TetrominoType::T | TetrominoType::J | TetrominoType::L => match rotation {
                TetrominoRotation::Zero => TetrominoRotation::HalfPi,
                TetrominoRotation::HalfPi => TetrominoRotation::Pi,
                TetrominoRotation::Pi => TetrominoRotation::ThreeHalfPi,
                TetrominoRotation::ThreeHalfPi => TetrominoRotation::Zero,
            },
        }
    }

    /// How many rows the shape spans from its anchor row downward: one more
    /// than the largest row offset in the shape table.
    pub(crate) fn height(&self, rotation: &TetrominoRotation) -> (r: u8)
        requires
            supports(*self, *rotation),
        ensures
            forall|k: int| 0 <= k < 4 ==> #[trigger] shape_offsets(*self, *rotation)[k].0 < r,
            exists|k: int| 0 <= k < 4 && #[trigger] shape_offsets(*self, *rotation)[k].0 == r - 1,
    {
        // The row offsets of the four cells; one of them witnesses the bottom row.
        let ghost s = shape_offsets(*self, *rotation);
        let ghost row_offsets = seq![s[0].0, s[1].0, s[2].0, s[3].0];
        match self {
            TetrominoType::I => match rotation {
                TetrominoRotation::Zero => 4,
                _ => 1,
            },
            TetrominoType::O => 2,
            TetrominoType::T => match rotation {
                TetrominoRotation::Pi => 1,
                _ => 2,
            },
            TetrominoType::J => match rotation {
                TetrominoRotation::Zero => 3,
                TetrominoRotation::HalfPi => 2,
                _ => 1,
            },
            TetrominoType::L => match rotation {
                TetrominoRotation::Zero => 3,
                TetrominoRotation::ThreeHalfPi => 2,
                _ => 1,
            },
            TetrominoType::S => 2,
            TetrominoType::Z => 2,
        }
    }

    /// The column where a new piece of this kind appears.
    pub(crate) fn starting_column(&self) -> (r: u8)
        ensures
            r == spawn_column(*self),
    {
        match self {
            TetrominoType::I | TetrominoType::O | TetrominoType::L | TetrominoType::S => 4,
            TetrominoType::T | TetrominoType::J | TetrominoType::Z => 5,
        }
    }
}

} // verus!
