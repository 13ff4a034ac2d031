//! The occupancy grid as a mathematical object: dimensions, cell addressing,
//! filled rows, and what clearing those rows does to the grid.
use vstd::prelude::*;

verus! {

/// Number of rows of the playing field; row 0 is the top.
pub const NUMBER_OF_ROWS: u8 = 20;

/// Number of columns of the playing field; column 0 is the left edge.
pub const NUMBER_OF_COLUMNS: u8 = 10;

/// Number of cells of the playing field (rows times columns).
pub const NUMBER_OF_CELLS: usize = 200;

/// The row-major index of the cell at `(row, col)`.
pub open spec fn cell_index(row: int, col: int) -> int {
    row * NUMBER_OF_COLUMNS + col
}

/// Whether `(row, col)` lies on the playing field.
pub open spec fn in_bounds(row: int, col: int) -> bool {
    0 <= row < NUMBER_OF_ROWS && 0 <= col < NUMBER_OF_COLUMNS
}

/// Whether cell `i` of grid `g` is occupied (any non-zero value).
pub open spec fn occupied(g: Seq<u8>, i: int) -> bool {
    g[i] != 0
}

/// Row `row` of grid `g` is filled: every cell in it is occupied.
pub open spec fn row_filled(g: Seq<u8>, row: int) -> bool {
    forall|c: int| 0 <= c < NUMBER_OF_COLUMNS ==> occupied(g, #[trigger] cell_index(row, c))
}

/// The grid cut into its rows, top row first.
pub open spec fn rows_of(g: Seq<u8>) -> Seq<Seq<u8>> {
    Seq::new(
        NUMBER_OF_ROWS as nat,
        |r: int| Seq::new(NUMBER_OF_COLUMNS as nat, |c: int| g[cell_index(r, c)]),
    )
}

/// Whether every cell of a row is occupied.
pub open spec fn is_full(row: Seq<u8>) -> bool {
    forall|c: int| 0 <= c < row.len() ==> #[trigger] row[c] != 0
}

/// A row with no occupied cell.
pub open spec fn empty_row() -> Seq<u8> {
    Seq::new(NUMBER_OF_COLUMNS as nat, |c: int| 0u8)
}

/// The rows of `rows` that are not filled, in their order.
pub open spec fn unfilled_rows(rows: Seq<Seq<u8>>) -> Seq<Seq<u8>>
    decreases rows.len(),
{
    if rows.len() == 0 {
        rows
    } else if is_full(rows.last()) {
        unfilled_rows(rows.drop_last())
    } else {
        unfilled_rows(rows.drop_last()).push(rows.last())
    }
}

/// How many rows of `rows` are filled.
pub open spec fn count_full(rows: Seq<Seq<u8>>) -> nat
    decreases rows.len(),
{
    if rows.len() == 0 {
        0
    } else if is_full(rows.last()) {
        count_full(rows.drop_last()) + 1
    } else {
        count_full(rows.drop_last())
    }
}

/// How many rows of grid `g` are filled.
pub open spec fn filled_row_count(g: Seq<u8>) -> nat {
    count_full(rows_of(g))
}

/// What clearing does to a stack of rows: the filled rows go, the others
/// keep their order and sink to the bottom, and empty rows fill the top.
pub open spec fn collapse_rows(rows: Seq<Seq<u8>>) -> Seq<Seq<u8>> {
    Seq::new((rows.len() - unfilled_rows(rows).len()) as nat, |i: int| empty_row()) + unfilled_rows(rows)
}

/// How many cells of a row are occupied.
pub open spec fn occupied_in_row(row: Seq<u8>) -> nat
    decreases row.len(),
{
    if row.len() == 0 {
        0
    } else if row.last() != 0 {
        occupied_in_row(row.drop_last()) + 1
    } else {
        occupied_in_row(row.drop_last())
    }
}

/// How many cells of a stack of rows are occupied.
pub open spec fn occupied_in_rows(rows: Seq<Seq<u8>>) -> nat
    decreases rows.len(),
{
    if rows.len() == 0 {
        0
    } else {
        occupied_in_rows(rows.drop_last()) + occupied_in_row(rows.last())
    }
}

/// A row of the grid is filled exactly when its row in `rows_of` is full.
pub proof fn lemma_row_filled_is_full(g: Seq<u8>, r: int)
    requires
        0 <= r < NUMBER_OF_ROWS,
    ensures
        row_filled(g, r) == is_full(rows_of(g)[r]),
{
    if row_filled(g, r) {
        assert forall|c: int| 0 <= c < rows_of(g)[r].len() implies #[trigger] rows_of(g)[r][c] != 0 by {
            assert(occupied(g, cell_index(r, c)));
        }
    }
    if is_full(rows_of(g)[r]) {
        assert forall|c: int| 0 <= c < NUMBER_OF_COLUMNS implies occupied(g, #[trigger] cell_index(r, c)) by {
            assert(rows_of(g)[r][c] != 0);
        }
    }
}

proof fn lemma_drop_last_of_add(a: Seq<Seq<u8>>, b: Seq<Seq<u8>>)
    requires
        b.len() > 0,
    ensures
        (a + b).drop_last() == a + b.drop_last(),
        (a + b).last() == b.last(),
{
    assert((a + b).drop_last() =~= a + b.drop_last());
}

/// Every row is either kept by clearing or counted as filled.
pub(crate) proof fn lemma_unfilled_len(rows: Seq<Seq<u8>>)
    ensures
        unfilled_rows(rows).len() + count_full(rows) == rows.len(),
    decreases rows.len(),
{
    if rows.len() > 0 {
        lemma_unfilled_len(rows.drop_last());
    }
}

/// Dropping filled rows distributes over concatenation.
proof fn lemma_unfilled_rows_add(a: Seq<Seq<u8>>, b: Seq<Seq<u8>>)
    ensures
        unfilled_rows(a + b) == unfilled_rows(a) + unfilled_rows(b),
    decreases b.len(),
{
    if b.len() == 0 {
        assert(a + b =~= a);
        assert(unfilled_rows(a) + unfilled_rows(b) =~= unfilled_rows(a));
    } else {
        lemma_drop_last_of_add(a, b);
        lemma_unfilled_rows_add(a, b.drop_last());
        if !is_full(b.last()) {
            assert(unfilled_rows(a) + unfilled_rows(b.drop_last()).push(b.last())
                =~= (unfilled_rows(a) + unfilled_rows(b.drop_last())).push(b.last()));
        }
    }
}

/// Counting filled rows distributes over concatenation.
proof fn lemma_count_full_add(a: Seq<Seq<u8>>, b: Seq<Seq<u8>>)
    ensures
        count_full(a + b) == count_full(a) + count_full(b),
    decreases b.len(),
{
    if b.len() == 0 {
        assert(a + b =~= a);
    } else {
        lemma_drop_last_of_add(a, b);
        lemma_count_full_add(a, b.drop_last());
    }
}

/// Counting occupied cells distributes over concatenation.
proof fn lemma_occupied_in_rows_add(a: Seq<Seq<u8>>, b: Seq<Seq<u8>>)
    ensures
        occupied_in_rows(a + b) == occupied_in_rows(a) + occupied_in_rows(b),
    decreases b.len(),
{
    if b.len() == 0 {
        assert(a + b =~= a);
    } else {
        lemma_drop_last_of_add(a, b);
        lemma_occupied_in_rows_add(a, b.drop_last());
    }
}

/// A single row, seen as a stack.
proof fn lemma_single_row(row: Seq<u8>)
    ensures
        unfilled_rows(seq![row]) == (if is_full(row) { Seq::<Seq<u8>>::empty() } else { seq![row] }),
        count_full(seq![row]) == (if is_full(row) { 1nat } else { 0nat }),
        occupied_in_rows(seq![row]) == occupied_in_row(row),
{
    let none = Seq::<Seq<u8>>::empty();
    assert(seq![row].drop_last() =~= none);
    assert(seq![row].last() == row);
    assert(unfilled_rows(none) == none);
    assert(count_full(none) == 0);
    assert(occupied_in_rows(none) == 0);
    assert(none.push(row) =~= seq![row]);
}

/// The empty row is not full and holds no occupied cell.
proof fn lemma_empty_row()
    ensures
        !is_full(empty_row()),
        occupied_in_row(empty_row()) == 0,
{
    assert(empty_row()[0] == 0);
    lemma_no_occupied_cells(empty_row());
}

proof fn lemma_no_occupied_cells(row: Seq<u8>)
    requires
        forall|c: int| 0 <= c < row.len() ==> #[trigger] row[c] == 0,
    ensures
        occupied_in_row(row) == 0,
    decreases row.len(),
{
    if row.len() > 0 {
        lemma_no_occupied_cells(row.drop_last());
    }
}

proof fn lemma_full_row_count(row: Seq<u8>)
    requires
        is_full(row),
    ensures
        occupied_in_row(row) == row.len(),
    decreases row.len(),
{
    if row.len() > 0 {
        assert(row.last() != 0);
        lemma_full_row_count(row.drop_last());
    }
}

/// Removing one filled row and putting an empty row on top does not change
/// what clearing leaves behind.
pub(crate) proof fn lemma_collapse_step(rows: Seq<Seq<u8>>, row: int)
    requires
        0 <= row < rows.len(),
        is_full(rows[row]),
    ensures
        collapse_rows(seq![empty_row()] + rows.subrange(0, row) + rows.subrange(row + 1, rows.len() as int))
            == collapse_rows(rows),
        count_full(seq![empty_row()] + rows.subrange(0, row)) + 1 == count_full(rows.subrange(0, row + 1)),
{
    let above = rows.subrange(0, row);
    let below = rows.subrange(row + 1, rows.len() as int);
    let shifted = seq![empty_row()] + above + below;
    assert(rows =~= above + seq![rows[row]] + below);
    assert(rows.subrange(0, row + 1) =~= above + seq![rows[row]]);
    lemma_empty_row();
    lemma_single_row(empty_row());
    lemma_single_row(rows[row]);
    lemma_unfilled_rows_add(above, seq![rows[row]]);
    lemma_unfilled_rows_add(above + seq![rows[row]], below);
    lemma_unfilled_rows_add(seq![empty_row()], above);
    lemma_unfilled_rows_add(seq![empty_row()] + above, below);
    lemma_count_full_add(above, seq![rows[row]]);
    lemma_count_full_add(seq![empty_row()], above);
    assert(above + seq![rows[row]] + below =~= above + (seq![rows[row]] + below));
    assert(unfilled_rows(above + seq![rows[row]]) =~= unfilled_rows(above));
    let u = unfilled_rows(rows);
    let u2 = unfilled_rows(shifted);
    assert(u2 =~= seq![empty_row()] + u);
    assert(shifted.len() == rows.len());
    let n = rows.len() - u.len();
    lemma_unfilled_len(rows);
    lemma_unfilled_len(shifted);
    assert(collapse_rows(rows).len() == rows.len());
    assert forall|i: int| 0 <= i < rows.len() implies #[trigger] collapse_rows(shifted)[i] == collapse_rows(rows)[i] by {
        if i < n - 1 {
        } else if i == n - 1 {
            assert(collapse_rows(shifted)[i] == u2[0]);
        } else {
            assert(collapse_rows(shifted)[i] == u2[i - n + 1]);
            assert(collapse_rows(rows)[i] == u[i - n]);
        }
    }
    assert(collapse_rows(shifted) =~= collapse_rows(rows));
}

proof fn lemma_unfilled_rows_not_full(rows: Seq<Seq<u8>>)
    ensures
        forall|i: int| 0 <= i < unfilled_rows(rows).len() ==> !is_full(#[trigger] unfilled_rows(rows)[i]),
    decreases rows.len(),
{
    if rows.len() > 0 {
        let rest = unfilled_rows(rows.drop_last());
        lemma_unfilled_rows_not_full(rows.drop_last());
        if !is_full(rows.last()) {
            assert forall|i: int| 0 <= i < rest.len() + 1 implies !is_full(#[trigger] rest.push(rows.last())[i]) by {
                if i < rest.len() {
                    assert(rest.push(rows.last())[i] == rest[i]);
                }
            }
        }
    }
}

proof fn lemma_no_full_rows(rows: Seq<Seq<u8>>)
    requires
        forall|i: int| 0 <= i < rows.len() ==> !is_full(#[trigger] rows[i]),
    ensures
        count_full(rows) == 0,
    decreases rows.len(),
{
    if rows.len() > 0 {
        assert(!is_full(rows[rows.len() - 1]));
        lemma_no_full_rows(rows.drop_last());
    }
}

proof fn lemma_empty_rows(n: nat)
    ensures
        occupied_in_rows(Seq::new(n, |i: int| empty_row())) == 0,
    decreases n,
{
    if n > 0 {
        lemma_empty_row();
        assert(Seq::new(n, |i: int| empty_row()).drop_last() =~= Seq::new((n - 1) as nat, |i: int| empty_row()));
        lemma_empty_rows((n - 1) as nat);
    }
}

proof fn lemma_occupied_split(rows: Seq<Seq<u8>>)
    requires
        forall|i: int| 0 <= i < rows.len() ==> (#[trigger] rows[i]).len() == NUMBER_OF_COLUMNS,
    ensures
        occupied_in_rows(rows) == occupied_in_rows(unfilled_rows(rows)) + NUMBER_OF_COLUMNS * count_full(rows),
    decreases rows.len(),
{
    if rows.len() > 0 {
        let rest = rows.drop_last();
        assert(rows.last() == rows[rows.len() - 1]);
        lemma_occupied_split(rest);
        if is_full(rows.last()) {
            lemma_full_row_count(rows.last());
        } else {
            let u = unfilled_rows(rest);
            assert(u.push(rows.last()).drop_last() =~= u);
        }
    }
}

/// Clearing leaves no filled row, keeps the grid's height, and removes
/// exactly one row's worth of occupied cells for each filled row.
pub proof fn lemma_collapse_clears_filled_rows(g: Seq<u8>)
    ensures
        collapse_rows(rows_of(g)).len() == NUMBER_OF_ROWS,
        forall|r: int| 0 <= r < NUMBER_OF_ROWS ==> !is_full(#[trigger] collapse_rows(rows_of(g))[r]),
        count_full(collapse_rows(rows_of(g))) == 0,
        occupied_in_rows(collapse_rows(rows_of(g))) + NUMBER_OF_COLUMNS * filled_row_count(g)
            == occupied_in_rows(rows_of(g)),
{
    let rows = rows_of(g);
    let u = unfilled_rows(rows);
    lemma_unfilled_len(rows);
    let n = (rows.len() - u.len()) as nat;
    let empties = Seq::new(n, |i: int| empty_row());
    let after = collapse_rows(rows);
    assert(after == empties + u);
    lemma_unfilled_rows_not_full(rows);
    lemma_empty_row();
    assert forall|r: int| 0 <= r < NUMBER_OF_ROWS implies !is_full(#[trigger] after[r]) by {
        if r >= n {
            assert(after[r] == u[r - n]);
        }
    }
    lemma_no_full_rows(after);
    lemma_occupied_in_rows_add(empties, u);
    lemma_empty_rows(n);
    lemma_occupied_split(rows);
}

/// A stack without filled rows is left as it is by clearing.
pub(crate) proof fn lemma_collapse_without_full_rows(rows: Seq<Seq<u8>>)
    requires
        forall|i: int| 0 <= i < rows.len() ==> !is_full(#[trigger] rows[i]),
    ensures
        collapse_rows(rows) == rows,
    decreases rows.len(),
{
    lemma_unfilled_without_full_rows(rows);
    assert(collapse_rows(rows) =~= rows);
}

proof fn lemma_unfilled_without_full_rows(rows: Seq<Seq<u8>>)
    requires
        forall|i: int| 0 <= i < rows.len() ==> !is_full(#[trigger] rows[i]),
    ensures
        unfilled_rows(rows) == rows,
    decreases rows.len(),
{
    if rows.len() > 0 {
        assert(!is_full(rows[rows.len() - 1]));
        lemma_unfilled_without_full_rows(rows.drop_last());
        assert(rows.drop_last().push(rows.last()) =~= rows);
    }
}

/// A grid whose rows `1..=row` hold the former rows `0..row`, whose row 0 is
/// empty and whose other rows are unchanged, is the former stack with row
/// `row` taken out and an empty row put on top.
pub(crate) proof fn lemma_shift_rows(g1: Seq<u8>, g2: Seq<u8>, row: int)
    requires
        0 <= row < NUMBER_OF_ROWS,
        forall|r: int, c: int|
            0 <= r < NUMBER_OF_ROWS && 0 <= c < NUMBER_OF_COLUMNS ==> #[trigger] g2[cell_index(r, c)] == if r == 0 {
                0u8
            } else if r <= row {
                g1[cell_index(r - 1, c)]
            } else {
                g1[cell_index(r, c)]
            },
    ensures
        rows_of(g2) == seq![empty_row()] + rows_of(g1).subrange(0, row) + rows_of(g1).subrange(row + 1, NUMBER_OF_ROWS as int),
{
    let expected = seq![empty_row()] + rows_of(g1).subrange(0, row) + rows_of(g1).subrange(row + 1, NUMBER_OF_ROWS as int);
    assert forall|r: int| 0 <= r < NUMBER_OF_ROWS implies #[trigger] rows_of(g2)[r] == expected[r] by {
        assert forall|c: int| 0 <= c < NUMBER_OF_COLUMNS implies rows_of(g2)[r][c] == expected[r][c] by {
            assert(g2[cell_index(r, c)] == rows_of(g2)[r][c]);
            if r > 0 && r <= row {
                assert(expected[r] == rows_of(g1)[r - 1]);
            } else if r > row {
                assert(expected[r] == rows_of(g1)[r]);
            }
        }
        assert(rows_of(g2)[r] =~= expected[r]);
    }
    assert(rows_of(g2) =~= expected);
}

/// The row of the cell at row-major index `i`.
pub open spec fn row_of(i: int) -> int {
    i / NUMBER_OF_COLUMNS as int
}

/// The column of the cell at row-major index `i`.
pub open spec fn col_of(i: int) -> int {
    i % NUMBER_OF_COLUMNS as int
}

/// The search that drives the line-clear animation. From `row` upward,
/// find the first filled row. There, answer the cell at column `col`
/// (`col + 1` when `step` is set), unless `col` is the last column: then the
/// search goes on above that row, from column 0 without stepping.
pub open spec fn scan_filled(g: Seq<u8>, row: int, col: int, step: bool) -> Option<int>
    decreases row + 1,
{
    if row < 0 {
        None
    } else if row_filled(g, row) {
        if col < NUMBER_OF_COLUMNS - 1 {
            Some(cell_index(row, if step { col + 1 } else { col }))
        } else {
            scan_filled(g, row - 1, 0, false)
        }
    } else {
        scan_filled(g, row - 1, col, step)
    }
}

/// The cell that the line-clear animation visits after `cursor`; with no
/// cursor, the first one.
pub open spec fn next_cleared_cell(g: Seq<u8>, cursor: Option<int>) -> Option<int> {
    match cursor {
        None => scan_filled(g, NUMBER_OF_ROWS - 1, 0, false),
        Some(c) => scan_filled(g, row_of(c), col_of(c), true),
    }
}

/// The filled rows among `0..=row`, from `row` upward.
pub open spec fn filled_rows_upward(g: Seq<u8>, row: int) -> Seq<int>
    decreases row + 1,
{
    if row < 0 {
        Seq::empty()
    } else if row_filled(g, row) {
        seq![row] + filled_rows_upward(g, row - 1)
    } else {
        filled_rows_upward(g, row - 1)
    }
}

/// Every cell of every filled row, filled rows from the bottom up, each
/// row from its first column to its last.
pub open spec fn clearing_order(g: Seq<u8>) -> Seq<int> {
    let rows = filled_rows_upward(g, NUMBER_OF_ROWS - 1);
    Seq::new(
        rows.len() * NUMBER_OF_COLUMNS as nat,
        |k: int| cell_index(rows[row_of(k)], col_of(k)),
    )
}

/// The filled rows listed by `filled_rows_upward` are exactly the filled
/// rows of the range, in strictly decreasing order.
proof fn lemma_filled_rows_upward(g: Seq<u8>, row: int)
    ensures
        forall|i: int| 0 <= i < filled_rows_upward(g, row).len()
            ==> 0 <= #[trigger] filled_rows_upward(g, row)[i] <= row && row_filled(g, filled_rows_upward(g, row)[i]),
        forall|i: int, j: int| 0 <= i < j < filled_rows_upward(g, row).len()
            ==> #[trigger] filled_rows_upward(g, row)[i] > #[trigger] filled_rows_upward(g, row)[j],
        forall|r: int| 0 <= r <= row && row_filled(g, r) ==> #[trigger] filled_rows_upward(g, row).contains(r),
    decreases row + 1,
{
    if row >= 0 {
        lemma_filled_rows_upward(g, row - 1);
        let rest = filled_rows_upward(g, row - 1);
        if row_filled(g, row) {
            let all = seq![row] + rest;
            assert forall|r: int| 0 <= r <= row && row_filled(g, r) implies #[trigger] all.contains(r) by {
                if r == row {
                    assert(all[0] == r);
                } else {
                    assert(rest.contains(r));
                    let m = choose|m: int| 0 <= m < rest.len() && rest[m] == r;
                    assert(all[m + 1] == r);
                }
            }
            assert forall|i: int, j: int| 0 <= i < j < all.len() implies #[trigger] all[i] > #[trigger] all[j] by {
                assert(all[j] == rest[j - 1]);
                if i > 0 {
                    assert(all[i] == rest[i - 1]);
                }
            }
            assert forall|i: int| 0 <= i < all.len() implies 0 <= #[trigger] all[i] <= row && row_filled(g, all[i]) by {
                if i > 0 {
                    assert(all[i] == rest[i - 1]);
                }
            }
        }
    }
}

/// Searching from column 0 without stepping finds column 0 of the first
/// filled row at or above `row`.
proof fn lemma_scan_from_row_start(g: Seq<u8>, row: int)
    ensures
        scan_filled(g, row, 0, false) == if filled_rows_upward(g, row).len() > 0 {
            Some(cell_index(filled_rows_upward(g, row)[0], 0))
        } else {
            None
        },
    decreases row + 1,
{
    if row >= 0 {
        lemma_scan_from_row_start(g, row - 1);
    }
}

/// Past the `j`-th listed filled row, the listing continues with the filled
/// rows above it.
proof fn lemma_filled_rows_after(g: Seq<u8>, row: int, j: int)
    requires
        0 <= j < filled_rows_upward(g, row).len(),
    ensures
        filled_rows_upward(g, filled_rows_upward(g, row)[j] - 1) == filled_rows_upward(g, row).skip(j + 1),
    decreases row + 1,
{
    if row >= 0 {
        let rest = filled_rows_upward(g, row - 1);
        if row_filled(g, row) {
            let all = seq![row] + rest;
            if j == 0 {
                assert(all.skip(1) =~= rest);
            } else {
                lemma_filled_rows_after(g, row - 1, j - 1);
                assert(all[j] == rest[j - 1]);
                assert(all.skip(j + 1) =~= rest.skip(j));
            }
        } else {
            lemma_filled_rows_after(g, row - 1, j);
        }
    }
}

proof fn lemma_split_cell(k: int)
    requires
        0 <= k,
    ensures
        k == (row_of(k)) * NUMBER_OF_COLUMNS + col_of(k),
        0 <= col_of(k) < NUMBER_OF_COLUMNS,
        0 <= row_of(k),
{
}

proof fn lemma_cell_index_parts(r: int, c: int)
    requires
        0 <= c < NUMBER_OF_COLUMNS,
    ensures
        row_of(cell_index(r, c)) == r,
        col_of(cell_index(r, c)) == c,
{
    assert((r * 10 + c) / 10 == r && (r * 10 + c) % 10 == c) by (nonlinear_arith)
        requires
            0 <= c < 10,
    ;
}

/// Starting with no cursor and feeding each answer back as the next cursor,
/// the line-clear animation visits every cell of every filled row exactly
/// once, in `clearing_order`, and then answers `None`.
pub proof fn lemma_clearing_visits_filled_rows_once(g: Seq<u8>)
    ensures
        next_cleared_cell(g, None) == if clearing_order(g).len() > 0 {
            Some(clearing_order(g)[0])
        } else {
            None
        },
        forall|k: int| 0 <= k < clearing_order(g).len() - 1
            ==> next_cleared_cell(g, Some(#[trigger] clearing_order(g)[k])) == Some(clearing_order(g)[k + 1]),
        clearing_order(g).len() > 0 ==> next_cleared_cell(g, Some(clearing_order(g).last())) is None,
        clearing_order(g).no_duplicates(),
        forall|i: int| #[trigger] clearing_order(g).contains(i)
            <==> 0 <= i < NUMBER_OF_CELLS && row_filled(g, row_of(i)),
{
    let rows = filled_rows_upward(g, NUMBER_OF_ROWS - 1);
    let order = clearing_order(g);
    lemma_filled_rows_upward(g, NUMBER_OF_ROWS - 1);
    lemma_scan_from_row_start(g, NUMBER_OF_ROWS - 1);
    if order.len() > 0 {
        assert(0int / 10 == 0 && 0int % 10 == 0);
        assert(order[0] == cell_index(rows[0], 0));
    }
    assert forall|k: int| 0 <= k < order.len() implies {
        let j = row_of(k);
        let c = col_of(k);
        &&& 0 <= j < rows.len()
        &&& 0 <= c < NUMBER_OF_COLUMNS
        &&& #[trigger] order[k] == cell_index(rows[j], c)
        &&& row_of(order[k]) == rows[j]
        &&& col_of(order[k]) == c
        &&& k == j * NUMBER_OF_COLUMNS + c
    } by {
        lemma_split_cell(k);
        let j = row_of(k);
        let c = col_of(k);
        assert(j < rows.len()) by (nonlinear_arith)
            requires
                k == j * 10 + c,
                0 <= c < 10,
                k < rows.len() * 10,
        ;
        lemma_cell_index_parts(rows[j], c);
    }
    assert forall|k: int| 0 <= k < order.len() - 1
        implies next_cleared_cell(g, Some(#[trigger] order[k])) == Some(order[k + 1]) by {
        let j = row_of(k);
        let c = col_of(k);
        assert(order[k] == cell_index(rows[j], c));
        assert(order[k + 1] == order[k + 1]);
        let j2 = row_of((k + 1));
        let c2 = col_of((k + 1));
        assert(k + 1 == j2 * NUMBER_OF_COLUMNS + c2);
        assert(row_filled(g, rows[j]));
        if c < NUMBER_OF_COLUMNS - 1 {
            assert(j2 == j && c2 == c + 1);
        } else {
            assert(j2 == j + 1 && c2 == 0);
            lemma_filled_rows_after(g, NUMBER_OF_ROWS - 1, j);
            lemma_scan_from_row_start(g, rows[j] - 1);
            assert(rows.skip(j + 1)[0] == rows[j + 1]);
        }
    }
    if order.len() > 0 {
        let k = order.len() - 1;
        let j = row_of(k);
        assert(order[k] == order.last());
        assert(j == rows.len() - 1 && col_of(k) == NUMBER_OF_COLUMNS - 1);
        assert(row_filled(g, rows[j]));
        lemma_filled_rows_after(g, NUMBER_OF_ROWS - 1, j);
        lemma_scan_from_row_start(g, rows[j] - 1);
    }
    assert forall|a: int, b: int| 0 <= a < order.len() && 0 <= b < order.len() && a != b
        implies order[a] != order[b] by {
        let ja = row_of(a);
        let jb = row_of(b);
        assert(order[a] == cell_index(rows[ja], col_of(a)));
        assert(order[b] == cell_index(rows[jb], col_of(b)));
        if ja != jb {
            if ja < jb {
                assert(rows[ja] > rows[jb]);
            } else {
                assert(rows[jb] > rows[ja]);
            }
        }
    }
    assert forall|i: int| #[trigger] order.contains(i)
        <==> 0 <= i < NUMBER_OF_CELLS && row_filled(g, row_of(i)) by {
        if order.contains(i) {
            let k = choose|k: int| 0 <= k < order.len() && order[k] == i;
            assert(order[k] == i);
            let j = row_of(k);
            assert(0 <= rows[j] < NUMBER_OF_ROWS);
        }
        if 0 <= i < NUMBER_OF_CELLS && row_filled(g, row_of(i)) {
            lemma_split_cell(i);
            let r = row_of(i);
            let c = col_of(i);
            assert(rows.contains(r));
            let j = choose|j: int| 0 <= j < rows.len() && rows[j] == r;
            let k = j * NUMBER_OF_COLUMNS + c;
            assert(0 <= k < order.len()) by (nonlinear_arith)
                requires
                    0 <= j < rows.len(),
                    0 <= c < 10,
                    k == j * 10 + c,
                    order.len() == rows.len() * 10,
            ;
            assert(row_of(k) == j && col_of(k) == c) by {
                lemma_cell_index_parts(j, c);
            }
            assert(order[k] == i);
        }
    }
}

} // verus!
