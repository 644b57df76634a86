//! Mathematical model of the grid: dimensions, flat cell addressing, the
//! gravity invariant, per-column fill levels, and the occupied-cell count.

use vstd::prelude::*;

verus! {

/// Number of columns of the grid.
pub const WIDTH: usize = 7;
/// Number of rows of the grid.
pub const HEIGHT: usize = 6;
/// A run of this many consecutive same-player cells wins the game.
pub const WIN_CONDITION: usize = 4;
/// Number of players sharing the board.
pub const NUM_PLAYERS: usize = 2;
/// The character standing for an unoccupied cell.
pub const EMPTY: char = ' ';

/// The grid is stored flat, column-major: cell (c, r) lives at c * HEIGHT + r.
pub open spec fn cell_index(c: int, r: int) -> int {
    c * (HEIGHT as int) + r
}

/// Whether (c, r) addresses a cell of the grid.
pub open spec fn in_bounds(c: int, r: int) -> bool {
    0 <= c < WIDTH as int && 0 <= r < HEIGHT as int
}

/// The character held by cell (c, r).
pub open spec fn cell_at(b: Seq<char>, c: int, r: int) -> char {
    b[cell_index(c, r)]
}

/// Column-major addressing maps distinct in-bounds coordinates to distinct
/// flat indices.
pub proof fn lemma_cell_index_injective(c1: int, r1: int, c2: int, r2: int)
    requires
        in_bounds(c1, r1),
        in_bounds(c2, r2),
        cell_index(c1, r1) == cell_index(c2, r2),
    ensures
        c1 == c2 && r1 == r2,
{
    assert(c1 == c2 && r1 == r2) by (nonlinear_arith)
        requires
            0 <= r1 < 6,
            0 <= r2 < 6,
            c1 * 6 + r1 == c2 * 6 + r2,
    {
    }
}

/// Every in-bounds coordinate addresses a slot of a full-size grid.
pub proof fn lemma_cell_index_in_range(c: int, r: int)
    requires
        in_bounds(c, r),
    ensures
        0 <= cell_index(c, r) < WIDTH as int * HEIGHT as int,
{
    assert(0 <= c * 6 + r < 42) by (nonlinear_arith)
        requires
            0 <= c < 7,
            0 <= r < 6,
    {
    }
}

/// The lowest empty row of column c at or above row r; HEIGHT when the column
/// holds no empty cell from r upward.
pub open spec fn first_empty_from(b: Seq<char>, c: int, r: int) -> int
    decreases HEIGHT as int - r when 0 <= r <= HEIGHT as int
{
    if r >= HEIGHT as int {
        HEIGHT as int
    } else if cell_at(b, c, r) == EMPTY {
        r
    } else {
        first_empty_from(b, c, r + 1)
    }
}

/// The fill level of column c: its lowest empty row, or HEIGHT when full.
/// Under the gravity invariant this is also the number of occupied cells of
/// the column.
pub open spec fn col_fill(b: Seq<char>, c: int) -> int {
    first_empty_from(b, c, 0)
}

/// Gravity: pieces rest on the lowest free row, so an occupied cell never
/// hangs above an empty one in the same column.
pub open spec fn gravity_ok(b: Seq<char>) -> bool {
    forall|c: int, r: int|
        in_bounds(c, r) && 0 < r && #[trigger] cell_at(b, c, r) != EMPTY
            ==> cell_at(b, c, r - 1) != EMPTY
}

/// Total number of occupied cells, as the sum of the column fill levels.
pub open spec fn total_occupied(b: Seq<char>) -> int {
    col_fill(b, 0) + col_fill(b, 1) + col_fill(b, 2) + col_fill(b, 3)
        + col_fill(b, 4) + col_fill(b, 5) + col_fill(b, 6)
}

/// The scan from row 0 lands exactly on a row f below which everything is
/// occupied and which is itself empty (or past the top).
pub proof fn lemma_first_empty_at(b: Seq<char>, c: int, r0: int, f: int)
    requires
        0 <= r0 <= f <= HEIGHT as int,
        forall|r: int| r0 <= r < f ==> #[trigger] cell_at(b, c, r) != EMPTY,
        f < HEIGHT as int ==> cell_at(b, c, f) == EMPTY,
    ensures
        first_empty_from(b, c, r0) == f,
    decreases f - r0,
{
    if r0 < f {
        lemma_first_empty_at(b, c, r0 + 1, f);
    }
}

/// The fill level stays within the column.
pub proof fn lemma_col_fill_bounds(b: Seq<char>, c: int, r0: int)
    requires
        0 <= r0 <= HEIGHT as int,
    ensures
        r0 <= first_empty_from(b, c, r0) <= HEIGHT as int,
    decreases HEIGHT as int - r0,
{
    if r0 < HEIGHT as int && cell_at(b, c, r0) != EMPTY {
        lemma_col_fill_bounds(b, c, r0 + 1);
    }
}

/// Rows below the fill level are occupied; the fill-level row is empty.
pub proof fn lemma_col_fill_cells(b: Seq<char>, c: int, r0: int)
    requires
        0 <= r0 <= HEIGHT as int,
    ensures
        forall|r: int| r0 <= r < first_empty_from(b, c, r0)
            ==> #[trigger] cell_at(b, c, r) != EMPTY,
        first_empty_from(b, c, r0) < HEIGHT as int
            ==> cell_at(b, c, first_empty_from(b, c, r0)) == EMPTY,
    decreases HEIGHT as int - r0,
{
    if r0 < HEIGHT as int && cell_at(b, c, r0) != EMPTY {
        lemma_col_fill_cells(b, c, r0 + 1);
    }
}

/// Two boards that agree on a whole column have the same scan result there.
pub proof fn lemma_first_empty_same_col(b1: Seq<char>, b2: Seq<char>, c: int, r0: int)
    requires
        0 <= r0 <= HEIGHT as int,
        forall|r: int| 0 <= r < HEIGHT as int
            ==> #[trigger] cell_at(b1, c, r) == cell_at(b2, c, r),
    ensures
        first_empty_from(b1, c, r0) == first_empty_from(b2, c, r0),
    decreases HEIGHT as int - r0,
{
    if r0 < HEIGHT as int && cell_at(b1, c, r0) != EMPTY {
        lemma_first_empty_same_col(b1, b2, c, r0 + 1);
    }
}

/// Dropping a piece on column c raises that column's fill level by one and
/// leaves every other column's level unchanged.
pub proof fn lemma_col_fill_after_drop(b: Seq<char>, c: int, p: char)
    requires
        b.len() == WIDTH as int * HEIGHT as int,
        gravity_ok(b),
        0 <= c < WIDTH as int,
        col_fill(b, c) < HEIGHT as int,
        p != EMPTY,
    ensures
        gravity_ok(b.update(cell_index(c, col_fill(b, c)), p)),
        col_fill(b.update(cell_index(c, col_fill(b, c)), p), c) == col_fill(b, c) + 1,
        forall|c2: int| 0 <= c2 < WIDTH as int && c2 != c
            ==> #[trigger] col_fill(b.update(cell_index(c, col_fill(b, c)), p), c2)
                == col_fill(b, c2),
        total_occupied(b.update(cell_index(c, col_fill(b, c)), p)) == total_occupied(b) + 1,
{
    let f = col_fill(b, c);
    lemma_col_fill_bounds(b, c, 0);
    lemma_col_fill_cells(b, c, 0);
    lemma_cell_index_in_range(c, f);
    let b2 = b.update(cell_index(c, f), p);
    assert forall|c2: int, r: int| in_bounds(c2, r) && !(c2 == c && r == f)
        implies #[trigger] cell_at(b2, c2, r) == cell_at(b, c2, r) by {
        lemma_cell_index_in_range(c2, r);
        if cell_index(c2, r) == cell_index(c, f) {
            lemma_cell_index_injective(c2, r, c, f);
        }
    }
    assert forall|r: int| 0 <= r < f + 1 implies #[trigger] cell_at(b2, c, r) != EMPTY by {
        if r < f {
            assert(cell_at(b, c, r) != EMPTY);
        }
    }
    if f + 1 < HEIGHT as int {
        // The row above the landing row was empty already: otherwise gravity
        // would have put a piece on the landing row itself.
        assert(cell_at(b, c, f + 1) == EMPTY) by {
            if cell_at(b, c, f + 1) != EMPTY {
                assert(cell_at(b, c, f) != EMPTY);
            }
        }
        assert(cell_at(b2, c, f + 1) == EMPTY);
    }
    lemma_first_empty_at(b2, c, 0, f + 1);
    assert forall|c2: int, r: int|
        in_bounds(c2, r) && 0 < r && #[trigger] cell_at(b2, c2, r) != EMPTY
        implies cell_at(b2, c2, r - 1) != EMPTY by {
        if c2 == c && r == f {
            assert(f > 0 ==> cell_at(b, c, f - 1) != EMPTY);
        } else {
            assert(cell_at(b, c2, r) != EMPTY);
            assert(cell_at(b, c2, r - 1) != EMPTY);
            if c2 == c && r - 1 == f {
            } else {
                assert(cell_at(b2, c2, r - 1) == cell_at(b, c2, r - 1));
            }
        }
    }
    assert forall|c2: int| 0 <= c2 < WIDTH as int && c2 != c
        implies #[trigger] col_fill(b2, c2) == col_fill(b, c2) by {
        lemma_first_empty_same_col(b2, b, c2, 0);
    }
}

/// A board whose occupied-cell total reaches the grid size is entirely full.
pub proof fn lemma_full_board(b: Seq<char>)
    requires
        b.len() == WIDTH as int * HEIGHT as int,
        total_occupied(b) == WIDTH as int * HEIGHT as int,
    ensures
        forall|c: int, r: int| in_bounds(c, r) ==> #[trigger] cell_at(b, c, r) != EMPTY,
{
    assert forall|c: int| 0 <= c < WIDTH as int implies 0 <= #[trigger] col_fill(b, c) <= HEIGHT as int by {
        lemma_col_fill_bounds(b, c, 0);
    }
    assert forall|c: int, r: int| in_bounds(c, r) implies #[trigger] cell_at(b, c, r) != EMPTY by {
        lemma_col_fill_bounds(b, c, 0);
        lemma_col_fill_cells(b, c, 0);
        assert(col_fill(b, c) == HEIGHT as int);
    }
}

} // verus!
