//! Win detection: directional counting of consecutive same-player cells from
//! the coordinate of the last-placed piece, over four axes.

use vstd::prelude::*;

use crate::board::{
    cell_at, in_bounds, lemma_cell_index_in_range, HEIGHT, NUM_PLAYERS, WIDTH, WIN_CONDITION,
};
use crate::direction::Direction;
use crate::game::Game;

verus! {

/// Whether (dx, dy) is one of the eight unit steps.
pub open spec fn is_step(dx: int, dy: int) -> bool {
    -1 <= dx <= 1 && -1 <= dy <= 1 && !(dx == 0 && dy == 0)
}

/// How many steps in direction (dx, dy) a walk from (c, r) can take before
/// leaving the grid, plus the matching count for the other coordinate; used
/// only as a termination measure for `extent`.
pub open spec fn walk_measure(c: int, r: int, dx: int, dy: int) -> int {
    (if dx > 0 {
        WIDTH as int - c
    } else {
        c + 1
    }) + (if dy > 0 {
        HEIGHT as int - r
    } else {
        r + 1
    })
}

/// Number of consecutive cells holding p strictly beyond (c, r) in direction
/// (dx, dy): the walk stops at the grid edge or at the first cell that does
/// not hold p.
pub open spec fn extent(b: Seq<char>, p: char, c: int, r: int, dx: int, dy: int) -> nat
    decreases walk_measure(c, r, dx, dy)
        when is_step(dx, dy) && in_bounds(c, r)
{
    if !in_bounds(c + dx, r + dy) || cell_at(b, c + dx, r + dy) != p {
        0
    } else {
        1 + extent(b, p, c + dx, r + dy, dx, dy)
    }
}

/// Length of the run of p-cells through (c, r) along the axis of (dx, dy),
/// counting the origin cell itself once.
pub open spec fn axis_run(b: Seq<char>, p: char, c: int, r: int, dx: int, dy: int) -> int {
    1 + extent(b, p, c, r, dx, dy) as int + extent(b, p, c, r, -dx, -dy) as int
}

/// A piece of player p placed at (c, r) completes a winning line: some of the
/// four axes through (c, r) carries a run of at least WIN_CONDITION cells.
pub open spec fn win_at(b: Seq<char>, p: char, c: int, r: int) -> bool {
    ||| axis_run(b, p, c, r, 0, 1) >= WIN_CONDITION as int
    ||| axis_run(b, p, c, r, 1, 1) >= WIN_CONDITION as int
    ||| axis_run(b, p, c, r, 1, 0) >= WIN_CONDITION as int
    ||| axis_run(b, p, c, r, 1, -1) >= WIN_CONDITION as int
}

/// A walk can take at most `walk_measure` steps before leaving the grid.
pub proof fn lemma_extent_bound(b: Seq<char>, p: char, c: int, r: int, dx: int, dy: int)
    requires
        is_step(dx, dy),
        in_bounds(c, r),
    ensures
        extent(b, p, c, r, dx, dy) <= walk_measure(c, r, dx, dy),
        extent(b, p, c, r, dx, dy) <= WIDTH as int + HEIGHT as int,
    decreases walk_measure(c, r, dx, dy),
{
    if in_bounds(c + dx, r + dy) && cell_at(b, c + dx, r + dy) == p {
        lemma_extent_bound(b, p, c + dx, r + dy, dx, dy);
    }
}

/// The cell k steps from (c, r) along (dx, dy) is on the grid and holds p.
pub open spec fn ray_holds(b: Seq<char>, p: char, c: int, r: int, dx: int, dy: int, k: int) -> bool {
    in_bounds(c + k * dx, r + k * dy) && cell_at(b, c + k * dx, r + k * dy) == p
}

/// Every cell the walk counted is on the grid and holds p.
pub proof fn lemma_extent_cells(b: Seq<char>, p: char, c: int, r: int, dx: int, dy: int)
    requires
        is_step(dx, dy),
        in_bounds(c, r),
    ensures
        forall|k: int| 1 <= k <= extent(b, p, c, r, dx, dy)
            ==> #[trigger] ray_holds(b, p, c, r, dx, dy, k),
    decreases walk_measure(c, r, dx, dy),
{
    if in_bounds(c + dx, r + dy) && cell_at(b, c + dx, r + dy) == p {
        lemma_extent_cells(b, p, c + dx, r + dy, dx, dy);
        assert forall|k: int| 1 <= k <= extent(b, p, c, r, dx, dy)
            implies #[trigger] ray_holds(b, p, c, r, dx, dy, k) by {
            if k == 1 {
                assert(c + 1 * dx == c + dx && r + 1 * dy == r + dy) by (nonlinear_arith);
            } else {
                assert(1 <= k - 1 <= extent(b, p, c + dx, r + dy, dx, dy));
                assert(ray_holds(b, p, c + dx, r + dy, dx, dy, k - 1));
                assert(c + dx + (k - 1) * dx == c + k * dx
                    && r + dy + (k - 1) * dy == r + k * dy) by (nonlinear_arith);
            }
        }
    }
}

/// If the n cells strictly beyond (c, r) in direction (dx, dy) all hold p,
/// the walk counts at least n of them.
pub proof fn lemma_extent_at_least(
    b: Seq<char>,
    p: char,
    c: int,
    r: int,
    dx: int,
    dy: int,
    n: int,
)
    requires
        is_step(dx, dy),
        in_bounds(c, r),
        n >= 0,
        forall|k: int| 1 <= k <= n ==> #[trigger] ray_holds(b, p, c, r, dx, dy, k),
    ensures
        extent(b, p, c, r, dx, dy) >= n,
    decreases n,
{
    if n > 0 {
        assert(ray_holds(b, p, c, r, dx, dy, 1));
        assert(c + 1 * dx == c + dx && r + 1 * dy == r + dy) by (nonlinear_arith);
        assert(in_bounds(c + dx, r + dy) && cell_at(b, c + dx, r + dy) == p);
        assert forall|k: int| 1 <= k <= n - 1
            implies #[trigger] ray_holds(b, p, c + dx, r + dy, dx, dy, k) by {
            assert(1 <= k + 1 <= n);
            assert(ray_holds(b, p, c, r, dx, dy, k + 1));
            assert(c + dx + k * dx == c + (k + 1) * dx
                && r + dy + k * dy == r + (k + 1) * dy) by (nonlinear_arith);
        }
        lemma_extent_at_least(b, p, c + dx, r + dy, dx, dy, n - 1);
    }
}

/// A stretch of cells all holding p along the axis of (dx, dy), reaching from
/// k = lo to k = hi around the origin (c, r), origin included.
pub open spec fn run_through(
    b: Seq<char>,
    p: char,
    c: int,
    r: int,
    dx: int,
    dy: int,
    lo: int,
    hi: int,
) -> bool {
    &&& is_step(dx, dy)
    &&& lo <= 0 <= hi
    &&& forall|k: int| lo <= k <= hi ==> #[trigger] ray_holds(b, p, c, r, dx, dy, k)
}

/// Detection is complete: a line of WIN_CONDITION or more consecutive
/// p-cells along any axis through (c, r) is detected by `win_at`. (A longer
/// line, of WIN_CONDITION + 1 or more cells, is therefore detected as well.)
pub proof fn lemma_run_detected(
    b: Seq<char>,
    p: char,
    c: int,
    r: int,
    dx: int,
    dy: int,
    lo: int,
    hi: int,
)
    requires
        run_through(b, p, c, r, dx, dy, lo, hi),
        hi - lo + 1 >= WIN_CONDITION as int,
    ensures
        win_at(b, p, c, r),
{
    assert(ray_holds(b, p, c, r, dx, dy, 0));
    assert(c + 0 * dx == c && r + 0 * dy == r) by (nonlinear_arith);
    assert(in_bounds(c, r));
    lemma_extent_at_least(b, p, c, r, dx, dy, hi);
    assert forall|k: int| 1 <= k <= -lo implies #[trigger] ray_holds(b, p, c, r, -dx, -dy, k) by {
        assert(ray_holds(b, p, c, r, dx, dy, -k));
        assert(c + k * -dx == c + -k * dx && r + k * -dy == r + -k * dy) by (nonlinear_arith);
    }
    lemma_extent_at_least(b, p, c, r, -dx, -dy, -lo);
    assert(axis_run(b, p, c, r, dx, dy) >= WIN_CONDITION as int);
    assert(axis_run(b, p, c, r, -dx, -dy) == axis_run(b, p, c, r, dx, dy));
}

/// Detection is sound: a detected win exhibits an actual line of at least
/// WIN_CONDITION consecutive p-cells through (c, r) on one of the four axes;
/// with fewer cells than that along every axis, `win_at` cannot hold. The
/// returned values are the axis and the reach of the line.
pub proof fn lemma_win_has_run(b: Seq<char>, p: char, c: int, r: int) -> (w: (
    int,
    int,
    int,
    int,
))
    requires
        in_bounds(c, r),
        cell_at(b, c, r) == p,
        win_at(b, p, c, r),
    ensures
        run_through(b, p, c, r, w.0, w.1, w.2, w.3),
        w.3 - w.2 + 1 >= WIN_CONDITION as int,
{
    if axis_run(b, p, c, r, 0, 1) >= WIN_CONDITION as int {
        let (lo, hi) = lemma_axis_to_run(b, p, c, r, 0, 1);
        (0, 1, lo, hi)
    } else if axis_run(b, p, c, r, 1, 1) >= WIN_CONDITION as int {
        let (lo, hi) = lemma_axis_to_run(b, p, c, r, 1, 1);
        (1, 1, lo, hi)
    } else if axis_run(b, p, c, r, 1, 0) >= WIN_CONDITION as int {
        let (lo, hi) = lemma_axis_to_run(b, p, c, r, 1, 0);
        (1, 0, lo, hi)
    } else {
        let (lo, hi) = lemma_axis_to_run(b, p, c, r, 1, -1);
        (1, -1, lo, hi)
    }
}

/// An axis whose combined directional counts reach WIN_CONDITION carries an
/// actual run of that many p-cells through the origin.
pub proof fn lemma_axis_to_run(b: Seq<char>, p: char, c: int, r: int, dx: int, dy: int) -> (w: (
    int,
    int,
))
    requires
        is_step(dx, dy),
        in_bounds(c, r),
        cell_at(b, c, r) == p,
        axis_run(b, p, c, r, dx, dy) >= WIN_CONDITION as int,
    ensures
        run_through(b, p, c, r, dx, dy, w.0, w.1),
        w.1 - w.0 + 1 >= WIN_CONDITION as int,
{
    let hi = extent(b, p, c, r, dx, dy) as int;
    let lo = -(extent(b, p, c, r, -dx, -dy) as int);
    lemma_extent_cells(b, p, c, r, dx, dy);
    lemma_extent_cells(b, p, c, r, -dx, -dy);
    assert forall|k: int| lo <= k <= hi implies #[trigger] ray_holds(b, p, c, r, dx, dy, k) by {
        if k == 0 {
            assert(c + 0 * dx == c && r + 0 * dy == r) by (nonlinear_arith);
        } else if k < 0 {
            assert(ray_holds(b, p, c, r, -dx, -dy, -k));
            assert(c + -k * -dx == c + k * dx && r + -k * -dy == r + k * dy) by (nonlinear_arith);
        }
    }
    (lo, hi)
}

impl Game {
    /// Counts consecutive cells of the current player in the given direction,
    /// starting one step beyond `curr` and including a base count of one for
    /// the origin coordinate itself, exactly as the recursive description:
    /// stop at the grid edge or at a cell not held by the current player.
    pub fn count_consecutive(&self, curr: &[i32; 2], direction: Direction) -> (count: usize)
        requires
            self.board@.len() == WIDTH as int * HEIGHT as int,
            self.curr_player < NUM_PLAYERS,
            in_bounds(curr[0] as int, curr[1] as int),
        ensures
            count == 1 + extent(
                self.board@,
                self.players@[self.curr_player as int],
                curr[0] as int,
                curr[1] as int,
                direction.dx(),
                direction.dy(),
            ),
            count <= 1 + WIDTH + HEIGHT,
    {
        let ghost b = self.board@;
        let ghost p = self.players@[self.curr_player as int];
        let player: char = self.players[self.curr_player];
        let mut cur: [i32; 2] = [curr[0], curr[1]];
        let mut count: usize = 1;
        proof {
            lemma_extent_bound(b, p, curr[0] as int, curr[1] as int, direction.dx(), direction.dy());
        }
        loop
            invariant
                self.board@ == b,
                b.len() == WIDTH as int * HEIGHT as int,
                player == p,
                is_step(direction.dx(), direction.dy()),
                in_bounds(cur[0] as int, cur[1] as int),
                in_bounds(curr[0] as int, curr[1] as int),
                1 <= count,
                count + extent(b, p, cur[0] as int, cur[1] as int, direction.dx(), direction.dy())
                    == 1 + extent(b, p, curr[0] as int, curr[1] as int, direction.dx(), direction.dy()),
                extent(b, p, curr[0] as int, curr[1] as int, direction.dx(), direction.dy())
                    <= WIDTH as int + HEIGHT as int,
            ensures
                count == 1 + extent(b, p, curr[0] as int, curr[1] as int, direction.dx(), direction.dy()),
            decreases extent(b, p, cur[0] as int, cur[1] as int, direction.dx(), direction.dy()),
        {
            let next = direction.transform(&cur);
            if next[0] < 0 || next[0] >= WIDTH as i32 || next[1] < 0 || next[1] >= HEIGHT as i32 {
                assert(!in_bounds(cur[0] as int + direction.dx(), cur[1] as int + direction.dy()));
                break;
            }
            proof {
                lemma_cell_index_in_range(next[0] as int, next[1] as int);
            }
            let idx: usize = (next[0] as usize) * HEIGHT + (next[1] as usize);
            if self.board[idx] != player {
                assert(cell_at(b, cur[0] as int + direction.dx(), cur[1] as int + direction.dy()) != p);
                break;
            }
            assert(cell_at(b, cur[0] as int + direction.dx(), cur[1] as int + direction.dy()) == p);
            count = count + 1;
            cur = next;
        }
        count
    }

    /// Whether the piece just placed at `coord` by the current player
    /// completes a line: on each of the four axes the two directional counts
    /// are combined (double-counting the origin once) and compared against
    /// WIN_CONDITION with a strict inequality, so a run of WIN_CONDITION
    /// cells through `coord` wins.
    pub fn check_win(&self, coord: &[i32; 2]) -> (won: bool)
        requires
            self.board@.len() == WIDTH as int * HEIGHT as int,
            self.curr_player < NUM_PLAYERS,
            in_bounds(coord[0] as int, coord[1] as int),
        ensures
            won == win_at(
                self.board@,
                self.players@[self.curr_player as int],
                coord[0] as int,
                coord[1] as int,
            ),
    {
        let up = self.count_consecutive(coord, Direction::Up);
        let down = self.count_consecutive(coord, Direction::Down);
        let up_right = self.count_consecutive(coord, Direction::UpRight);
        let down_left = self.count_consecutive(coord, Direction::DownLeft);
        let right = self.count_consecutive(coord, Direction::Right);
        let left = self.count_consecutive(coord, Direction::Left);
        let down_right = self.count_consecutive(coord, Direction::DownRight);
        let up_left = self.count_consecutive(coord, Direction::UpLeft);
        up + down > WIN_CONDITION
            || up_right + down_left > WIN_CONDITION
            || right + left > WIN_CONDITION
            || down_right + up_left > WIN_CONDITION
    }
}

} // verus!
