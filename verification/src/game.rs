//! The game state and the turn controller: validated gravity drops, turn
//! alternation, and the transition to a terminal win or draw status.

use vstd::prelude::*;

use crate::board::{
    cell_at, cell_index, col_fill, gravity_ok, in_bounds, lemma_cell_index_in_range,
    lemma_col_fill_after_drop, lemma_col_fill_bounds, lemma_first_empty_at, lemma_full_board,
    total_occupied, EMPTY, HEIGHT, NUM_PLAYERS, WIDTH,
};
use crate::win::win_at;

verus! {

/// How a finished game ended: a win by the player with the given index, or a
/// draw on a full board.
#[derive(Debug, PartialEq, Eq, Structural)]
pub enum Outcome {
    Win(usize),
    Draw,
}

/// Whether the game still accepts moves. The transition Playing -> Ended is
/// the only one; a terminal status never reverses.
#[derive(Debug, PartialEq, Eq, Structural)]
pub enum State {
    Playing,
    Ended(Outcome),
}

/// The recoverable, user-facing conditions a move request can run into. None
/// of them mutates the game state.
#[derive(Clone, Copy, Debug, PartialEq, Eq, Structural)]
pub enum GameError {
    /// The collaborator could not parse the input as a column index at all.
    InvalidInput,
    /// The parsed column index lies outside the grid.
    InvalidColumn,
    /// The chosen column has no empty row left.
    ColumnFull,
}

/// The whole game state: the flat column-major grid, the player labels, whose
/// turn it is, how many completed moves were made, and the status.
pub struct Game {
    pub board: Vec<char>,
    pub players: [char; NUM_PLAYERS],
    pub curr_player: usize,
    pub move_count: usize,
    pub status: State,
}

impl Game {
    /// Well-formedness of a game state: grid dimensions, gravity, cells hold
    /// only player labels or stay empty, and the bookkeeping fields agree
    /// with the board. While playing, move_count counts the occupied cells
    /// and the current player is move_count modulo the player count; a win
    /// leaves the winning move uncounted, mirroring the increment-then-switch
    /// order of the drop; a draw happens exactly on the full board.
    pub open spec fn wf(self) -> bool {
        &&& self.board@.len() == WIDTH as int * HEIGHT as int
        &&& gravity_ok(self.board@)
        &&& self.players@[0] != EMPTY
        &&& self.players@[1] != EMPTY
        &&& self.players@[0] != self.players@[1]
        &&& forall|i: int| 0 <= i < self.board@.len()
            ==> #[trigger] self.board@[i] == EMPTY
                || self.board@[i] == self.players@[0]
                || self.board@[i] == self.players@[1]
        &&& self.curr_player < NUM_PLAYERS
        &&& match self.status {
            State::Playing => {
                &&& total_occupied(self.board@) == self.move_count as int
                &&& self.move_count < WIDTH * HEIGHT
                &&& self.curr_player == self.move_count % NUM_PLAYERS
            },
            State::Ended(Outcome::Draw) => {
                &&& self.move_count == WIDTH * HEIGHT
                &&& total_occupied(self.board@) == self.move_count as int
            },
            State::Ended(Outcome::Win(p)) => {
                &&& p == self.curr_player
                &&& self.move_count < WIDTH * HEIGHT
                &&& total_occupied(self.board@) == self.move_count as int + 1
                &&& exists|c: int, r: int|
                    in_bounds(c, r) && #[trigger] cell_at(self.board@, c, r)
                        == self.players@[p as int]
                        && win_at(self.board@, self.players@[p as int], c, r)
            },
        }
    }

    /// A fresh game: an empty grid, the two default player labels, player 0
    /// to move, no moves made, status Playing.
    pub fn new() -> (g: Game)
        ensures
            g.wf(),
            g.board@.len() == WIDTH as int * HEIGHT as int,
            forall|i: int| 0 <= i < g.board@.len() ==> #[trigger] g.board@[i] == EMPTY,
            g.players@[0] == 'A' && g.players@[1] == 'B',
            g.curr_player == 0,
            g.move_count == 0,
            g.status == State::Playing,
    {
        let mut board: Vec<char> = Vec::new();
        let mut i: usize = 0;
        while i < WIDTH * HEIGHT
            invariant
                i <= WIDTH * HEIGHT,
                board@.len() == i as int,
                forall|j: int| 0 <= j < i as int ==> #[trigger] board@[j] == EMPTY,
            decreases WIDTH * HEIGHT - i,
        {
            board.push(EMPTY);
            i = i + 1;
        }
        let g = Game {
            board,
            players: ['A', 'B'],
            curr_player: 0,
            move_count: 0,
            status: State::Playing,
        };
        proof {
            assert forall|c: int| 0 <= c < WIDTH as int implies #[trigger] col_fill(g.board@, c)
                == 0 by {
                lemma_cell_index_in_range(c, 0);
                assert(cell_at(g.board@, c, 0) == EMPTY);
            }
        }
        g
    }

    /// Applies one move of the current player: the piece falls to the lowest
    /// empty row of column `c`. Validation happens before any mutation, so a
    /// failed call leaves the state untouched. On success exactly one cell
    /// turns from empty to the mover's label; a completed line ends the game
    /// with a win for the mover (checked before the full-board test, so a
    /// winning final move is never a draw), a full board ends it with a draw,
    /// and otherwise the turn passes to the next player.
    pub fn try_drop(&mut self, c: usize) -> (result: Result<(), GameError>)
        requires
            old(self).wf(),
            old(self).status is Playing,
        ensures
            final(self).wf(),
            final(self).players == old(self).players,
            // The fill level of a column never leaves the grid, so exactly
            // one of the three cases below applies to every call.
            c < WIDTH ==> 0 <= col_fill(old(self).board@, c as int) <= HEIGHT as int,
            // Defensive re-validation of the column index.
            c >= WIDTH ==> result == Err::<(), GameError>(GameError::InvalidColumn),
            // A full column rejects the move.
            c < WIDTH && col_fill(old(self).board@, c as int) == HEIGHT as int
                ==> result == Err::<(), GameError>(GameError::ColumnFull),
            // A failed call changes nothing at all.
            result is Err ==> {
                &&& final(self).board@ == old(self).board@
                &&& final(self).curr_player == old(self).curr_player
                &&& final(self).move_count == old(self).move_count
                &&& final(self).status == old(self).status
            },
            // Any column with room accepts the move.
            c < WIDTH && col_fill(old(self).board@, c as int) < HEIGHT as int ==> ({
                let f = col_fill(old(self).board@, c as int);
                let mover = old(self).players@[old(self).curr_player as int];
                let nb = final(self).board@;
                &&& result == Ok::<(), GameError>(())
                &&& nb == old(self).board@.update(cell_index(c as int, f), mover)
                &&& col_fill(nb, c as int) == f + 1
                &&& forall|c2: int| 0 <= c2 < WIDTH as int && c2 != c as int
                    ==> #[trigger] col_fill(nb, c2) == col_fill(old(self).board@, c2)
                &&& (win_at(nb, mover, c as int, f) ==> {
                    &&& final(self).status == State::Ended(Outcome::Win(old(self).curr_player))
                    &&& final(self).move_count == old(self).move_count
                    &&& final(self).curr_player == old(self).curr_player
                })
                &&& (!win_at(nb, mover, c as int, f)
                    && old(self).move_count + 1 == WIDTH * HEIGHT ==> {
                    &&& final(self).status == State::Ended(Outcome::Draw)
                    &&& final(self).move_count == old(self).move_count + 1
                    &&& final(self).curr_player == old(self).curr_player
                })
                &&& (!win_at(nb, mover, c as int, f)
                    && old(self).move_count + 1 < WIDTH * HEIGHT ==> {
                    &&& final(self).status == State::Playing
                    &&& final(self).move_count == old(self).move_count + 1
                    &&& final(self).curr_player as int == (old(self).move_count + 1) % (
                    NUM_PLAYERS as int)
                    &&& final(self).curr_player != old(self).curr_player
                })
            }),
            // A cell, once occupied, never becomes empty or changes owner.
            forall|i: int| 0 <= i < old(self).board@.len() && #[trigger] old(self).board@[i] != EMPTY
                ==> final(self).board@[i] == old(self).board@[i],
    {
        if c >= WIDTH {
            return Err(GameError::InvalidColumn);
        }
        let ghost ob = self.board@;
        proof {
            lemma_col_fill_bounds(ob, c as int, 0);
        }
        let mut r: usize = 0;
        while r < HEIGHT
            invariant
                self == old(self),
                self.board@ == ob,
                self.wf(),
                c < WIDTH,
                r <= HEIGHT,
                forall|rr: int| 0 <= rr < r as int ==> #[trigger] cell_at(ob, c as int, rr) != EMPTY,
            ensures
                self == old(self),
                self.board@ == ob,
                r <= HEIGHT,
                forall|rr: int| 0 <= rr < r as int ==> #[trigger] cell_at(ob, c as int, rr) != EMPTY,
                r < HEIGHT ==> cell_at(ob, c as int, r as int) == EMPTY,
            decreases HEIGHT - r,
        {
            proof {
                lemma_cell_index_in_range(c as int, r as int);
            }
            if self.board[c * HEIGHT + r] == EMPTY {
                break;
            }
            r = r + 1;
        }
        proof {
            lemma_first_empty_at(ob, c as int, 0, r as int);
        }
        if r == HEIGHT {
            return Err(GameError::ColumnFull);
        }
        let mover: char = self.players[self.curr_player];
        proof {
            lemma_cell_index_in_range(c as int, r as int);
            lemma_col_fill_after_drop(ob, c as int, mover);
        }
        let idx: usize = c * HEIGHT + r;
        self.board.set(idx, mover);
        if self.check_win(&[c as i32, r as i32]) {
            self.status = State::Ended(Outcome::Win(self.curr_player));
            proof {
                assert(cell_at(self.board@, c as int, r as int) == mover);
            }
        } else {
            self.move_count = self.move_count + 1;
            if self.move_count == WIDTH * HEIGHT {
                self.status = State::Ended(Outcome::Draw);
                return Ok(());
            }
            self.curr_player = self.move_count % NUM_PLAYERS;
        }
        Ok(())
    }
}

/// A game that ended in a draw did so exactly on the board-filling move:
/// every cell of its grid is occupied, so no further drop could be applied.
pub proof fn lemma_draw_means_full(g: Game)
    requires
        g.wf(),
        g.status == State::Ended(Outcome::Draw),
    ensures
        forall|c: int, r: int| in_bounds(c, r) ==> #[trigger] cell_at(g.board@, c, r) != EMPTY,
{
    lemma_full_board(g.board@);
}

} // verus!
