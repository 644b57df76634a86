use connect_four::board::{HEIGHT, WIDTH};
use connect_four::{Direction, Game, GameError, Outcome, State};

fn cell(g: &Game, c: usize, r: usize) -> char {
    g.board[c * HEIGHT + r]
}

#[test]
fn new_game_initial_state() {
    let g = Game::new();
    assert_eq!(g.board.len(), WIDTH * HEIGHT);
    for c in 0..WIDTH {
        for r in 0..HEIGHT {
            assert_eq!(cell(&g, c, r), ' ');
        }
    }
    assert_eq!(g.players, ['A', 'B']);
    assert_eq!(g.curr_player, 0);
    assert_eq!(g.move_count, 0);
    assert_eq!(g.status, State::Playing);
}

#[test]
fn transform_all_directions() {
    let origin: [i32; 2] = [3, 2];
    assert_eq!(Direction::Up.transform(&origin), [3, 3]);
    assert_eq!(Direction::UpRight.transform(&origin), [4, 3]);
    assert_eq!(Direction::Right.transform(&origin), [4, 2]);
    assert_eq!(Direction::DownRight.transform(&origin), [4, 1]);
    assert_eq!(Direction::Down.transform(&origin), [3, 1]);
    assert_eq!(Direction::DownLeft.transform(&origin), [2, 1]);
    assert_eq!(Direction::Left.transform(&origin), [2, 2]);
    assert_eq!(Direction::UpLeft.transform(&origin), [2, 3]);
}

#[test]
fn drop_fills_lowest_empty_row() {
    let mut g = Game::new();
    assert_eq!(g.try_drop(3), Ok(()));
    assert_eq!(cell(&g, 3, 0), 'A');
    assert_eq!(g.move_count, 1);
    assert_eq!(g.curr_player, 1);
    assert_eq!(g.try_drop(3), Ok(()));
    assert_eq!(cell(&g, 3, 1), 'B');
    assert_eq!(g.move_count, 2);
    assert_eq!(g.curr_player, 0);
    assert_eq!(g.status, State::Playing);
}

#[test]
fn invalid_column_rejected_without_mutation() {
    let mut g = Game::new();
    let before = g.board.clone();
    assert_eq!(g.try_drop(WIDTH), Err(GameError::InvalidColumn));
    assert_eq!(g.try_drop(100), Err(GameError::InvalidColumn));
    assert_eq!(g.board, before);
    assert_eq!(g.move_count, 0);
    assert_eq!(g.curr_player, 0);
    assert_eq!(g.status, State::Playing);
}

#[test]
fn column_full_rejected_board_unchanged() {
    let mut g = Game::new();
    // Six alternating pieces fill column 0 without a four-in-a-column.
    for _ in 0..HEIGHT {
        assert_eq!(g.try_drop(0), Ok(()));
    }
    assert_eq!(g.status, State::Playing);
    let board_before = g.board.clone();
    let moves_before = g.move_count;
    let player_before = g.curr_player;
    assert_eq!(g.try_drop(0), Err(GameError::ColumnFull));
    assert_eq!(g.board, board_before);
    assert_eq!(g.move_count, moves_before);
    assert_eq!(g.curr_player, player_before);
    assert_eq!(g.status, State::Playing);
}

#[test]
fn vertical_win_on_seventh_drop() {
    let mut g = Game::new();
    // A plays column 0 on every odd turn, B column 1: A's fourth piece in
    // column 0 completes a vertical line.
    for c in [0, 1, 0, 1, 0, 1] {
        assert_eq!(g.try_drop(c), Ok(()));
        assert_eq!(g.status, State::Playing);
    }
    assert_eq!(g.move_count, 6);
    assert_eq!(g.try_drop(0), Ok(()));
    assert_eq!(g.status, State::Ended(Outcome::Win(0)));
    // The winning move is not counted and the mover stays current.
    assert_eq!(g.move_count, 6);
    assert_eq!(g.curr_player, 0);
    assert_eq!(cell(&g, 0, 3), 'A');
}

#[test]
fn horizontal_win_detected() {
    let mut g = Game::new();
    for c in [0, 6, 1, 6, 2, 6] {
        assert_eq!(g.try_drop(c), Ok(()));
        assert_eq!(g.status, State::Playing);
    }
    assert_eq!(g.try_drop(3), Ok(()));
    assert_eq!(g.status, State::Ended(Outcome::Win(0)));
}

#[test]
fn diagonal_win_detected() {
    let mut g = Game::new();
    // Builds the up-right diagonal (0,0), (1,1), (2,2), (3,3) for player A.
    for c in [0, 1, 1, 2, 2, 3, 2, 3, 3, 6] {
        assert_eq!(g.try_drop(c), Ok(()));
        assert_eq!(g.status, State::Playing);
    }
    assert_eq!(g.try_drop(3), Ok(()));
    assert_eq!(g.status, State::Ended(Outcome::Win(0)));
    assert_eq!(cell(&g, 3, 3), 'A');
}

#[test]
fn counting_walks_the_run() {
    let mut g = Game::new();
    for c in [0, 1, 0, 1, 0, 1, 0] {
        assert_eq!(g.try_drop(c), Ok(()));
    }
    // Player A (still current after the win) holds rows 0..=3 of column 0.
    assert_eq!(g.count_consecutive(&[0, 3], Direction::Down), 4);
    assert_eq!(g.count_consecutive(&[0, 3], Direction::Up), 1);
    assert_eq!(g.count_consecutive(&[0, 0], Direction::Up), 4);
    assert_eq!(g.count_consecutive(&[0, 3], Direction::Right), 1);
    assert!(g.check_win(&[0, 3]));
    assert!(g.check_win(&[0, 0]));
}

#[test]
fn no_win_detected_on_short_runs() {
    let mut g = Game::new();
    assert_eq!(g.try_drop(2), Ok(()));
    assert_eq!(g.try_drop(3), Ok(()));
    // A is current again and holds (2, 0): a run of one on every axis.
    assert!(!g.check_win(&[2, 0]));
    assert_eq!(g.try_drop(2), Ok(()));
    // B is current and holds (3, 0) alone.
    assert!(!g.check_win(&[3, 0]));
}

#[test]
fn draw_on_forty_second_move() {
    // Filling column pairs in this order gives every cell the colour
    // (c / 2 + r) mod 2, a pattern with no run of four anywhere, so the
    // board fills completely and the last move declares the draw.
    let mut moves: Vec<usize> = Vec::new();
    for (a, b) in [(0, 2), (1, 3), (4, 6)] {
        for _ in 0..3 {
            moves.push(a);
            moves.push(b);
            moves.push(b);
            moves.push(a);
        }
    }
    for _ in 0..HEIGHT {
        moves.push(5);
    }
    assert_eq!(moves.len(), WIDTH * HEIGHT);

    let mut g = Game::new();
    for (i, &c) in moves.iter().enumerate() {
        // Strict turn alternation while the game is running.
        assert_eq!(g.curr_player, i % 2);
        assert_eq!(g.try_drop(c), Ok(()));
        if i + 1 < moves.len() {
            assert_eq!(g.status, State::Playing);
        }
    }
    assert_eq!(g.status, State::Ended(Outcome::Draw));
    assert_eq!(g.move_count, WIDTH * HEIGHT);
    for c in 0..WIDTH {
        for r in 0..HEIGHT {
            assert_ne!(cell(&g, c, r), ' ');
        }
    }
}

#[test]
fn error_kinds_are_distinct() {
    assert_ne!(GameError::InvalidInput, GameError::InvalidColumn);
    assert_ne!(GameError::InvalidInput, GameError::ColumnFull);
    assert_ne!(GameError::InvalidColumn, GameError::ColumnFull);
}
