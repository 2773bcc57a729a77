use chess_engine::ai_minmax::{
    DEPTH, EVAL_MAX, EVAL_MIN, best_moves_for, eval, get_max, get_min, negamax, play, select_move,
};
use chess_engine::board::{Board, Color, Move, Piece, PieceKind, Square, starting_board};
use chess_engine::mvg::get_legal_moves_for;

fn piece(color: Color, kind: PieceKind) -> Piece {
    Piece { color, kind }
}

#[test]
fn get_max_and_get_min_scan_the_values() {
    let values = vec![3, -5, 7, 7, 0];
    assert_eq!(get_max(&values), 7);
    assert_eq!(get_min(&values), -5);
}

#[test]
fn empty_value_lists_yield_the_seeds() {
    let values: Vec<i32> = Vec::new();
    assert_eq!(get_max(&values), EVAL_MIN);
    assert_eq!(get_min(&values), EVAL_MAX);
}

#[test]
fn eval_counts_material_and_position() {
    let mut board = Board::empty_board();
    // A white pawn on d5: 100 material plus 2 * (3 + 3) position.
    board.set_at(3, 3, piece(Color::White, PieceKind::Pawn));
    assert_eq!(eval(&board, Color::White), 112);
    assert_eq!(eval(&board, Color::Black), -112);
    // A black knight in the corner adds plain material for Black.
    board.set_at(0, 0, piece(Color::Black, PieceKind::Knight));
    assert_eq!(eval(&board, Color::White), 112 - 320);
    assert_eq!(eval(&board, Color::Black), 320 - 112);
}

#[test]
fn eval_of_the_initial_position_is_balanced() {
    let board = starting_board();
    assert_eq!(eval(&board, Color::White), 0);
    assert_eq!(eval(&board, Color::Black), 0);
}

#[test]
fn negamax_at_depth_zero_is_the_static_evaluation() {
    let board = starting_board();
    assert_eq!(negamax(Color::White, &board, 0), eval(&board, Color::White));
    let mut lopsided = Board::empty_board();
    lopsided.set_at(3, 3, piece(Color::Black, PieceKind::Queen));
    assert_eq!(negamax(Color::White, &lopsided, 0), eval(&lopsided, Color::White));
}

#[test]
fn negamax_with_no_legal_moves_returns_the_floor() {
    // The stalemated side scores EVAL_MIN at any positive depth.
    let mut board = Board::empty_board();
    board.set_at(0, 0, piece(Color::Black, PieceKind::King));
    board.set_at(1, 2, piece(Color::White, PieceKind::Queen));
    board.set_at(7, 7, piece(Color::White, PieceKind::King));
    assert_eq!(negamax(Color::Black, &board, 1), EVAL_MIN);
}

#[test]
fn select_move_returns_none_without_legal_moves() {
    let mut board = Board::empty_board();
    board.set_at(0, 0, piece(Color::Black, PieceKind::King));
    board.set_at(1, 2, piece(Color::White, PieceKind::Queen));
    board.set_at(7, 7, piece(Color::White, PieceKind::King));
    assert_eq!(select_move(Color::Black, &board, 2), None);
}

#[test]
fn select_move_at_depth_zero_ranks_by_static_evaluation() {
    let board = starting_board();
    let moves = get_legal_moves_for(Color::White, &board, true);
    let mut best = EVAL_MIN;
    for m in moves.iter() {
        let mut after = board.clone_board();
        after.apply_move(*m);
        let v = eval(&after, Color::White);
        if v > best {
            best = v;
        }
    }
    let chosen = select_move(Color::White, &board, 0).unwrap();
    let mut after = board.clone_board();
    after.apply_move(chosen);
    assert_eq!(eval(&after, Color::White), best);
}

#[test]
fn select_move_takes_a_hanging_queen() {
    // A white rook may capture an undefended black queen: with one ply
    // of search the capture is the unique best move.
    let mut board = Board::empty_board();
    board.set_at(0, 7, piece(Color::White, PieceKind::Rook));
    board.set_at(0, 2, piece(Color::Black, PieceKind::Queen));
    board.set_at(7, 7, piece(Color::White, PieceKind::King));
    board.set_at(7, 0, piece(Color::Black, PieceKind::King));
    let chosen = select_move(Color::White, &board, 0).unwrap();
    assert_eq!(chosen.from.x, 0);
    assert_eq!(chosen.from.y, 7);
    assert_eq!(chosen.to.x, 0);
    assert_eq!(chosen.to.y, 2);
}

#[test]
fn tied_best_moves_are_not_always_the_same() {
    // The initial position holds mirror-image best moves of equal value;
    // over many trials the random tie-break must visit more than one.
    let board = starting_board();
    let mut seen: Vec<Move> = Vec::new();
    for _ in 0..80 {
        let m = select_move(Color::White, &board, 0).unwrap();
        if !seen.iter().any(|s| *s == m) {
            seen.push(m);
        }
    }
    assert!(seen.len() > 1);
}

#[test]
fn play_applies_a_legal_move() {
    let mut board = starting_board();
    play(Color::White, &mut board);
    // Exactly one White piece has left its square and landed on an
    // empty one: 30 occupied squares stay occupied, two flip.
    let mut occupied = 0;
    for y in 0..8 {
        for x in 0..8 {
            if board.piece_at(x, y).is_some() {
                occupied += 1;
            }
        }
    }
    assert_eq!(occupied, 32);
    assert_eq!(DEPTH, 3);
}

#[test]
fn play_leaves_a_finished_game_alone() {
    let mut board = Board::empty_board();
    board.set_at(0, 0, piece(Color::Black, PieceKind::King));
    board.set_at(1, 2, piece(Color::White, PieceKind::Queen));
    board.set_at(7, 7, piece(Color::White, PieceKind::King));
    let before = board.clone_board();
    play(Color::Black, &mut board);
    assert!(chess_engine::board::boards_equal(&before, &board));
}

#[test]
fn the_depth_zero_tie_set_holds_the_mirror_knight_moves() {
    // From the initial position the two knight developments toward the
    // center gain the most positional bonus and tie for best.
    let board = starting_board();
    let best = best_moves_for(Color::White, &board, 0);
    assert_eq!(best.len(), 2);
    let b1c3 = Move { from: Square { x: 1, y: 7 }, to: Square { x: 2, y: 5 } };
    let g1f3 = Move { from: Square { x: 6, y: 7 }, to: Square { x: 5, y: 5 } };
    assert!(best.iter().any(|m| *m == b1c3));
    assert!(best.iter().any(|m| *m == g1f3));
}
