use chess_engine::board::{Board, Color, Move, Piece, PieceKind, Square, boards_equal, starting_board};
use chess_engine::mvg::{
    GameStatus, game_status, get_legal_moves_for, is_in_check, is_legal_move, is_owned_by,
    try_proceed,
};
use chess_engine::notation::{ParseError, current_player_turn, parse_box, parse_move, piece_from_name};

fn sq(x: usize, y: usize) -> Square {
    Square { x, y }
}

fn mv(fx: usize, fy: usize, tx: usize, ty: usize) -> Move {
    Move { from: sq(fx, fy), to: sq(tx, ty) }
}

fn piece(color: Color, kind: PieceKind) -> Piece {
    Piece { color, kind }
}

#[test]
fn initial_position_has_twenty_white_moves() {
    let board = starting_board();
    let moves = get_legal_moves_for(Color::White, &board, true);
    assert_eq!(moves.len(), 20);
}

#[test]
fn initial_position_has_twenty_black_moves() {
    let board = starting_board();
    let moves = get_legal_moves_for(Color::Black, &board, true);
    assert_eq!(moves.len(), 20);
}

#[test]
fn no_legal_move_lands_on_own_color() {
    let board = starting_board();
    for color in [Color::White, Color::Black] {
        let moves = get_legal_moves_for(color, &board, true);
        for m in moves.iter() {
            if let Some(p) = board.piece_at(m.to.x, m.to.y) {
                assert_ne!(p.color, color);
            }
        }
    }
}

#[test]
fn apply_then_restore_is_identity() {
    let original = starting_board();
    let mut copy = original.clone_board();
    copy.apply_move(mv(4, 6, 4, 4));
    assert!(!boards_equal(&original, &copy));
    let restored = original.clone_board();
    assert!(boards_equal(&original, &restored));
}

#[test]
fn no_legal_move_leaves_own_king_in_check() {
    // White king on e1 facing a black rook on e8: every legal White move
    // must end with the White king out of check.
    let mut board = Board::empty_board();
    board.set_at(4, 7, piece(Color::White, PieceKind::King));
    board.set_at(4, 0, piece(Color::Black, PieceKind::Rook));
    board.set_at(0, 0, piece(Color::Black, PieceKind::King));
    board.set_at(3, 6, piece(Color::White, PieceKind::Queen));
    assert!(is_in_check(Color::White, &board));
    let moves = get_legal_moves_for(Color::White, &board, true);
    assert!(moves.len() > 0);
    for m in moves.iter() {
        let mut after = board.clone_board();
        after.apply_move(*m);
        assert!(!is_in_check(Color::White, &after));
    }
}

#[test]
fn corner_king_has_three_moves() {
    let mut board = Board::empty_board();
    board.set_at(0, 0, piece(Color::White, PieceKind::King));
    let moves = get_legal_moves_for(Color::White, &board, true);
    assert_eq!(moves.len(), 3);
}

#[test]
fn central_lone_king_has_eight_moves() {
    let mut board = Board::empty_board();
    board.set_at(3, 3, piece(Color::Black, PieceKind::King));
    let moves = get_legal_moves_for(Color::Black, &board, true);
    assert_eq!(moves.len(), 8);
}

#[test]
fn boxed_rook_has_no_destination() {
    let mut board = Board::empty_board();
    board.set_at(3, 3, piece(Color::White, PieceKind::Rook));
    board.set_at(2, 3, piece(Color::White, PieceKind::Pawn));
    board.set_at(4, 3, piece(Color::White, PieceKind::Pawn));
    board.set_at(3, 2, piece(Color::White, PieceKind::Pawn));
    board.set_at(3, 4, piece(Color::White, PieceKind::Pawn));
    board.set_at(0, 7, piece(Color::White, PieceKind::King));
    board.set_at(7, 0, piece(Color::Black, PieceKind::King));
    let moves = get_legal_moves_for(Color::White, &board, true);
    let rook_moves: Vec<&Move> = moves.iter().filter(|m| m.from == sq(3, 3)).collect();
    assert_eq!(rook_moves.len(), 0);
}

#[test]
fn back_rank_mate_is_checkmate() {
    // Black king g8 behind its own pawns, White rook delivering mate on
    // the back rank: no legal Black move and the Black king in check.
    let mut board = Board::empty_board();
    board.set_at(6, 0, piece(Color::Black, PieceKind::King));
    board.set_at(5, 1, piece(Color::Black, PieceKind::Pawn));
    board.set_at(6, 1, piece(Color::Black, PieceKind::Pawn));
    board.set_at(7, 1, piece(Color::Black, PieceKind::Pawn));
    board.set_at(0, 0, piece(Color::White, PieceKind::Rook));
    board.set_at(4, 7, piece(Color::White, PieceKind::King));
    let moves = get_legal_moves_for(Color::Black, &board, true);
    assert_eq!(moves.len(), 0);
    assert!(is_in_check(Color::Black, &board));
}

#[test]
fn cornered_king_stalemate() {
    // Black king a8, White queen b6: Black has no legal move and is not
    // in check.
    let mut board = Board::empty_board();
    board.set_at(0, 0, piece(Color::Black, PieceKind::King));
    board.set_at(1, 2, piece(Color::White, PieceKind::Queen));
    board.set_at(7, 7, piece(Color::White, PieceKind::King));
    let moves = get_legal_moves_for(Color::Black, &board, true);
    assert_eq!(moves.len(), 0);
    assert!(!is_in_check(Color::Black, &board));
}

#[test]
fn short_castle_is_offered_and_moves_the_rook() {
    let mut board = Board::empty_board();
    board.set_at(4, 7, piece(Color::White, PieceKind::King));
    board.set_at(7, 7, piece(Color::White, PieceKind::Rook));
    board.set_at(4, 0, piece(Color::Black, PieceKind::King));
    let castle = mv(4, 7, 6, 7);
    let moves = get_legal_moves_for(Color::White, &board, true);
    assert!(moves.iter().any(|m| *m == castle));
    assert!(is_legal_move(Color::White, castle, &board));
    board.apply_move(castle);
    assert_eq!(board.piece_at(6, 7), Some(piece(Color::White, PieceKind::King)));
    assert_eq!(board.piece_at(5, 7), Some(piece(Color::White, PieceKind::Rook)));
    assert_eq!(board.piece_at(7, 7), None);
    assert!(board.white_king_moved);
    assert!(board.white_rook_h_moved);
}

#[test]
fn castle_blocked_by_a_piece_is_refused() {
    let mut board = Board::empty_board();
    board.set_at(4, 7, piece(Color::White, PieceKind::King));
    board.set_at(7, 7, piece(Color::White, PieceKind::Rook));
    board.set_at(5, 7, piece(Color::White, PieceKind::Bishop));
    board.set_at(4, 0, piece(Color::Black, PieceKind::King));
    assert!(!is_legal_move(Color::White, mv(4, 7, 6, 7), &board));
}

#[test]
fn long_castle_moves_rook_to_the_d_file() {
    let mut board = Board::empty_board();
    board.set_at(4, 0, piece(Color::Black, PieceKind::King));
    board.set_at(0, 0, piece(Color::Black, PieceKind::Rook));
    board.set_at(4, 7, piece(Color::White, PieceKind::King));
    let castle = mv(4, 0, 2, 0);
    assert!(is_legal_move(Color::Black, castle, &board));
    board.apply_move(castle);
    assert_eq!(board.piece_at(2, 0), Some(piece(Color::Black, PieceKind::King)));
    assert_eq!(board.piece_at(3, 0), Some(piece(Color::Black, PieceKind::Rook)));
    assert_eq!(board.piece_at(0, 0), None);
}

#[test]
fn capture_is_recorded_in_the_tally() {
    let mut board = Board::empty_board();
    board.set_at(0, 0, piece(Color::White, PieceKind::Rook));
    board.set_at(0, 5, piece(Color::Black, PieceKind::Pawn));
    board.apply_move(mv(0, 0, 0, 5));
    assert_eq!(board.black_taken.len(), 1);
    assert_eq!(board.black_taken[0], piece(Color::Black, PieceKind::Pawn));
    assert_eq!(board.white_taken.len(), 0);
}

#[test]
fn pawn_double_step_is_blocked_by_an_obstruction() {
    let mut board = starting_board();
    // A white knight parked on e3 blocks e2-e4 but not d2-d4.
    board.set_at(4, 5, piece(Color::White, PieceKind::Knight));
    assert!(!is_legal_move(Color::White, mv(4, 6, 4, 4), &board));
    assert!(is_legal_move(Color::White, mv(3, 6, 3, 4), &board));
}

#[test]
fn pawn_captures_only_diagonally() {
    let mut board = Board::empty_board();
    board.set_at(4, 4, piece(Color::White, PieceKind::Pawn));
    board.set_at(4, 3, piece(Color::Black, PieceKind::Pawn));
    board.set_at(3, 3, piece(Color::Black, PieceKind::Knight));
    board.set_at(0, 0, piece(Color::Black, PieceKind::King));
    board.set_at(7, 7, piece(Color::White, PieceKind::King));
    assert!(!is_legal_move(Color::White, mv(4, 4, 4, 3), &board));
    assert!(is_legal_move(Color::White, mv(4, 4, 3, 3), &board));
}

#[test]
fn pawn_upgrade_detects_a_pawn_on_the_far_rank() {
    let mut board = Board::empty_board();
    board.set_at(2, 1, piece(Color::White, PieceKind::Pawn));
    assert!(!board.pawn_upgrade());
    board.apply_move(mv(2, 1, 2, 0));
    assert!(board.pawn_upgrade());
    board.set_at(2, 0, piece(Color::White, PieceKind::Queen));
    assert!(!board.pawn_upgrade());
}

#[test]
fn unfiltered_list_keeps_self_exposing_moves() {
    // The queen is pinned in front of its king by a rook: the pseudo-legal
    // list offers its moves, the filtered list does not.
    let mut board = Board::empty_board();
    board.set_at(4, 7, piece(Color::White, PieceKind::King));
    board.set_at(4, 5, piece(Color::White, PieceKind::Queen));
    board.set_at(4, 0, piece(Color::Black, PieceKind::Rook));
    board.set_at(0, 0, piece(Color::Black, PieceKind::King));
    let sideways = mv(4, 5, 0, 5);
    let pseudo = get_legal_moves_for(Color::White, &board, false);
    assert!(pseudo.iter().any(|m| *m == sideways));
    assert!(!is_legal_move(Color::White, sideways, &board));
}

#[test]
fn is_owned_by_reports_the_occupant() {
    let board = starting_board();
    assert!(is_owned_by(Color::White, sq(0, 7), &board));
    assert!(is_owned_by(Color::Black, sq(0, 0), &board));
    assert!(!is_owned_by(Color::White, sq(0, 0), &board));
    assert!(!is_owned_by(Color::White, sq(4, 4), &board));
}

#[test]
fn try_proceed_follows_the_movement_rules() {
    let board = starting_board();
    assert!(try_proceed(&mv(4, 6, 4, 4), &board));
    assert!(try_proceed(&mv(1, 7, 2, 5), &board));
    // Rook onto its own pawn, and a rook blocked by it.
    assert!(!try_proceed(&mv(0, 7, 0, 6), &board));
    assert!(!try_proceed(&mv(0, 7, 0, 4), &board));
}

#[test]
fn parse_box_reads_file_then_rank() {
    assert_eq!(parse_box(b"e2"), Ok(Square { x: 4, y: 6 }));
    assert_eq!(parse_box(b"a8"), Ok(Square { x: 0, y: 0 }));
    assert_eq!(parse_box(b"h1"), Ok(Square { x: 7, y: 7 }));
}

#[test]
fn parse_box_rejects_bad_text() {
    assert_eq!(parse_box(b"e"), Err(ParseError::WrongLength));
    assert_eq!(parse_box(b"e22"), Err(ParseError::WrongLength));
    assert_eq!(parse_box(b"z2"), Err(ParseError::BadCharacter));
}

#[test]
fn parse_move_combines_two_boxes() {
    assert_eq!(
        parse_move(b"e2", b"e4"),
        Ok(Move { from: Square { x: 4, y: 6 }, to: Square { x: 4, y: 4 } })
    );
    assert_eq!(parse_move(b"e2", b"x9"), Err(ParseError::BadCharacter));
    assert_eq!(parse_move(b"e2x", b"e4"), Err(ParseError::WrongLength));
}

#[test]
fn piece_names_map_to_kinds() {
    assert_eq!(piece_from_name(b"q"), Some(PieceKind::Queen));
    assert_eq!(piece_from_name(b"queen"), Some(PieceKind::Queen));
    assert_eq!(piece_from_name(b"rook"), Some(PieceKind::Rook));
    assert_eq!(piece_from_name(b"b"), Some(PieceKind::Bishop));
    assert_eq!(piece_from_name(b"knight"), Some(PieceKind::Knight));
    assert_eq!(piece_from_name(b"pawn"), None);
    assert_eq!(piece_from_name(b""), None);
}

#[test]
fn white_plays_the_even_turns() {
    assert_eq!(current_player_turn(0), Color::White);
    assert_eq!(current_player_turn(1), Color::Black);
    assert_eq!(current_player_turn(2), Color::White);
    assert_eq!(current_player_turn(41), Color::Black);
}

#[test]
fn castle_is_refused_after_the_king_has_moved() {
    let mut board = Board::empty_board();
    board.set_at(4, 7, piece(Color::White, PieceKind::King));
    board.set_at(7, 7, piece(Color::White, PieceKind::Rook));
    board.set_at(4, 0, piece(Color::Black, PieceKind::King));
    board.apply_move(mv(4, 7, 4, 6));
    board.apply_move(mv(4, 6, 4, 7));
    assert!(board.white_king_moved);
    assert!(!is_legal_move(Color::White, mv(4, 7, 6, 7), &board));
}

#[test]
fn legal_moves_come_in_board_scan_order() {
    // Sources are scanned rank-major from the top of the board, then
    // destinations the same way: White's first listed move from the
    // initial position is the a-pawn's double step.
    let board = starting_board();
    let moves = get_legal_moves_for(Color::White, &board, true);
    assert_eq!(moves[0], mv(0, 6, 0, 4));
    for w in moves.windows(2) {
        let a = (w[0].from.y * 8 + w[0].from.x, w[0].to.y * 8 + w[0].to.x);
        let b = (w[1].from.y * 8 + w[1].from.x, w[1].to.y * 8 + w[1].to.x);
        assert!(a < b);
    }
}

#[test]
fn game_status_tells_mate_from_stalemate() {
    let start = starting_board();
    assert_eq!(game_status(Color::White, &start), GameStatus::Ongoing);
    let mut mate = Board::empty_board();
    mate.set_at(6, 0, piece(Color::Black, PieceKind::King));
    mate.set_at(5, 1, piece(Color::Black, PieceKind::Pawn));
    mate.set_at(6, 1, piece(Color::Black, PieceKind::Pawn));
    mate.set_at(7, 1, piece(Color::Black, PieceKind::Pawn));
    mate.set_at(0, 0, piece(Color::White, PieceKind::Rook));
    mate.set_at(4, 7, piece(Color::White, PieceKind::King));
    assert_eq!(game_status(Color::Black, &mate), GameStatus::Checkmate);
    let mut pat = Board::empty_board();
    pat.set_at(0, 0, piece(Color::Black, PieceKind::King));
    pat.set_at(1, 2, piece(Color::White, PieceKind::Queen));
    pat.set_at(7, 7, piece(Color::White, PieceKind::King));
    assert_eq!(game_status(Color::Black, &pat), GameStatus::Stalemate);
}
