//! The check and legality engine: king attack detection, castling
//! eligibility, and enumeration of the complete legal-move list for a
//! side, filtering out moves that would leave that side's own king in
//! check.

use vstd::prelude::*;
use crate::board::{
    Board, BoardModel, Color, Piece, PieceKind, Square, apply_move_spec, back_rank, cell, cell_at,
    color_at, empty_at, move_wf, sq_wf, wf,
};
pub use crate::board::Move;
use crate::mvp::{movement_ok, piece_movement_ok};

verus! {

/// `c`'s king has already moved.
pub open spec fn king_moved(b: BoardModel, c: Color) -> bool {
    if c is White {
        b.white_king_moved
    } else {
        b.black_king_moved
    }
}

/// `c`'s h-file (kingside) rook has already moved.
pub open spec fn rook_h_moved(b: BoardModel, c: Color) -> bool {
    if c is White {
        b.white_rook_h_moved
    } else {
        b.black_rook_h_moved
    }
}

/// `c`'s a-file (queenside) rook has already moved.
pub open spec fn rook_a_moved(b: BoardModel, c: Color) -> bool {
    if c is White {
        b.white_rook_a_moved
    } else {
        b.black_rook_a_moved
    }
}

/// Kingside castling is available to `c`: king and kingside rook stand
/// unmoved on their home squares and the two squares between them are
/// empty.
pub open spec fn short_castle_ok(b: BoardModel, c: Color) -> bool {
    let r = back_rank(c);
    &&& !king_moved(b, c)
    &&& !rook_h_moved(b, c)
    &&& cell(b, 4, r) == Some(Piece { color: c, kind: PieceKind::King })
    &&& cell(b, 7, r) == Some(Piece { color: c, kind: PieceKind::Rook })
    &&& empty_at(b, 5, r)
    &&& empty_at(b, 6, r)
}

/// Queenside castling is available to `c`: king and queenside rook
/// stand unmoved on their home squares and the three squares between
/// them are empty.
pub open spec fn long_castle_ok(b: BoardModel, c: Color) -> bool {
    let r = back_rank(c);
    &&& !king_moved(b, c)
    &&& !rook_a_moved(b, c)
    &&& cell(b, 4, r) == Some(Piece { color: c, kind: PieceKind::King })
    &&& cell(b, 0, r) == Some(Piece { color: c, kind: PieceKind::Rook })
    &&& empty_at(b, 1, r)
    &&& empty_at(b, 2, r)
    &&& empty_at(b, 3, r)
}

/// `m` is a castle available to `c`: the king's own two-file move from
/// its home square, with the matching side eligible.
pub open spec fn castle_move_ok(b: BoardModel, c: Color, m: Move) -> bool {
    let r = back_rank(c);
    &&& m.from.x == 4 && m.from.y as int == r && m.to.y as int == r
    &&& ((m.to.x == 6 && short_castle_ok(b, c)) || (m.to.x == 2 && long_castle_ok(b, c)))
}

/// `m` obeys the moving piece's own rule: the piece at `from` belongs
/// to `c`, the destination is not `c`-occupied, and the piece's
/// movement rule (or an available castle, for the king) accepts the
/// move. Whether `c`'s king is left in check is not considered here.
pub open spec fn pseudo_legal(b: BoardModel, c: Color, m: Move) -> bool {
    &&& move_wf(m)
    &&& color_at(b, m.to.x as int, m.to.y as int) != Some(c)
    &&& match cell_at(b, m.from) {
        Some(p) => p.color == c && (movement_ok(b, p.kind, c, m) || (p.kind is King
            && castle_move_ok(b, c, m))),
        None => false,
    }
}

/// The piece at (ax, ay) belongs to `ac` and its movement rule reaches
/// the square `t`: raw reachability, with no regard to `ac`'s own king.
pub open spec fn attacks_from(b: BoardModel, ac: Color, ax: int, ay: int, t: Square) -> bool {
    &&& 0 <= ax < 8 && 0 <= ay < 8
    &&& match cell(b, ax, ay) {
        Some(p) => p.color == ac && movement_ok(
            b,
            p.kind,
            ac,
            Move { from: Square { x: ax as usize, y: ay as usize }, to: t },
        ),
        None => false,
    }
}

/// Some piece of color `ac` reaches the square `t`.
pub open spec fn square_attacked(b: BoardModel, ac: Color, t: Square) -> bool {
    exists|ax: int, ay: int| #[trigger] attacks_from(b, ac, ax, ay, t)
}

/// The first square in scan order (rank-major, then file) holding
/// `c`'s king, if any.
pub open spec fn find_king_from(b: BoardModel, c: Color, i: int) -> Option<Square>
    decreases 64 - i,
{
    if i < 0 || i >= 64 {
        None
    } else if b.grid[i] == Some(Piece { color: c, kind: PieceKind::King }) {
        Some(Square { x: (i % 8) as usize, y: (i / 8) as usize })
    } else {
        find_king_from(b, c, i + 1)
    }
}

/// `c`'s king stands on a square some opposing piece's movement rule
/// reaches. Under the one-king-per-color invariant this is the check
/// predicate of the rules of chess; a board with no `c` king is never
/// in check.
pub open spec fn in_check(b: BoardModel, c: Color) -> bool {
    match find_king_from(b, c, 0) {
        Some(k) => square_attacked(b, c.opp(), k),
        None => false,
    }
}

/// `m` is fully legal for `c`: pseudo-legal, and applying it does not
/// leave `c`'s own king in check.
pub open spec fn legal_move(b: BoardModel, c: Color, m: Move) -> bool {
    pseudo_legal(b, c, m) && !in_check(apply_move_spec(b, m), c)
}

/// A move kept by the enumeration: fully legal when `filter_self_check`
/// is asked for, pseudo-legal otherwise.
pub open spec fn kept_move(b: BoardModel, c: Color, m: Move, filter_self_check: bool) -> bool {
    if filter_self_check {
        legal_move(b, c, m)
    } else {
        pseudo_legal(b, c, m)
    }
}

/// Find `c`'s king: the first king of that color in scan order.
pub fn find_king(board: &Board, c: Color) -> (r: Option<Square>)
    requires
        wf(board@),
    ensures
        r == find_king_from(board@, c, 0),
        r matches Some(k) ==> sq_wf(k),
{
    let mut i: usize = 0;
    while i < 64
        invariant
            wf(board@),
            i <= 64,
            find_king_from(board@, c, 0) == find_king_from(board@, c, i as int),
        decreases 64 - i,
    {
        let x = i % 8;
        let y = i / 8;
        proof {
            assert(x < 8 && y < 8 && y * 8 + x == i);
        }
        let hit = match board.piece_at(x, y) {
            Some(p) => p.color == c && p.kind == PieceKind::King,
            None => false,
        };
        if hit {
            proof {
                assert(board@.grid[i as int] == Some(Piece { color: c, kind: PieceKind::King }));
            }
            return Some(Square { x, y });
        }
        proof {
            assert(board@.grid[i as int] != Some(Piece { color: c, kind: PieceKind::King }));
        }
        i = i + 1;
    }
    None
}

/// Some piece of color `ac` reaches the square `t`.
fn square_attacked_exec(board: &Board, ac: Color, t: Square) -> (r: bool)
    requires
        wf(board@),
        sq_wf(t),
    ensures
        r == square_attacked(board@, ac, t),
{
    let mut y: usize = 0;
    while y < 8
        invariant
            wf(board@),
            sq_wf(t),
            y <= 8,
            forall|ax: int, ay: int| 0 <= ay < y ==> !#[trigger] attacks_from(board@, ac, ax, ay, t),
        decreases 8 - y,
    {
        let mut x: usize = 0;
        while x < 8
            invariant
                wf(board@),
                sq_wf(t),
                y < 8,
                x <= 8,
                forall|ax: int, ay: int| 0 <= ay < y ==> !#[trigger] attacks_from(
                    board@,
                    ac,
                    ax,
                    ay,
                    t,
                ),
                forall|ax: int| 0 <= ax < x ==> !#[trigger] attacks_from(
                    board@,
                    ac,
                    ax,
                    y as int,
                    t,
                ),
            decreases 8 - x,
        {
            let reaches = match board.piece_at(x, y) {
                Some(p) => if p.color == ac {
                    let m = Move { from: Square { x, y }, to: t };
                    piece_movement_ok(p, &m, board)
                } else {
                    false
                },
                None => false,
            };
            if reaches {
                proof {
                    assert(attacks_from(board@, ac, x as int, y as int, t));
                }
                return true;
            }
            proof {
                assert(!attacks_from(board@, ac, x as int, y as int, t));
            }
            x = x + 1;
        }
        y = y + 1;
    }
    proof {
        assert forall|ax: int, ay: int| !attacks_from(board@, ac, ax, ay, t) by {
            if 0 <= ay < 8 {
            } else {
            }
        }
    }
    false
}

/// `player`'s king is attacked by some opposing piece's movement rule;
/// raw reachability suffices to constitute check.
pub fn is_in_check(player: Color, board: &Board) -> (r: bool)
    requires
        wf(board@),
    ensures
        r == in_check(board@, player),
{
    match find_king(board, player) {
        Some(k) => square_attacked_exec(board, player.opponent(), k),
        None => false,
    }
}

/// Castling eligibility on the kingside.
fn short_castle_exec(board: &Board, c: Color) -> (r: bool)
    requires
        wf(board@),
    ensures
        r == short_castle_ok(board@, c),
{
    let rank: usize = if c == Color::White { 7 } else { 0 };
    let king_ok = match board.piece_at(4, rank) {
        Some(p) => p.color == c && p.kind == PieceKind::King,
        None => false,
    };
    let rook_ok = match board.piece_at(7, rank) {
        Some(p) => p.color == c && p.kind == PieceKind::Rook,
        None => false,
    };
    let flags_ok = if c == Color::White {
        !board.white_king_moved && !board.white_rook_h_moved
    } else {
        !board.black_king_moved && !board.black_rook_h_moved
    };
    flags_ok && king_ok && rook_ok && board.piece_at(5, rank).is_none() && board.piece_at(
        6,
        rank,
    ).is_none()
}

/// Castling eligibility on the queenside.
fn long_castle_exec(board: &Board, c: Color) -> (r: bool)
    requires
        wf(board@),
    ensures
        r == long_castle_ok(board@, c),
{
    let rank: usize = if c == Color::White { 7 } else { 0 };
    let king_ok = match board.piece_at(4, rank) {
        Some(p) => p.color == c && p.kind == PieceKind::King,
        None => false,
    };
    let rook_ok = match board.piece_at(0, rank) {
        Some(p) => p.color == c && p.kind == PieceKind::Rook,
        None => false,
    };
    let flags_ok = if c == Color::White {
        !board.white_king_moved && !board.white_rook_a_moved
    } else {
        !board.black_king_moved && !board.black_rook_a_moved
    };
    flags_ok && king_ok && rook_ok && board.piece_at(1, rank).is_none() && board.piece_at(
        2,
        rank,
    ).is_none() && board.piece_at(3, rank).is_none()
}

/// `m` has the shape of a castle for `c` and the matching side is
/// eligible.
fn castle_move_exec(board: &Board, c: Color, m: Move) -> (r: bool)
    requires
        wf(board@),
    ensures
        r == castle_move_ok(board@, c, m),
{
    let rank: usize = if c == Color::White { 7 } else { 0 };
    if !(m.from.x == 4 && m.from.y == rank && m.to.y == rank) {
        return false;
    }
    if m.to.x == 6 {
        short_castle_exec(board, c)
    } else if m.to.x == 2 {
        long_castle_exec(board, c)
    } else {
        false
    }
}

/// `m` obeys the moving piece's own rule for `player`, ignoring check.
fn pseudo_legal_exec(player: Color, m: Move, board: &Board) -> (r: bool)
    requires
        wf(board@),
    ensures
        r == pseudo_legal(board@, player, m),
{
    if !(m.from.x < 8 && m.from.y < 8 && m.to.x < 8 && m.to.y < 8) {
        return false;
    }
    if m.from.x == m.to.x && m.from.y == m.to.y {
        return false;
    }
    match board.piece_at(m.to.x, m.to.y) {
        Some(q) => if q.color == player {
            return false;
        },
        None => {},
    }
    match board.piece_at(m.from.x, m.from.y) {
        Some(p) => {
            if p.color != player {
                false
            } else if piece_movement_ok(p, &m, board) {
                true
            } else if p.kind == PieceKind::King {
                castle_move_exec(board, player, m)
            } else {
                false
            }
        },
        None => false,
    }
}

/// `m` is kept for `player`: pseudo-legal, and — when the self-check
/// filter is asked for — leaving `player`'s king safe on a disposable
/// copy of the board.
fn kept_move_exec(player: Color, m: Move, board: &Board, filter_self_check: bool) -> (r: bool)
    requires
        wf(board@),
    ensures
        r == kept_move(board@, player, m, filter_self_check),
{
    if !pseudo_legal_exec(player, m, board) {
        return false;
    }
    if !filter_self_check {
        return true;
    }
    let mut cpy = board.clone_board();
    cpy.apply_move(m);
    let exposed = is_in_check(player, &cpy);
    !exposed
}

/// The scan position of a move's source square.
pub open spec fn src_idx(m: Move) -> int {
    m.from.y * 8 + m.from.x
}

/// The scan position of a move's destination square.
pub open spec fn dst_idx(m: Move) -> int {
    m.to.y * 8 + m.to.x
}

/// `m` has already been considered when the enumeration stands at
/// source position `si` and destination position `di`.
pub open spec fn scanned(m: Move, si: int, di: int) -> bool {
    src_idx(m) < si || (src_idx(m) == si && dst_idx(m) < di)
}

/// Enumerate every move kept for `player`, in board-scan order
/// (rank-major, then file, for source and then destination): exactly
/// the pseudo-legal moves, thinned by the self-check filter when
/// `filter_self_check` is set.
pub fn get_legal_moves_for(player: Color, board: &Board, filter_self_check: bool) -> (r: Vec<Move>)
    requires
        wf(board@),
    ensures
        forall|m: Move| #[trigger] r@.contains(m) == kept_move(board@, player, m, filter_self_check),
        r@.no_duplicates(),
        forall|i: int, j: int| #![trigger r@[i], r@[j]]
            0 <= i < j < r@.len() ==> scanned(r@[i], src_idx(r@[j]), dst_idx(r@[j])),
{
    let mut r: Vec<Move> = Vec::new();
    let mut fy: usize = 0;
    while fy < 8
        invariant
            wf(board@),
            fy <= 8,
            forall|m: Move| #[trigger] r@.contains(m) ==> kept_move(board@, player, m, filter_self_check)
                && scanned(m, fy * 8, 0),
            forall|m: Move| kept_move(board@, player, m, filter_self_check) && scanned(m, fy * 8, 0)
                ==> r@.contains(m),
            r@.no_duplicates(),
            forall|i: int, j: int| #![trigger r@[i], r@[j]] 0 <= i < j < r@.len() ==> scanned(r@[i], src_idx(r@[j]), dst_idx(r@[j])),
        decreases 8 - fy,
    {
        let mut fx: usize = 0;
        while fx < 8
            invariant
                wf(board@),
                fy < 8,
                fx <= 8,
                forall|m: Move| #[trigger] r@.contains(m) ==> kept_move(board@, player, m, filter_self_check)
                    && scanned(m, fy * 8 + fx, 0),
                forall|m: Move| kept_move(board@, player, m, filter_self_check) && scanned(m, fy * 8 + fx, 0)
                    ==> r@.contains(m),
                r@.no_duplicates(),
                forall|i: int, j: int| #![trigger r@[i], r@[j]] 0 <= i < j < r@.len() ==> scanned(r@[i], src_idx(r@[j]), dst_idx(r@[j])),
            decreases 8 - fx,
        {
            let mut ty: usize = 0;
            while ty < 8
                invariant
                    wf(board@),
                    fy < 8,
                    fx < 8,
                    ty <= 8,
                    forall|m: Move| #[trigger] r@.contains(m) ==> kept_move(board@, player, m, filter_self_check)
                        && scanned(m, fy * 8 + fx, ty * 8),
                    forall|m: Move| kept_move(board@, player, m, filter_self_check)
                        && scanned(m, fy * 8 + fx, ty * 8) ==> r@.contains(m),
                    r@.no_duplicates(),
                    forall|i: int, j: int| #![trigger r@[i], r@[j]] 0 <= i < j < r@.len() ==> scanned(r@[i], src_idx(r@[j]), dst_idx(r@[j])),
                decreases 8 - ty,
            {
                let mut tx: usize = 0;
                while tx < 8
                    invariant
                        wf(board@),
                        fy < 8,
                        fx < 8,
                        ty < 8,
                        tx <= 8,
                        forall|m: Move| #[trigger] r@.contains(m) ==> kept_move(board@, player, m, filter_self_check)
                            && scanned(m, fy * 8 + fx, ty * 8 + tx),
                        forall|m: Move| kept_move(board@, player, m, filter_self_check)
                            && scanned(m, fy * 8 + fx, ty * 8 + tx) ==> r@.contains(m),
                        r@.no_duplicates(),
                        forall|i: int, j: int| #![trigger r@[i], r@[j]] 0 <= i < j < r@.len() ==> scanned(r@[i], src_idx(r@[j]), dst_idx(r@[j])),
                    decreases 8 - tx,
                {
                    let m = Move {
                        from: Square { x: fx, y: fy },
                        to: Square { x: tx, y: ty },
                    };
                    let keep = kept_move_exec(player, m, board, filter_self_check);
                    if keep {
                        proof {
                            assert(src_idx(m) == fy * 8 + fx && dst_idx(m) == ty * 8 + tx);
                            assert(!r@.contains(m));
                        }
                        let ghost prev = r@;
                        r.push(m);
                        proof {
                            assert(r@ == prev.push(m));
                            assert(r@[prev.len() as int] == m);
                            assert(r@.contains(m));
                            assert forall|m2: Move| #[trigger] r@.contains(m2) implies
                                kept_move(board@, player, m2, filter_self_check)
                                    && scanned(m2, fy * 8 + fx, ty * 8 + tx + 1) by {
                                let i = choose|i: int| 0 <= i < r@.len() && r@[i] == m2;
                                if i < prev.len() {
                                    assert(prev[i] == m2);
                                    assert(prev.contains(m2));
                                } else {
                                    assert(m2 == m);
                                }
                            }
                            assert forall|m2: Move|
                                kept_move(board@, player, m2, filter_self_check)
                                    && scanned(m2, fy * 8 + fx, ty * 8 + tx + 1) implies #[trigger] r@.contains(m2) by {
                                if m2 == m {
                                } else {
                                    assert(scanned(m2, fy * 8 + fx, ty * 8 + tx));
                                    assert(prev.contains(m2));
                                    let i = choose|i: int| 0 <= i < prev.len() && prev[i] == m2;
                                    assert(r@[i] == m2);
                                }
                            }
                            assert forall|i: int, j: int| 0 <= i < j < r@.len() implies r@[i] != r@[j] by {
                                if j < prev.len() {
                                    assert(prev[i] == r@[i] && prev[j] == r@[j]);
                                } else {
                                    assert(r@[j] == m);
                                    assert(prev[i] == r@[i]);
                                    assert(prev.contains(r@[i]));
                                }
                            }
                            assert(r@.no_duplicates());
                            assert forall|i: int, j: int| #![trigger r@[i], r@[j]]
                                0 <= i < j < r@.len() implies scanned(
                                r@[i],
                                src_idx(r@[j]),
                                dst_idx(r@[j]),
                            ) by {
                                if j == prev.len() {
                                    assert(r@[j] == m);
                                    assert(prev[i] == r@[i]);
                                    assert(prev.contains(r@[i]));
                                } else {
                                    assert(prev[i] == r@[i] && prev[j] == r@[j]);
                                }
                            }
                        }
                    }
                    tx = tx + 1;
                }
                ty = ty + 1;
            }
            fx = fx + 1;
        }
        fy = fy + 1;
    }
    proof {
        assert forall|m: Move| kept_move(board@, player, m, filter_self_check) implies r@.contains(
            m,
        ) by {
            assert(move_wf(m));
            assert(scanned(m, 64, 0));
        }
    }
    r
}

/// `mv` is a member of the legal-move list for `player`.
pub fn is_legal_move(player: Color, mv: Move, board: &Board) -> (r: bool)
    requires
        wf(board@),
    ensures
        r == legal_move(board@, player, mv),
{
    kept_move_exec(player, mv, board, true)
}

/// The square `bx` holds a piece of `player`'s color.
pub fn is_owned_by(player: Color, bx: Square, board: &Board) -> (r: bool)
    requires
        wf(board@),
        sq_wf(bx),
    ensures
        r == (color_at(board@, bx.x as int, bx.y as int) == Some(player)),
{
    match board.piece_at(bx.x, bx.y) {
        Some(p) => p.color == player,
        None => false,
    }
}

/// How the game stands for the side to move.
#[derive(Copy, Clone, PartialEq, Eq, Structural, Debug)]
pub enum GameStatus {
    /// The side to move has at least one legal move.
    Ongoing,
    /// No legal move and the king in check: the side to move has lost.
    Checkmate,
    /// No legal move and no check: a draw.
    Stalemate,
}

/// Classify the position for `player`: the game has ended exactly when
/// `player` has no legal move, as checkmate when their king is in
/// check and as stalemate otherwise.
pub fn game_status(player: Color, board: &Board) -> (r: GameStatus)
    requires
        wf(board@),
    ensures
        (r is Ongoing) == exists|m: Move| legal_move(board@, player, m),
        (r is Checkmate) == (!(exists|m: Move| legal_move(board@, player, m)) && in_check(
            board@,
            player,
        )),
        (r is Stalemate) == (!(exists|m: Move| legal_move(board@, player, m)) && !in_check(
            board@,
            player,
        )),
{
    let moves = get_legal_moves_for(player, board, true);
    if moves.len() > 0 {
        proof {
            assert(moves@.contains(moves@[0]));
        }
        GameStatus::Ongoing
    } else {
        proof {
            assert forall|m: Move| !legal_move(board@, player, m) by {
                if legal_move(board@, player, m) {
                    assert(moves@.contains(m));
                }
            }
        }
        if is_in_check(player, board) {
            GameStatus::Checkmate
        } else {
            GameStatus::Stalemate
        }
    }
}

/// The occupant of `m.from` may proceed to `m.to`: the destination does
/// not hold the mover's own color and the piece's movement rule accepts
/// the move. Castling and the self-check filter are not consulted here.
pub open spec fn proceed_ok(b: BoardModel, m: Move) -> bool {
    match cell_at(b, m.from) {
        Some(p) => color_at(b, m.to.x as int, m.to.y as int) != Some(p.color) && movement_ok(
            b,
            p.kind,
            p.color,
            m,
        ),
        None => false,
    }
}

/// Validate a move by the movement rules alone, from an occupied
/// source square.
pub fn try_proceed(m: &Move, board: &Board) -> (r: bool)
    requires
        wf(board@),
        sq_wf(m.from),
        sq_wf(m.to),
        cell_at(board@, m.from) is Some,
    ensures
        r == proceed_ok(board@, *m),
{
    let p = board.piece_at(m.from.x, m.from.y).unwrap();
    let dst_same = match board.piece_at(m.to.x, m.to.y) {
        Some(q) => q.color == p.color,
        None => false,
    };
    if dst_same {
        return false;
    }
    piece_movement_ok(p, m, board)
}

} // verus!
