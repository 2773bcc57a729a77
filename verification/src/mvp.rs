//! Per-piece movement rules: one pure predicate per piece kind, each
//! deciding whether the piece may reach the destination square ignoring
//! whose turn it is and ignoring check. Same-color destinations and
//! self-check are rejected centrally by the legality engine, not here.

use vstd::prelude::*;
use crate::board::{Board, BoardModel, Color, Move, Piece, PieceKind, color_at, empty_at, sq_wf, wf};

verus! {

/// Absolute value.
pub open spec fn abs(v: int) -> int {
    if v < 0 {
        -v
    } else {
        v
    }
}

/// `w` lies strictly between `u` and `v`.
pub open spec fn between(u: int, v: int, w: int) -> bool {
    (u < w && w < v) || (v < w && w < u)
}

/// The forward direction of `c`'s pawns: White pawns move toward rank
/// index 0, Black pawns toward rank index 7.
pub open spec fn pawn_dir(c: Color) -> int {
    if c is White {
        -1
    } else {
        1
    }
}

/// The rank index a pawn of color `c` starts on.
pub open spec fn pawn_start_rank(c: Color) -> int {
    if c is White {
        6
    } else {
        1
    }
}

/// A pawn move: one square forward into an empty square, two squares
/// forward from the starting rank with both squares empty, or one
/// square diagonally forward onto an opposing piece.
pub open spec fn pawn_move_ok(b: BoardModel, c: Color, m: Move) -> bool {
    let fx = m.from.x as int;
    let fy = m.from.y as int;
    let tx = m.to.x as int;
    let ty = m.to.y as int;
    let d = pawn_dir(c);
    ||| (tx == fx && ty == fy + d && empty_at(b, tx, ty))
    ||| (tx == fx && fy == pawn_start_rank(c) && ty == fy + 2 * d && empty_at(b, fx, fy + d)
        && empty_at(b, tx, ty))
    ||| (abs(tx - fx) == 1 && ty == fy + d && color_at(b, tx, ty) == Some(c.opp()))
}

/// A rook move: same file or same rank, every square strictly between
/// the endpoints empty.
pub open spec fn rook_move_ok(b: BoardModel, m: Move) -> bool {
    let fx = m.from.x as int;
    let fy = m.from.y as int;
    let tx = m.to.x as int;
    let ty = m.to.y as int;
    ||| (fx == tx && fy != ty && forall|y: int| between(fy, ty, y) ==> empty_at(b, fx, y))
    ||| (fy == ty && fx != tx && forall|x: int| between(fx, tx, x) ==> empty_at(b, x, fy))
}

/// A knight move: one of the eight (1,2)/(2,1) offsets; knights jump,
/// so obstruction is irrelevant.
pub open spec fn knight_move_ok(m: Move) -> bool {
    let fx = m.from.x as int;
    let fy = m.from.y as int;
    let tx = m.to.x as int;
    let ty = m.to.y as int;
    ||| (abs(tx - fx) == 1 && abs(ty - fy) == 2)
    ||| (abs(tx - fx) == 2 && abs(ty - fy) == 1)
}

/// A bishop move: equal absolute file and rank delta, every square
/// strictly between the endpoints on the diagonal empty.
pub open spec fn bishop_move_ok(b: BoardModel, m: Move) -> bool {
    let fx = m.from.x as int;
    let fy = m.from.y as int;
    let tx = m.to.x as int;
    let ty = m.to.y as int;
    &&& abs(tx - fx) == abs(ty - fy)
    &&& tx != fx
    &&& forall|x: int, y: int|
        between(fx, tx, x) && between(fy, ty, y) && abs(x - fx) == abs(y - fy)
            ==> #[trigger] empty_at(b, x, y)
}

/// A queen move: legal as a rook move or as a bishop move.
pub open spec fn queen_move_ok(b: BoardModel, m: Move) -> bool {
    rook_move_ok(b, m) || bishop_move_ok(b, m)
}

/// A king move: one step to any of the eight adjacent squares. The
/// castling special case is handled by the legality engine, not here.
pub open spec fn king_move_ok(m: Move) -> bool {
    let fx = m.from.x as int;
    let fy = m.from.y as int;
    let tx = m.to.x as int;
    let ty = m.to.y as int;
    abs(tx - fx) <= 1 && abs(ty - fy) <= 1 && !(tx == fx && ty == fy)
}

/// The movement rule of a piece of kind `k` and color `c`.
pub open spec fn movement_ok(b: BoardModel, k: PieceKind, c: Color, m: Move) -> bool {
    match k {
        PieceKind::Pawn => pawn_move_ok(b, c, m),
        PieceKind::Rook => rook_move_ok(b, m),
        PieceKind::Knight => knight_move_ok(m),
        PieceKind::Bishop => bishop_move_ok(b, m),
        PieceKind::Queen => queen_move_ok(b, m),
        PieceKind::King => king_move_ok(m),
    }
}

/// Decide a pawn move of color `player`.
pub fn move_pawn(player: Color, m: &Move, b: &Board) -> (r: bool)
    requires
        wf(b@),
        sq_wf(m.from),
        sq_wf(m.to),
    ensures
        r == pawn_move_ok(b@, player, *m),
{
    let fx = m.from.x;
    let fy = m.from.y;
    let tx = m.to.x;
    let ty = m.to.y;
    let diag = (tx == fx + 1 || tx + 1 == fx);
    match player {
        Color::White => {
            let fwd1 = tx == fx && ty + 1 == fy && b.piece_at(tx, ty).is_none();
            let fwd2 = tx == fx && fy == 6 && ty + 2 == fy && b.piece_at(fx, 5).is_none()
                && b.piece_at(tx, ty).is_none();
            let cap = diag && ty + 1 == fy && (match b.piece_at(tx, ty) {
                Some(p) => p.color == Color::Black,
                None => false,
            });
            fwd1 || fwd2 || cap
        },
        Color::Black => {
            let fwd1 = tx == fx && ty == fy + 1 && b.piece_at(tx, ty).is_none();
            let fwd2 = tx == fx && fy == 1 && ty == fy + 2 && b.piece_at(fx, 2).is_none()
                && b.piece_at(tx, ty).is_none();
            let cap = diag && ty == fy + 1 && (match b.piece_at(tx, ty) {
                Some(p) => p.color == Color::White,
                None => false,
            });
            fwd1 || fwd2 || cap
        },
    }
}

/// Decide a rook move.
pub fn move_rock(m: &Move, b: &Board) -> (r: bool)
    requires
        wf(b@),
        sq_wf(m.from),
        sq_wf(m.to),
    ensures
        r == rook_move_ok(b@, *m),
{
    let fx = m.from.x;
    let fy = m.from.y;
    let tx = m.to.x;
    let ty = m.to.y;
    if fx == tx && fy != ty {
        let lo = if fy < ty { fy + 1 } else { ty + 1 };
        let hi = if fy < ty { ty } else { fy };
        let mut y = lo;
        let mut clear = true;
        while y < hi
            invariant
                wf(b@),
                fx < 8,
                hi < 8,
                lo <= y <= hi,
                clear == (forall|j: int| lo <= j < y ==> empty_at(b@, fx as int, j)),
            decreases hi - y,
        {
            let e = b.piece_at(fx, y).is_none();
            proof {
                assert(e == empty_at(b@, fx as int, y as int));
            }
            clear = clear && e;
            y = y + 1;
        }
        proof {
            assert forall|j: int| between(fy as int, ty as int, j) implies (lo <= j < hi) by {}
            assert forall|j: int| lo <= j < hi implies between(fy as int, ty as int, j) by {}
        }
        clear
    } else if fy == ty && fx != tx {
        let lo = if fx < tx { fx + 1 } else { tx + 1 };
        let hi = if fx < tx { tx } else { fx };
        let mut x = lo;
        let mut clear = true;
        while x < hi
            invariant
                wf(b@),
                fy < 8,
                hi < 8,
                lo <= x <= hi,
                clear == (forall|j: int| lo <= j < x ==> empty_at(b@, j, fy as int)),
            decreases hi - x,
        {
            let e = b.piece_at(x, fy).is_none();
            proof {
                assert(e == empty_at(b@, x as int, fy as int));
            }
            clear = clear && e;
            x = x + 1;
        }
        proof {
            assert forall|j: int| between(fx as int, tx as int, j) implies (lo <= j < hi) by {}
            assert forall|j: int| lo <= j < hi implies between(fx as int, tx as int, j) by {}
        }
        clear
    } else {
        false
    }
}

/// Decide a knight move.
pub fn move_knight(m: &Move) -> (r: bool)
    requires
        sq_wf(m.from),
        sq_wf(m.to),
    ensures
        r == knight_move_ok(*m),
{
    let fx = m.from.x;
    let fy = m.from.y;
    let tx = m.to.x;
    let ty = m.to.y;
    let adx = if fx < tx { tx - fx } else { fx - tx };
    let ady = if fy < ty { ty - fy } else { fy - ty };
    (adx == 1 && ady == 2) || (adx == 2 && ady == 1)
}

/// Decide a bishop move.
pub fn move_bishop(m: &Move, b: &Board) -> (r: bool)
    requires
        wf(b@),
        sq_wf(m.from),
        sq_wf(m.to),
    ensures
        r == bishop_move_ok(b@, *m),
{
    let fx = m.from.x;
    let fy = m.from.y;
    let tx = m.to.x;
    let ty = m.to.y;
    let adx = if fx < tx { tx - fx } else { fx - tx };
    let ady = if fy < ty { ty - fy } else { fy - ty };
    if adx != ady || adx == 0 {
        return false;
    }
    let mut k: usize = 1;
    let mut clear = true;
    while k < adx
        invariant
            wf(b@),
            fx < 8,
            fy < 8,
            tx < 8,
            ty < 8,
            adx == abs(tx as int - fx as int),
            adx == abs(ty as int - fy as int),
            adx != 0,
            1 <= k <= adx,
            clear == (forall|x: int, y: int|
                between(fx as int, tx as int, x) && between(fy as int, ty as int, y)
                    && abs(x - fx as int) == abs(y - fy as int) && abs(x - fx as int) < k
                    ==> #[trigger] empty_at(b@, x, y)),
        decreases adx - k,
    {
        let cx = if tx > fx { fx + k } else { fx - k };
        let cy = if ty > fy { fy + k } else { fy - k };
        proof {
            assert(cx < 8 && cy < 8);
        }
        let here_empty = b.piece_at(cx, cy).is_none();
        proof {
            assert(here_empty == empty_at(b@, cx as int, cy as int));
            assert(between(fx as int, tx as int, cx as int));
            assert(between(fy as int, ty as int, cy as int));
            assert(abs(cx as int - fx as int) == k);
            assert(abs(cy as int - fy as int) == k);
            assert forall|x: int, y: int|
                between(fx as int, tx as int, x) && between(fy as int, ty as int, y)
                    && abs(x - fx as int) == abs(y - fy as int) && abs(x - fx as int) == k
                    implies x == cx as int && y == cy as int by {}
        }
        clear = clear && here_empty;
        k = k + 1;
    }
    proof {
        assert forall|x: int, y: int|
            between(fx as int, tx as int, x) && between(fy as int, ty as int, y)
                && abs(x - fx as int) == abs(y - fy as int)
                implies abs(x - fx as int) < k by {}
    }
    clear
}

/// Decide a queen move.
pub fn move_queen(m: &Move, b: &Board) -> (r: bool)
    requires
        wf(b@),
        sq_wf(m.from),
        sq_wf(m.to),
    ensures
        r == queen_move_ok(b@, *m),
{
    let as_rook = move_rock(m, b);
    let as_bishop = move_bishop(m, b);
    as_rook || as_bishop
}

/// Decide a king step (castling excluded; the legality engine adds it).
pub fn move_king(m: &Move) -> (r: bool)
    requires
        sq_wf(m.from),
        sq_wf(m.to),
    ensures
        r == king_move_ok(*m),
{
    let fx = m.from.x;
    let fy = m.from.y;
    let tx = m.to.x;
    let ty = m.to.y;
    let adx = if fx < tx { tx - fx } else { fx - tx };
    let ady = if fy < ty { ty - fy } else { fy - ty };
    adx <= 1 && ady <= 1 && !(fx == tx && fy == ty)
}

/// Decide the movement rule of the given piece for this move.
pub fn piece_movement_ok(p: Piece, m: &Move, b: &Board) -> (r: bool)
    requires
        wf(b@),
        sq_wf(m.from),
        sq_wf(m.to),
    ensures
        r == movement_ok(b@, p.kind, p.color, *m),
{
    match p.kind {
        PieceKind::Pawn => move_pawn(p.color, m, b),
        PieceKind::Rook => move_rock(m, b),
        PieceKind::Knight => move_knight(m),
        PieceKind::Bishop => move_bishop(m, b),
        PieceKind::Queen => move_queen(m, b),
        PieceKind::King => move_king(m),
    }
}

} // verus!
