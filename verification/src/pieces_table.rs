//! The static evaluation model: material values and per-kind positional
//! bonus tables. The tables reward central squares, with a weight per
//! piece kind; their exact numbers are a tuning detail, not a
//! correctness constraint.

use vstd::prelude::*;
use crate::board::{BoardModel, Color, Piece, PieceKind};

verus! {

/// The material value of a piece kind. Kings carry no material value:
/// no legal move ever captures a king, so the two always cancel.
pub open spec fn piece_value(k: PieceKind) -> int {
    match k {
        PieceKind::Pawn => 100,
        PieceKind::Knight => 320,
        PieceKind::Bishop => 330,
        PieceKind::Rook => 500,
        PieceKind::Queen => 900,
        PieceKind::King => 0,
    }
}

/// How close a coordinate is to the center files or ranks: 0 at the
/// edge up to 3 in the middle.
pub open spec fn center_pull(v: int) -> int {
    if v < 4 {
        v
    } else {
        7 - v
    }
}

/// The positional weight of a piece kind: knights and bishops gain the
/// most from central squares, the king's table is omitted.
pub open spec fn kind_weight(k: PieceKind) -> int {
    match k {
        PieceKind::Pawn => 2,
        PieceKind::Knight => 6,
        PieceKind::Bishop => 5,
        PieceKind::Rook => 1,
        PieceKind::Queen => 3,
        PieceKind::King => 0,
    }
}

/// The positional bonus of a piece of kind `k` standing on (x, y).
pub open spec fn position_bonus(k: PieceKind, x: int, y: int) -> int {
    kind_weight(k) * (center_pull(x) + center_pull(y))
}

/// The contribution of one cell to the score from `player`'s
/// perspective: material plus positional bonus, positive for `player`'s
/// pieces and negative for the opponent's.
pub open spec fn cell_score(c: Option<Piece>, player: Color, x: int, y: int) -> int {
    match c {
        Some(p) => {
            let s = piece_value(p.kind) + position_bonus(p.kind, x, y);
            if p.color == player {
                s
            } else {
                -s
            }
        },
        None => 0,
    }
}

/// The score of the first `n` cells in scan order.
pub open spec fn eval_upto(b: BoardModel, player: Color, n: int) -> int
    decreases n,
{
    if n <= 0 {
        0
    } else {
        eval_upto(b, player, n - 1) + cell_score(b.grid[n - 1], player, (n - 1) % 8, (n - 1) / 8)
    }
}

/// The full static evaluation of a board from `player`'s perspective.
pub open spec fn eval_spec(b: BoardModel, player: Color) -> int {
    eval_upto(b, player, 64)
}

/// The positional bonus lies in [0, 36] on the board.
pub proof fn lemma_position_bonus_bounds(k: PieceKind, x: int, y: int)
    requires
        0 <= x < 8,
        0 <= y < 8,
    ensures
        0 <= position_bonus(k, x, y) <= 36,
{
    let w = kind_weight(k);
    let s = center_pull(x) + center_pull(y);
    assert(0 <= w <= 6);
    assert(0 <= s <= 6);
    assert(0 <= w * s <= 36) by (nonlinear_arith)
        requires
            0 <= w <= 6,
            0 <= s <= 6,
    ;
}

/// Each cell contributes at most 1000 in magnitude.
pub proof fn lemma_cell_score_bounds(c: Option<Piece>, player: Color, x: int, y: int)
    requires
        0 <= x < 8,
        0 <= y < 8,
    ensures
        -1000 <= cell_score(c, player, x, y) <= 1000,
{
    match c {
        Some(p) => {
            lemma_position_bonus_bounds(p.kind, x, y);
        },
        None => {},
    }
}

/// A prefix of `n` cells scores at most 1000 per cell in magnitude.
pub proof fn lemma_eval_upto_bounds(b: BoardModel, player: Color, n: int)
    requires
        0 <= n <= 64,
    ensures
        -1000 * n <= eval_upto(b, player, n) <= 1000 * n,
    decreases n,
{
    if n > 0 {
        lemma_eval_upto_bounds(b, player, n - 1);
        lemma_cell_score_bounds(b.grid[n - 1], player, (n - 1) % 8, (n - 1) / 8);
    }
}

/// A cell scores for one side exactly what it costs the other.
pub proof fn lemma_cell_score_antisymmetric(c: Option<Piece>, player: Color, x: int, y: int)
    ensures
        cell_score(c, player, x, y) == -cell_score(c, player.opp(), x, y),
{
}

/// The whole evaluation is antisymmetric in the perspective: one
/// side's advantage is exactly the other side's deficit.
pub proof fn lemma_eval_upto_antisymmetric(b: BoardModel, player: Color, n: int)
    ensures
        eval_upto(b, player, n) == -eval_upto(b, player.opp(), n),
    decreases n,
{
    if n > 0 {
        lemma_eval_upto_antisymmetric(b, player, n - 1);
        lemma_cell_score_antisymmetric(b.grid[n - 1], player, (n - 1) % 8, (n - 1) / 8);
    }
}

/// The exec material value of a piece kind.
pub fn piece_value_exec(k: PieceKind) -> (r: i32)
    ensures
        r as int == piece_value(k),
{
    match k {
        PieceKind::Pawn => 100,
        PieceKind::Knight => 320,
        PieceKind::Bishop => 330,
        PieceKind::Rook => 500,
        PieceKind::Queen => 900,
        PieceKind::King => 0,
    }
}

/// The exec positional bonus of kind `k` on (x, y).
pub fn position_bonus_exec(k: PieceKind, x: usize, y: usize) -> (r: i32)
    requires
        x < 8,
        y < 8,
    ensures
        r as int == position_bonus(k, x as int, y as int),
        0 <= r <= 36,
{
    let w: i32 = match k {
        PieceKind::Pawn => 2,
        PieceKind::Knight => 6,
        PieceKind::Bishop => 5,
        PieceKind::Rook => 1,
        PieceKind::Queen => 3,
        PieceKind::King => 0,
    };
    let cx: i32 = if x < 4 {
        x as i32
    } else {
        7 - (x as i32)
    };
    let cy: i32 = if y < 4 {
        y as i32
    } else {
        7 - (y as i32)
    };
    proof {
        assert(0 <= w * (cx + cy) <= 36) by (nonlinear_arith)
            requires
                0 <= w <= 6,
                0 <= cx + cy <= 6,
        ;
    }
    w * (cx + cy)
}

/// The exec score contribution of one cell.
pub fn cell_score_exec(c: Option<Piece>, player: Color, x: usize, y: usize) -> (r: i32)
    requires
        x < 8,
        y < 8,
    ensures
        r as int == cell_score(c, player, x as int, y as int),
        -1000 <= r <= 1000,
{
    match c {
        Some(p) => {
            let s = piece_value_exec(p.kind) + position_bonus_exec(p.kind, x, y);
            if p.color == player {
                s
            } else {
                -s
            }
        },
        None => 0,
    }
}

} // verus!
