//! General laws of the engine, stated over the board model and proved
//! from the definitions that the executable functions are verified
//! against.

use vstd::prelude::*;
use crate::board::{
    BoardModel, Color, Move, Piece, PieceKind, Square, apply_move_spec, back_rank, cell, cell_at,
    color_at, wf,
};
use crate::mvg::{in_check, legal_move};
use crate::ai_minmax::{child_value, negamax_spec};
use crate::pieces_table::{eval_spec, lemma_eval_upto_antisymmetric};
use vstd::set_lib::lemma_len_subset;

verus! {

/// No legal move ever lands on a square occupied by the mover's own
/// color: the legality engine rejects such destinations outright.
pub proof fn lemma_no_same_color_destination(b: BoardModel, c: Color)
    ensures
        forall|m: Move| #[trigger] legal_move(b, c, m) ==> color_at(b, m.to.x as int, m.to.y as int)
            != Some(c),
{
}

/// No legal move leaves the mover's own king in check on the resulting
/// board: the self-check filter is part of legality itself.
pub proof fn lemma_legal_moves_keep_king_safe(b: BoardModel, c: Color)
    ensures
        forall|m: Move| #[trigger] legal_move(b, c, m) ==> !in_check(apply_move_spec(b, m), c),
{
}

/// A king alone on an otherwise empty board has at most 8 legal
/// destinations: any duplicate-free list of legal moves for its owner
/// has at most 8 entries.
pub proof fn lemma_lone_king_bound(b: BoardModel, c: Color, kx: int, ky: int, s: Seq<Move>)
    requires
        wf(b),
        0 <= kx < 8,
        0 <= ky < 8,
        cell(b, kx, ky) == Some(Piece { color: c, kind: PieceKind::King }),
        forall|x: int, y: int|
            0 <= x < 8 && 0 <= y < 8 && !(x == kx && y == ky) ==> #[trigger] cell(b, x, y) is None,
        s.no_duplicates(),
        forall|m: Move| #[trigger] s.contains(m) ==> legal_move(b, c, m),
    ensures
        s.len() <= 8,
{
    let king = Square { x: kx as usize, y: ky as usize };
    let n = Set::<Move>::empty().insert(
        Move { from: king, to: Square { x: (kx - 1) as usize, y: (ky - 1) as usize } },
    ).insert(Move { from: king, to: Square { x: kx as usize, y: (ky - 1) as usize } }).insert(
        Move { from: king, to: Square { x: (kx + 1) as usize, y: (ky - 1) as usize } },
    ).insert(Move { from: king, to: Square { x: (kx - 1) as usize, y: ky as usize } }).insert(
        Move { from: king, to: Square { x: (kx + 1) as usize, y: ky as usize } },
    ).insert(Move { from: king, to: Square { x: (kx - 1) as usize, y: (ky + 1) as usize } }).insert(
        Move { from: king, to: Square { x: kx as usize, y: (ky + 1) as usize } },
    ).insert(Move { from: king, to: Square { x: (kx + 1) as usize, y: (ky + 1) as usize } });
    assert forall|m: Move| s.to_set().contains(m) implies n.contains(m) by {
        assert(s.contains(m));
        assert(legal_move(b, c, m));
        let fx = m.from.x as int;
        let fy = m.from.y as int;
        let tx = m.to.x as int;
        let ty = m.to.y as int;
        assert(cell_at(b, m.from) is Some);
        assert(fx == kx && fy == ky);
        // The only piece is the king, so no rook stands ready to castle.
        assert(cell(b, 0, back_rank(c)) != Some(Piece { color: c, kind: PieceKind::Rook }));
        assert(cell(b, 7, back_rank(c)) != Some(Piece { color: c, kind: PieceKind::Rook }));
        // A king step reaches one of the eight neighbors.
        assert(tx - kx == -1 || tx - kx == 0 || tx - kx == 1);
        assert(ty - ky == -1 || ty - ky == 0 || ty - ky == 1);
        assert(m.from == king);
        if ty == ky - 1 {
            if tx == kx - 1 {
                assert(m.to == Square { x: (kx - 1) as usize, y: (ky - 1) as usize });
            } else if tx == kx {
                assert(m.to == Square { x: kx as usize, y: (ky - 1) as usize });
            } else {
                assert(m.to == Square { x: (kx + 1) as usize, y: (ky - 1) as usize });
            }
        } else if ty == ky {
            if tx == kx - 1 {
                assert(m.to == Square { x: (kx - 1) as usize, y: ky as usize });
            } else {
                assert(m.to == Square { x: (kx + 1) as usize, y: ky as usize });
            }
        } else {
            if tx == kx - 1 {
                assert(m.to == Square { x: (kx - 1) as usize, y: (ky + 1) as usize });
            } else if tx == kx {
                assert(m.to == Square { x: kx as usize, y: (ky + 1) as usize });
            } else {
                assert(m.to == Square { x: (kx + 1) as usize, y: (ky + 1) as usize });
            }
        }
    }
    s.unique_seq_to_set();
    lemma_len_subset(s.to_set(), n);
    assert(n.len() <= 8);
}

/// The static evaluation is antisymmetric in the perspective: one
/// side's advantage is exactly the other side's deficit.
pub proof fn lemma_eval_antisymmetric(b: BoardModel, player: Color)
    ensures
        eval_spec(b, player) == -eval_spec(b, player.opp()),
{
    lemma_eval_upto_antisymmetric(b, player, 64);
}

/// With no lookahead the search degenerates to the static ranking of
/// the immediate moves: the value a move earns at depth 0 is exactly
/// the static evaluation, for the mover, of the board after the move.
pub proof fn lemma_depth_zero_is_static_ranking(b: BoardModel, c: Color, m: Move)
    ensures
        child_value(b, c, m, 0) == eval_spec(apply_move_spec(b, m), c),
{
    let after = apply_move_spec(b, m);
    assert(negamax_spec(after, c.opp(), 0) == eval_spec(after, c.opp()));
    lemma_eval_antisymmetric(after, c.opp());
    assert(c.opp().opp() == c);
}

} // verus!
