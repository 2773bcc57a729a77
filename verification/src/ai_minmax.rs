//! The fixed-depth adversarial search: a negamax over the legal-move
//! tree, scoring leaves with the static evaluator and choosing among
//! equally-best root moves uniformly at random.
//!
//! The search value is modelled by the spec functions `negamax_spec`
//! and `root_best`: at depth 0 the value of a position is its static
//! evaluation for the side to move; otherwise it is the maximum over
//! all legal moves of the negated value of the resulting position for
//! the opponent, one ply shallower, and `EVAL_MIN` when no legal move
//! exists.

use vstd::prelude::*;
use vstd::arithmetic::div_mod::lemma_fundamental_div_mod_converse;
use crate::board::{Board, BoardModel, Color, Move, Square, apply_move_spec, move_wf, wf};
use crate::mvg::{dst_idx, get_legal_moves_for, kept_move, legal_move, src_idx};
use crate::pieces_table::{cell_score_exec, eval_spec, eval_upto, lemma_eval_upto_bounds};

verus! {

/// The number of plies the computer player looks ahead.
pub const DEPTH: u8 = 3;

/// The value no position can exceed.
pub const EVAL_MAX: i32 = 100_000_000;

/// The value of a position with no legal moves, below every reachable
/// evaluation.
pub const EVAL_MIN: i32 = -100_000_000;

/// The scan position of a whole move: source square first, then
/// destination square.
pub open spec fn flat_idx(m: Move) -> int {
    src_idx(m) * 64 + dst_idx(m)
}

/// The move at scan position `i`.
pub open spec fn move_of(i: int) -> Move {
    Move {
        from: Square { x: (((i / 64) % 8)) as usize, y: ((i / 64) / 8) as usize },
        to: Square { x: ((i % 64) % 8) as usize, y: ((i % 64) / 8) as usize },
    }
}

/// The search value of a position for the side to move.
pub open spec fn negamax_spec(b: BoardModel, c: Color, depth: nat) -> int
    decreases depth, 4097int,
{
    if depth == 0 {
        eval_spec(b, c)
    } else {
        root_best(b, c, (depth - 1) as nat, 0)
    }
}

/// The maximum, over the legal moves at scan position `i` or later, of
/// the negated value of the resulting position for the opponent at
/// depth `cd`; `EVAL_MIN` when there is none.
pub open spec fn root_best(b: BoardModel, c: Color, cd: nat, i: int) -> int
    decreases cd + 1, 4096 - i,
{
    if i < 0 || i >= 4096 {
        EVAL_MIN as int
    } else {
        let rest = root_best(b, c, cd, i + 1);
        if legal_move(b, c, move_of(i)) {
            let v = -negamax_spec(apply_move_spec(b, move_of(i)), c.opp(), cd);
            if v > rest {
                v
            } else {
                rest
            }
        } else {
            rest
        }
    }
}

/// The value a move earns its mover: the negated search value of the
/// resulting position for the opponent, `cd` plies deep.
pub open spec fn child_value(b: BoardModel, c: Color, m: Move, cd: nat) -> int {
    -negamax_spec(apply_move_spec(b, m), c.opp(), cd)
}

/// A well-formed move round-trips through its scan position.
pub proof fn lemma_move_roundtrip(m: Move)
    requires
        move_wf(m),
    ensures
        0 <= flat_idx(m) < 4096,
        move_of(flat_idx(m)) == m,
{
    let s = src_idx(m);
    let d = dst_idx(m);
    let f = flat_idx(m);
    assert(0 <= s < 64);
    assert(0 <= d < 64);
    lemma_fundamental_div_mod_converse(f, 64, s, d);
    lemma_fundamental_div_mod_converse(s, 8, m.from.y as int, m.from.x as int);
    lemma_fundamental_div_mod_converse(d, 8, m.to.y as int, m.to.x as int);
}

/// Every position's search value lies between `EVAL_MIN` and `EVAL_MAX`.
pub proof fn lemma_negamax_bounds(b: BoardModel, c: Color, depth: nat)
    ensures
        EVAL_MIN as int <= negamax_spec(b, c, depth) <= EVAL_MAX as int,
    decreases depth, 4097int,
{
    if depth == 0 {
        lemma_eval_upto_bounds(b, c, 64);
    } else {
        lemma_root_best_bounds(b, c, (depth - 1) as nat, 0);
    }
}

/// Every partial root maximum lies between `EVAL_MIN` and `EVAL_MAX`.
pub proof fn lemma_root_best_bounds(b: BoardModel, c: Color, cd: nat, i: int)
    ensures
        EVAL_MIN as int <= root_best(b, c, cd, i) <= EVAL_MAX as int,
    decreases cd + 1, 4096 - i,
{
    if 0 <= i < 4096 {
        lemma_root_best_bounds(b, c, cd, i + 1);
        if legal_move(b, c, move_of(i)) {
            lemma_negamax_bounds(apply_move_spec(b, move_of(i)), c.opp(), cd);
        }
    }
}

/// `root_best` is exactly the maximum of the remaining legal moves'
/// values: it bounds each of them, and is either `EVAL_MIN` or attained
/// by one of them.
pub proof fn lemma_root_best_char(b: BoardModel, c: Color, cd: nat, i: int)
    requires
        0 <= i <= 4096,
    ensures
        root_best(b, c, cd, i) >= EVAL_MIN as int,
        forall|m: Move|
            legal_move(b, c, m) && flat_idx(m) >= i ==> #[trigger] child_value(b, c, m, cd)
                <= root_best(b, c, cd, i),
        root_best(b, c, cd, i) == EVAL_MIN as int || exists|m: Move|
            legal_move(b, c, m) && flat_idx(m) >= i && #[trigger] child_value(b, c, m, cd)
                == root_best(b, c, cd, i),
    decreases 4096 - i,
{
    if i == 4096 {
        assert forall|m: Move| legal_move(b, c, m) && flat_idx(m) >= i implies #[trigger] child_value(
            b,
            c,
            m,
            cd,
        ) <= root_best(b, c, cd, i) by {
            lemma_move_roundtrip(m);
        }
    } else {
        lemma_root_best_char(b, c, cd, i + 1);
        let rest = root_best(b, c, cd, i + 1);
        let mi = move_of(i);
        if legal_move(b, c, mi) {
            lemma_move_roundtrip(mi);
            assert(flat_idx(mi) == i);
            let v = child_value(b, c, mi, cd);
            assert forall|m: Move| legal_move(b, c, m) && flat_idx(m) >= i implies
                #[trigger] child_value(b, c, m, cd) <= root_best(b, c, cd, i) by {
                if flat_idx(m) == i {
                    lemma_move_roundtrip(m);
                    assert(m == mi);
                } else {
                    assert(flat_idx(m) >= i + 1);
                }
            }
            if v > rest {
                assert(child_value(b, c, mi, cd) == root_best(b, c, cd, i));
            }
        } else {
            assert forall|m: Move| legal_move(b, c, m) && flat_idx(m) >= i implies
                #[trigger] child_value(b, c, m, cd) <= root_best(b, c, cd, i) by {
                if flat_idx(m) == i {
                    lemma_move_roundtrip(m);
                    assert(m == mi);
                }
            }
        }
    }
}

/// The fold the extreme-finding helpers compute: the maximum of the
/// elements from position `i` on, starting from `acc`.
pub open spec fn max_from(s: Seq<i32>, i: int, acc: int) -> int
    decreases s.len() - i,
{
    if i < 0 || i >= s.len() {
        acc
    } else {
        max_from(s, i + 1, if s[i] > acc { s[i] as int } else { acc })
    }
}

/// The minimum counterpart of `max_from`.
pub open spec fn min_from(s: Seq<i32>, i: int, acc: int) -> int
    decreases s.len() - i,
{
    if i < 0 || i >= s.len() {
        acc
    } else {
        min_from(s, i + 1, if s[i] < acc { s[i] as int } else { acc })
    }
}

/// `max_from` is exactly the maximum of the suffix and the seed: it
/// bounds every element and the seed, and is attained by one of them.
pub proof fn lemma_max_from_char(s: Seq<i32>, i: int, acc: int)
    requires
        0 <= i <= s.len(),
    ensures
        max_from(s, i, acc) >= acc,
        forall|j: int| i <= j < s.len() ==> s[j] <= max_from(s, i, acc),
        max_from(s, i, acc) == acc || exists|j: int|
            i <= j < s.len() && s[j] == max_from(s, i, acc),
    decreases s.len() - i,
{
    if i < s.len() {
        let next = if s[i] > acc {
            s[i] as int
        } else {
            acc
        };
        lemma_max_from_char(s, i + 1, next);
    }
}

/// The maximum of a list of values, seeded with `EVAL_MIN`, the value
/// beneath every reachable evaluation.
pub fn get_max(values: &Vec<i32>) -> (r: i32)
    ensures
        r as int == max_from(values@, 0, EVAL_MIN as int),
{
    let mut cur: i32 = EVAL_MIN;
    let mut i: usize = 0;
    while i < values.len()
        invariant
            i <= values@.len(),
            max_from(values@, 0, EVAL_MIN as int) == max_from(values@, i as int, cur as int),
        decreases values@.len() - i,
    {
        if values[i] > cur {
            cur = values[i];
        }
        i = i + 1;
    }
    cur
}

/// The minimum of a list of values, seeded with `EVAL_MAX`.
pub fn get_min(values: &Vec<i32>) -> (r: i32)
    ensures
        r as int == min_from(values@, 0, EVAL_MAX as int),
{
    let mut cur: i32 = EVAL_MAX;
    let mut i: usize = 0;
    while i < values.len()
        invariant
            i <= values@.len(),
            min_from(values@, 0, EVAL_MAX as int) == min_from(values@, i as int, cur as int),
        decreases values@.len() - i,
    {
        if values[i] < cur {
            cur = values[i];
        }
        i = i + 1;
    }
    cur
}

/// The full static evaluation of a board from `player`'s perspective:
/// material balance plus positional bonuses, positive for `player`.
pub fn eval(board: &Board, player: Color) -> (r: i32)
    requires
        wf(board@),
    ensures
        r as int == eval_spec(board@, player),
        -64000 <= r <= 64000,
{
    let mut score: i32 = 0;
    let mut i: usize = 0;
    while i < 64
        invariant
            wf(board@),
            i <= 64,
            score as int == eval_upto(board@, player, i as int),
            -1000 * (i as int) <= score as int <= 1000 * (i as int),
        decreases 64 - i,
    {
        let x = i % 8;
        let y = i / 8;
        proof {
            assert(x < 8 && y < 8 && y * 8 + x == i);
        }
        let c = board.piece_at(x, y);
        proof {
            assert(c == board@.grid[i as int]);
        }
        let cs = cell_score_exec(c, player, x, y);
        score = score + cs;
        i = i + 1;
    }
    score
}

/// Relies on rand::random_range over the range 0..n: returns a
/// uniformly random index strictly below `n` from the thread-local
/// generator (the call panics only on an empty range).
#[verifier::external_body]
fn random_below(n: usize) -> (r: usize)
    requires
        n > 0,
    ensures
        r < n,
{
    rand::random_range(0..n)
}

/// The search value of the position for `player`, `depth` plies deep:
/// the exact value of the spec-level negamax.
pub fn negamax(player: Color, board: &Board, depth: u8) -> (r: i32)
    requires
        wf(board@),
    ensures
        r as int == negamax_spec(board@, player, depth as nat),
    decreases depth,
{
    if depth == 0 {
        return eval(board, player);
    }
    let ghost cd = (depth - 1) as nat;
    let moves = get_legal_moves_for(player, board, true);
    let mut values: Vec<i32> = Vec::new();
    let mut i: usize = 0;
    while i < moves.len()
        invariant
            wf(board@),
            i <= moves@.len(),
            values@.len() == i,
            depth >= 1,
            cd == (depth - 1) as nat,
            forall|m: Move| #[trigger] moves@.contains(m) == kept_move(board@, player, m, true),
            forall|j: int|
                0 <= j < i ==> values@[j] as int == child_value(board@, player, moves@[j], cd),
        decreases moves@.len() - i,
    {
        let m = moves[i];
        proof {
            assert(moves@.contains(moves@[i as int]));
        }
        let mut cpy = board.clone_board();
        cpy.apply_move(m);
        let v = negamax(player.opponent(), &cpy, depth - 1);
        proof {
            lemma_negamax_bounds(cpy@, player.opp(), cd);
        }
        values.push(-v);
        i = i + 1;
    }
    let best = get_max(&values);
    proof {
        lemma_root_best_char(board@, player, cd, 0);
        lemma_max_from_char(values@, 0, EVAL_MIN as int);
        let rb = root_best(board@, player, cd, 0);
        let mf = max_from(values@, 0, EVAL_MIN as int);
        // The fold's maximum is at most the spec maximum.
        if mf != EVAL_MIN as int {
            let j = choose|j: int| 0 <= j < values@.len() && values@[j] == mf;
            assert(moves@.contains(moves@[j]));
            let mj = moves@[j];
            lemma_move_roundtrip(mj);
            assert(child_value(board@, player, mj, cd) <= rb);
        }
        // The spec maximum is attained by some enumerated move.
        if rb != EVAL_MIN as int {
            let m = choose|m: Move|
                legal_move(board@, player, m) && flat_idx(m) >= 0 && child_value(
                    board@,
                    player,
                    m,
                    cd,
                ) == rb;
            assert(moves@.contains(m));
            let j = choose|j: int| 0 <= j < moves@.len() && moves@[j] == m;
            assert(values@[j] as int == rb);
            assert(rb <= mf);
        }
        assert(mf == rb);
    }
    best
}

/// The complete set of best moves for `player`, searching `depth`
/// plies beyond each candidate: every entry is legal and no legal move
/// earns a strictly better search value. Empty exactly when `player`
/// has no legal move. This is the deterministic part of move
/// selection; `select_move` draws one entry at random.
pub fn best_moves_for(player: Color, board: &Board, depth: u8) -> (r: Vec<Move>)
    requires
        wf(board@),
    ensures
        (r@.len() > 0) == exists|m: Move| legal_move(board@, player, m),
        forall|j: int|
            0 <= j < r@.len() ==> legal_move(board@, player, #[trigger] r@[j]) && forall|m2: Move|
                legal_move(board@, player, m2) ==> child_value(board@, player, m2, depth as nat)
                    <= child_value(board@, player, r@[j], depth as nat),
{
    let moves = get_legal_moves_for(player, board, true);
    if moves.len() == 0 {
        proof {
            assert forall|m: Move| !legal_move(board@, player, m) by {
                if legal_move(board@, player, m) {
                    assert(moves@.contains(m));
                }
            }
        }
        return Vec::new();
    }
    proof {
        assert(moves@.contains(moves@[0]));
    }
    let ghost cd = depth as nat;
    let mut values: Vec<i32> = Vec::new();
    let mut i: usize = 0;
    while i < moves.len()
        invariant
            wf(board@),
            i <= moves@.len(),
            values@.len() == i,
            cd == depth as nat,
            forall|m: Move| #[trigger] moves@.contains(m) == kept_move(board@, player, m, true),
            forall|j: int|
                0 <= j < i ==> values@[j] as int == child_value(board@, player, moves@[j], cd),
            forall|j: int| 0 <= j < i ==> EVAL_MIN as int <= #[trigger] values@[j] as int,
        decreases moves@.len() - i,
    {
        let m = moves[i];
        proof {
            assert(moves@.contains(moves@[i as int]));
        }
        let mut cpy = board.clone_board();
        cpy.apply_move(m);
        let v = negamax(player.opponent(), &cpy, depth);
        proof {
            lemma_negamax_bounds(cpy@, player.opp(), cd);
        }
        values.push(-v);
        i = i + 1;
    }
    let best = get_max(&values);
    proof {
        lemma_max_from_char(values@, 0, EVAL_MIN as int);
    }
    // Gather every move whose value ties the best.
    let mut best_moves: Vec<Move> = Vec::new();
    let mut k: usize = 0;
    while k < moves.len()
        invariant
            wf(board@),
            k <= moves@.len(),
            values@.len() == moves@.len(),
            cd == depth as nat,
            forall|m: Move| #[trigger] moves@.contains(m) == kept_move(board@, player, m, true),
            forall|j: int|
                0 <= j < values@.len() ==> values@[j] as int == child_value(
                    board@,
                    player,
                    moves@[j],
                    cd,
                ),
            forall|j: int|
                0 <= j < best_moves@.len() ==> legal_move(board@, player, #[trigger] best_moves@[j])
                    && child_value(board@, player, best_moves@[j], cd) == best as int,
            forall|j: int| 0 <= j < values@.len() ==> EVAL_MIN as int <= #[trigger] values@[j] as int,
            best as int == max_from(values@, 0, EVAL_MIN as int),
            forall|j: int|
                0 <= j < k && values@[j] == best ==> best_moves@.contains(moves@[j]),
        decreases moves@.len() - k,
    {
        if values[k] == best {
            proof {
                assert(moves@.contains(moves@[k as int]));
            }
            let ghost prev = best_moves@;
            best_moves.push(moves[k]);
            proof {
                assert(best_moves@[prev.len() as int] == moves@[k as int]);
                assert forall|j: int| 0 <= j < k + 1 && values@[j] == best implies
                    best_moves@.contains(moves@[j]) by {
                    if j < k {
                        assert(prev.contains(moves@[j]));
                        let q = choose|q: int| 0 <= q < prev.len() && prev[q] == moves@[j];
                        assert(best_moves@[q] == moves@[j]);
                    } else {
                        assert(best_moves@.contains(best_moves@[prev.len() as int]));
                    }
                }
            }
        }
        k = k + 1;
    }
    proof {
        let mf = max_from(values@, 0, EVAL_MIN as int);
        if mf != EVAL_MIN as int {
            let jw = choose|j: int| 0 <= j < values@.len() && values@[j] as int == mf;
            assert(values@[jw] == best);
            assert(best_moves@.contains(moves@[jw]));
        } else {
            // Every value is bounded below by EVAL_MIN and above by the
            // fold's maximum, so they all tie at EVAL_MIN.
            assert(values@[0] as int <= mf);
            assert(values@[0] == best);
            assert(best_moves@.contains(moves@[0]));
        }
        assert(best_moves@.len() > 0);
        assert forall|j: int, m2: Move|
            0 <= j < best_moves@.len() && legal_move(board@, player, m2) implies child_value(
            board@,
            player,
            m2,
            cd,
        ) <= child_value(board@, player, best_moves@[j], cd) by {
            assert(moves@.contains(m2));
            let q = choose|q: int| 0 <= q < moves@.len() && moves@[q] == m2;
            assert(values@[q] as int == child_value(board@, player, m2, cd));
        }
    }
    best_moves
}

/// Pick a best move for `player`, searching `depth` plies beyond each
/// candidate: the returned move is legal and no legal move earns a
/// strictly better search value; ties are broken uniformly at random.
/// `None` exactly when `player` has no legal move.
pub fn select_move(player: Color, board: &Board, depth: u8) -> (r: Option<Move>)
    requires
        wf(board@),
    ensures
        (r is Some) == exists|m: Move| legal_move(board@, player, m),
        r matches Some(m) ==> legal_move(board@, player, m) && forall|m2: Move|
            legal_move(board@, player, m2) ==> #[trigger] child_value(
                board@,
                player,
                m2,
                depth as nat,
            ) <= child_value(board@, player, m, depth as nat),
{
    let best_moves = best_moves_for(player, board, depth);
    if best_moves.len() == 0 {
        return None;
    }
    let idx = random_below(best_moves.len());
    Some(best_moves[idx])
}

/// Let the computer play: search `DEPTH` plies ahead, apply a best
/// move to the board, and leave the board unchanged when `player` has
/// no legal move.
pub fn play(player: Color, board: &mut Board)
    requires
        wf(old(board)@),
    ensures
        wf(final(board)@),
        (exists|m: Move| legal_move(old(board)@, player, m)) ==> exists|m: Move|
            legal_move(old(board)@, player, m) && (forall|m2: Move|
                legal_move(old(board)@, player, m2) ==> #[trigger] child_value(
                    old(board)@,
                    player,
                    m2,
                    (DEPTH - 1) as nat,
                ) <= child_value(old(board)@, player, m, (DEPTH - 1) as nat)) && final(board)@
                == apply_move_spec(old(board)@, m),
        !(exists|m: Move| legal_move(old(board)@, player, m)) ==> final(board)@ == old(board)@,
{
    let chosen = select_move(player, board, DEPTH - 1);
    match chosen {
        Some(m) => {
            board.apply_move(m);
        },
        None => {},
    }
}

} // verus!
