//! Board state: the 8x8 grid, capture tallies and has-moved flags,
//! together with the mathematical model that all contracts speak of.

use vstd::prelude::*;

verus! {

/// The two players. White always moves first.
#[derive(Copy, Clone, PartialEq, Eq, Structural, Debug)]
pub enum Color {
    White,
    Black,
}

impl Color {
    /// The other player, as a spec-level function.
    pub open spec fn opp(self) -> Color {
        match self {
            Color::White => Color::Black,
            Color::Black => Color::White,
        }
    }

    /// The other player.
    pub fn opponent(self) -> (r: Color)
        ensures
            r == self.opp(),
    {
        match self {
            Color::White => Color::Black,
            Color::Black => Color::White,
        }
    }
}

/// The six chess piece kinds.
#[derive(Copy, Clone, PartialEq, Eq, Structural, Debug)]
pub enum PieceKind {
    Pawn,
    Rook,
    Knight,
    Bishop,
    Queen,
    King,
}

/// A piece on the board: a kind together with its owner's color.
#[derive(Copy, Clone, PartialEq, Eq, Structural, Debug)]
pub struct Piece {
    pub color: Color,
    pub kind: PieceKind,
}

/// A square coordinate: file `x` and rank index `y`, each in [0, 7].
/// Rank index 0 is Black's back rank; White pawns move toward smaller `y`.
#[derive(Copy, Clone, PartialEq, Eq, Structural, Debug)]
pub struct Square {
    pub x: usize,
    pub y: usize,
}

/// A move: an ordered pair of squares. Castling is represented as the
/// king's own two-file move; the rook's co-movement is a side effect of
/// applying the move, not a separate `Move` value.
#[derive(Copy, Clone, PartialEq, Eq, Structural, Debug)]
pub struct Move {
    pub from: Square,
    pub to: Square,
}

/// A square coordinate lies on the board.
pub open spec fn sq_wf(s: Square) -> bool {
    s.x < 8 && s.y < 8
}

/// Both endpoints lie on the board and differ.
pub open spec fn move_wf(m: Move) -> bool {
    sq_wf(m.from) && sq_wf(m.to) && m.from != m.to
}

/// The mathematical model of a board.
pub ghost struct BoardModel {
    /// 64 cells in rank-major order: the cell at (x, y) is `grid[y * 8 + x]`.
    pub grid: Seq<Option<Piece>>,
    /// White pieces captured by Black, in capture order (at most 15).
    pub white_taken: Seq<Piece>,
    /// Black pieces captured by White, in capture order (at most 15).
    pub black_taken: Seq<Piece>,
    pub white_king_moved: bool,
    pub white_rook_a_moved: bool,
    pub white_rook_h_moved: bool,
    pub black_king_moved: bool,
    pub black_rook_a_moved: bool,
    pub black_rook_h_moved: bool,
}

/// Structural well-formedness of a board model.
pub open spec fn wf(b: BoardModel) -> bool {
    &&& b.grid.len() == 64
    &&& b.white_taken.len() <= 15
    &&& b.black_taken.len() <= 15
}

/// The cell at coordinates (x, y), or None when off the board.
pub open spec fn cell(b: BoardModel, x: int, y: int) -> Option<Piece> {
    if 0 <= x < 8 && 0 <= y < 8 {
        b.grid[y * 8 + x]
    } else {
        None
    }
}

/// The cell a square names.
pub open spec fn cell_at(b: BoardModel, s: Square) -> Option<Piece> {
    cell(b, s.x as int, s.y as int)
}

/// The square at (x, y) is on the board and empty.
pub open spec fn empty_at(b: BoardModel, x: int, y: int) -> bool {
    0 <= x < 8 && 0 <= y < 8 && cell(b, x, y) is None
}

/// The color of the occupant of (x, y), or None when empty or off the board.
pub open spec fn color_at(b: BoardModel, x: int, y: int) -> Option<Color> {
    match cell(b, x, y) {
        Some(p) => Some(p.color),
        None => None,
    }
}

/// The board: an 8x8 grid of cells plus capture tallies and the
/// has-moved flags that decide castling eligibility.
pub struct Board {
    pub grid: Vec<Option<Piece>>,
    pub white_taken: Vec<Piece>,
    pub black_taken: Vec<Piece>,
    pub white_king_moved: bool,
    pub white_rook_a_moved: bool,
    pub white_rook_h_moved: bool,
    pub black_king_moved: bool,
    pub black_rook_a_moved: bool,
    pub black_rook_h_moved: bool,
}

impl View for Board {
    type V = BoardModel;

    open spec fn view(&self) -> BoardModel {
        BoardModel {
            grid: self.grid@,
            white_taken: self.white_taken@,
            black_taken: self.black_taken@,
            white_king_moved: self.white_king_moved,
            white_rook_a_moved: self.white_rook_a_moved,
            white_rook_h_moved: self.white_rook_h_moved,
            black_king_moved: self.black_king_moved,
            black_rook_a_moved: self.black_rook_a_moved,
            black_rook_h_moved: self.black_rook_h_moved,
        }
    }
}

impl Board {
    /// An empty board: no pieces, no captures, nothing has moved.
    pub fn empty_board() -> (r: Board)
        ensures
            wf(r@),
            forall|x: int, y: int| 0 <= x < 8 && 0 <= y < 8 ==> cell(r@, x, y) is None,
            r@.white_taken =~= Seq::<Piece>::empty(),
            r@.black_taken =~= Seq::<Piece>::empty(),
            !r@.white_king_moved && !r@.white_rook_a_moved && !r@.white_rook_h_moved,
            !r@.black_king_moved && !r@.black_rook_a_moved && !r@.black_rook_h_moved,
    {
        let mut grid: Vec<Option<Piece>> = Vec::new();
        let mut i: usize = 0;
        while i < 64
            invariant
                i <= 64,
                grid@.len() == i,
                forall|j: int| 0 <= j < i ==> grid@[j] is None,
            decreases 64 - i,
        {
            grid.push(None);
            i = i + 1;
        }
        Board {
            grid,
            white_taken: Vec::new(),
            black_taken: Vec::new(),
            white_king_moved: false,
            white_rook_a_moved: false,
            white_rook_h_moved: false,
            black_king_moved: false,
            black_rook_a_moved: false,
            black_rook_h_moved: false,
        }
    }

    /// The piece standing at (x, y), if any.
    pub fn piece_at(&self, x: usize, y: usize) -> (r: Option<Piece>)
        requires
            wf(self@),
            x < 8,
            y < 8,
        ensures
            r == cell(self@, x as int, y as int),
    {
        self.grid[y * 8 + x]
    }

    /// Put a piece onto (x, y), replacing whatever stood there.
    pub fn set_at(&mut self, x: usize, y: usize, p: Piece)
        requires
            wf(old(self)@),
            x < 8,
            y < 8,
        ensures
            wf(final(self)@),
            final(self)@ == (BoardModel {
                grid: old(self)@.grid.update(y * 8 + x, Some(p)),
                ..old(self)@
            }),
    {
        self.grid[y * 8 + x] = Some(p);
    }

    /// Clear the square (x, y).
    pub fn clear_at(&mut self, x: usize, y: usize)
        requires
            wf(old(self)@),
            x < 8,
            y < 8,
        ensures
            wf(final(self)@),
            final(self)@ == (BoardModel {
                grid: old(self)@.grid.update(y * 8 + x, None),
                ..old(self)@
            }),
    {
        self.grid[y * 8 + x] = None;
    }

    /// An independent deep copy of the whole board state.
    pub fn clone_board(&self) -> (r: Board)
        requires
            wf(self@),
        ensures
            r@ == self@,
    {
        let mut grid: Vec<Option<Piece>> = Vec::new();
        let mut i: usize = 0;
        while i < 64
            invariant
                wf(self@),
                i <= 64,
                grid@.len() == i,
                forall|j: int| 0 <= j < i ==> grid@[j] == self@.grid[j],
            decreases 64 - i,
        {
            grid.push(self.grid[i]);
            i = i + 1;
        }
        let mut white_taken: Vec<Piece> = Vec::new();
        let mut k: usize = 0;
        while k < self.white_taken.len()
            invariant
                k <= self.white_taken@.len(),
                white_taken@.len() == k,
                forall|j: int| 0 <= j < k ==> white_taken@[j] == self.white_taken@[j],
            decreases self.white_taken@.len() - k,
        {
            white_taken.push(self.white_taken[k]);
            k = k + 1;
        }
        let mut black_taken: Vec<Piece> = Vec::new();
        let mut n: usize = 0;
        while n < self.black_taken.len()
            invariant
                n <= self.black_taken@.len(),
                black_taken@.len() == n,
                forall|j: int| 0 <= j < n ==> black_taken@[j] == self.black_taken@[j],
            decreases self.black_taken@.len() - n,
        {
            black_taken.push(self.black_taken[n]);
            n = n + 1;
        }
        let r = Board {
            grid,
            white_taken,
            black_taken,
            white_king_moved: self.white_king_moved,
            white_rook_a_moved: self.white_rook_a_moved,
            white_rook_h_moved: self.white_rook_h_moved,
            black_king_moved: self.black_king_moved,
            black_rook_a_moved: self.black_rook_a_moved,
            black_rook_h_moved: self.black_rook_h_moved,
        };
        proof {
            assert(r@.grid =~= self@.grid);
            assert(r@.white_taken =~= self@.white_taken);
            assert(r@.black_taken =~= self@.black_taken);
        }
        r
    }
}

/// The rank index of `c`'s back rank: 7 for White, 0 for Black.
pub open spec fn back_rank(c: Color) -> int {
    if c is White {
        7
    } else {
        0
    }
}

/// The moving piece is `c`'s king stepping two files toward the h-file
/// from its home square: the shape of a kingside castle.
pub open spec fn short_castle_step(moving: Option<Piece>, m: Move, c: Color) -> bool {
    &&& moving == Some(Piece { color: c, kind: PieceKind::King })
    &&& m.from.x == 4 && m.from.y as int == back_rank(c)
    &&& m.to.x == 6 && m.to.y as int == back_rank(c)
}

/// The moving piece is `c`'s king stepping two files toward the a-file
/// from its home square: the shape of a queenside castle.
pub open spec fn long_castle_step(moving: Option<Piece>, m: Move, c: Color) -> bool {
    &&& moving == Some(Piece { color: c, kind: PieceKind::King })
    &&& m.from.x == 4 && m.from.y as int == back_rank(c)
    &&& m.to.x == 2 && m.to.y as int == back_rank(c)
}

/// Relocate the rook beside the king when the move is a castle.
pub open spec fn castle_rook_fix(g: Seq<Option<Piece>>, moving: Option<Piece>, m: Move)
    -> Seq<Option<Piece>> {
    if short_castle_step(moving, m, Color::White) {
        g.update(61int, Some(Piece { color: Color::White, kind: PieceKind::Rook }))
            .update(63int, None)
    } else if long_castle_step(moving, m, Color::White) {
        g.update(59int, Some(Piece { color: Color::White, kind: PieceKind::Rook }))
            .update(56int, None)
    } else if short_castle_step(moving, m, Color::Black) {
        g.update(5int, Some(Piece { color: Color::Black, kind: PieceKind::Rook })).update(7int, None)
    } else if long_castle_step(moving, m, Color::Black) {
        g.update(3int, Some(Piece { color: Color::Black, kind: PieceKind::Rook })).update(0int, None)
    } else {
        g
    }
}

/// Record a captured piece in the matching tally, clamped at 15 slots:
/// a full tally is a storage bound, not a gameplay rule.
pub open spec fn record_capture(taken: Seq<Piece>, captured: Option<Piece>, c: Color)
    -> Seq<Piece> {
    match captured {
        Some(p) => if p.color == c && taken.len() < 15 {
            taken.push(p)
        } else {
            taken
        },
        None => taken,
    }
}

/// The board after applying a move: the piece at `from` lands on `to`
/// (capturing whatever stood there), `from` is cleared, a castle also
/// relocates the rook, and the has-moved flags of kings and rooks that
/// left their home squares are set.
pub open spec fn apply_move_spec(b: BoardModel, m: Move) -> BoardModel {
    let moving = cell_at(b, m.from);
    let captured = cell_at(b, m.to);
    let g1 = b.grid.update((m.to.y * 8 + m.to.x) as int, moving).update(
        (m.from.y * 8 + m.from.x) as int,
        None,
    );
    BoardModel {
        grid: castle_rook_fix(g1, moving, m),
        white_taken: record_capture(b.white_taken, captured, Color::White),
        black_taken: record_capture(b.black_taken, captured, Color::Black),
        white_king_moved: b.white_king_moved || (m.from.x == 4 && m.from.y == 7),
        white_rook_a_moved: b.white_rook_a_moved || (m.from.x == 0 && m.from.y == 7)
            || long_castle_step(moving, m, Color::White),
        white_rook_h_moved: b.white_rook_h_moved || (m.from.x == 7 && m.from.y == 7)
            || short_castle_step(moving, m, Color::White),
        black_king_moved: b.black_king_moved || (m.from.x == 4 && m.from.y == 0),
        black_rook_a_moved: b.black_rook_a_moved || (m.from.x == 0 && m.from.y == 0)
            || long_castle_step(moving, m, Color::Black),
        black_rook_h_moved: b.black_rook_h_moved || (m.from.x == 7 && m.from.y == 0)
            || short_castle_step(moving, m, Color::Black),
    }
}

/// The move has the shape of a castle of `c` toward file `to_x`:
/// `c`'s king stepping from its home square to file `to_x` on the back rank.
fn is_castle_step(moving: Option<Piece>, m: Move, c: Color, to_x: usize) -> (r: bool)
    requires
        to_x == 6 || to_x == 2,
    ensures
        to_x == 6 ==> r == short_castle_step(moving, m, c),
        to_x == 2 ==> r == long_castle_step(moving, m, c),
{
    let rank: usize = if c == Color::White { 7 } else { 0 };
    match moving {
        Some(p) => p.kind == PieceKind::King && p.color == c && m.from.x == 4 && m.from.y == rank
            && m.to.x == to_x && m.to.y == rank,
        None => false,
    }
}

/// A pawn stands on the farthest rank and awaits its replacement piece.
pub open spec fn pawn_upgrade_spec(b: BoardModel) -> bool {
    exists|x: int|
        0 <= x < 8 && (cell(b, x, 0) == Some(Piece { color: Color::White, kind: PieceKind::Pawn })
            || #[trigger] cell(b, x, 7) == Some(
            Piece { color: Color::Black, kind: PieceKind::Pawn },
        ))
}

impl Board {
    /// Apply a move: copy the piece at `from` onto `to`, clear `from`,
    /// record a capture, relocate the rook of a castle, and update the
    /// has-moved flags.
    #[verifier::rlimit(80)]
    pub fn apply_move(&mut self, m: Move)
        requires
            wf(old(self)@),
            move_wf(m),
        ensures
            wf(final(self)@),
            final(self)@ == apply_move_spec(old(self)@, m),
    {
        let moving = self.piece_at(m.from.x, m.from.y);
        let captured = self.piece_at(m.to.x, m.to.y);
        let scw = is_castle_step(moving, m, Color::White, 6);
        let lcw = is_castle_step(moving, m, Color::White, 2);
        let scb = is_castle_step(moving, m, Color::Black, 6);
        let lcb = is_castle_step(moving, m, Color::Black, 2);
        self.grid[m.to.y * 8 + m.to.x] = moving;
        self.grid[m.from.y * 8 + m.from.x] = None;
        // A castle also relocates the rook beside the king.
        if scw {
            self.grid[61] = Some(Piece { color: Color::White, kind: PieceKind::Rook });
            self.grid[63] = None;
        } else if lcw {
            self.grid[59] = Some(Piece { color: Color::White, kind: PieceKind::Rook });
            self.grid[56] = None;
        } else if scb {
            self.grid[5] = Some(Piece { color: Color::Black, kind: PieceKind::Rook });
            self.grid[7] = None;
        } else if lcb {
            self.grid[3] = Some(Piece { color: Color::Black, kind: PieceKind::Rook });
            self.grid[0] = None;
        }
        if let Some(p) = captured {
            if p.color == Color::White {
                if self.white_taken.len() < 15 {
                    self.white_taken.push(p);
                }
            } else {
                if self.black_taken.len() < 15 {
                    self.black_taken.push(p);
                }
            }
        }
        // A king or rook leaving its home square, and the rook moved by a
        // castle, lose castling eligibility.
        self.white_king_moved = self.white_king_moved || (m.from.x == 4 && m.from.y == 7);
        self.white_rook_a_moved = self.white_rook_a_moved || (m.from.x == 0 && m.from.y == 7)
            || lcw;
        self.white_rook_h_moved = self.white_rook_h_moved || (m.from.x == 7 && m.from.y == 7)
            || scw;
        self.black_king_moved = self.black_king_moved || (m.from.x == 4 && m.from.y == 0);
        self.black_rook_a_moved = self.black_rook_a_moved || (m.from.x == 0 && m.from.y == 0)
            || lcb;
        self.black_rook_h_moved = self.black_rook_h_moved || (m.from.x == 7 && m.from.y == 0)
            || scb;
    }

    /// A pawn has reached the farthest rank; the caller supplies the
    /// replacement piece through `set_at`.
    pub fn pawn_upgrade(&self) -> (r: bool)
        requires
            wf(self@),
        ensures
            r == pawn_upgrade_spec(self@),
    {
        let mut x: usize = 0;
        let mut found = false;
        while x < 8
            invariant
                wf(self@),
                x <= 8,
                found == exists|j: int|
                    0 <= j < x && (cell(self@, j, 0) == Some(
                        Piece { color: Color::White, kind: PieceKind::Pawn },
                    ) || #[trigger] cell(self@, j, 7) == Some(
                        Piece { color: Color::Black, kind: PieceKind::Pawn },
                    )),
            decreases 8 - x,
        {
            let top = self.piece_at(x, 0);
            let bottom = self.piece_at(x, 7);
            let hit = (match top {
                Some(p) => p.color == Color::White && p.kind == PieceKind::Pawn,
                None => false,
            }) || (match bottom {
                Some(p) => p.color == Color::Black && p.kind == PieceKind::Pawn,
                None => false,
            });
            found = found || hit;
            x = x + 1;
        }
        found
    }
}

/// The piece kind on the back rank at file `x` in the standard
/// initial position.
pub open spec fn back_rank_kind(x: int) -> PieceKind {
    if x == 0 || x == 7 {
        PieceKind::Rook
    } else if x == 1 || x == 6 {
        PieceKind::Knight
    } else if x == 2 || x == 5 {
        PieceKind::Bishop
    } else if x == 3 {
        PieceKind::Queen
    } else {
        PieceKind::King
    }
}

/// The cell at (x, y) in the standard initial position: Black's pieces
/// on ranks 0 and 1, White's on ranks 6 and 7.
pub open spec fn initial_cell(x: int, y: int) -> Option<Piece> {
    if y == 0 {
        Some(Piece { color: Color::Black, kind: back_rank_kind(x) })
    } else if y == 1 {
        Some(Piece { color: Color::Black, kind: PieceKind::Pawn })
    } else if y == 6 {
        Some(Piece { color: Color::White, kind: PieceKind::Pawn })
    } else if y == 7 {
        Some(Piece { color: Color::White, kind: back_rank_kind(x) })
    } else {
        None
    }
}

/// The standard initial position: nothing captured, nothing moved.
pub fn starting_board() -> (r: Board)
    ensures
        wf(r@),
        forall|x: int, y: int| 0 <= x < 8 && 0 <= y < 8 ==> cell(r@, x, y) == initial_cell(x, y),
        r@.white_taken =~= Seq::<Piece>::empty(),
        r@.black_taken =~= Seq::<Piece>::empty(),
        !r@.white_king_moved && !r@.white_rook_a_moved && !r@.white_rook_h_moved,
        !r@.black_king_moved && !r@.black_rook_a_moved && !r@.black_rook_h_moved,
{
    let mut grid: Vec<Option<Piece>> = Vec::new();
    let mut y: usize = 0;
    while y < 8
        invariant
            y <= 8,
            grid@.len() == y * 8,
            forall|px: int, py: int|
                0 <= px < 8 && 0 <= py < y ==> grid@[py * 8 + px] == #[trigger] initial_cell(
                    px,
                    py,
                ),
        decreases 8 - y,
    {
        let mut x: usize = 0;
        while x < 8
            invariant
                y < 8,
                x <= 8,
                grid@.len() == y * 8 + x,
                forall|px: int, py: int|
                    0 <= px < 8 && 0 <= py < y ==> grid@[py * 8 + px] == #[trigger] initial_cell(
                        px,
                        py,
                    ),
                forall|px: int|
                    0 <= px < x ==> grid@[y * 8 + px] == #[trigger] initial_cell(px, y as int),
            decreases 8 - x,
        {
            let c = if y <= 1 { Color::Black } else { Color::White };
            let p: Option<Piece> = if y == 1 || y == 6 {
                Some(Piece { color: c, kind: PieceKind::Pawn })
            } else if y == 0 || y == 7 {
                let kind = if x == 0 || x == 7 {
                    PieceKind::Rook
                } else if x == 1 || x == 6 {
                    PieceKind::Knight
                } else if x == 2 || x == 5 {
                    PieceKind::Bishop
                } else if x == 3 {
                    PieceKind::Queen
                } else {
                    PieceKind::King
                };
                Some(Piece { color: c, kind })
            } else {
                None
            };
            grid.push(p);
            x = x + 1;
        }
        y = y + 1;
    }
    Board {
        grid,
        white_taken: Vec::new(),
        black_taken: Vec::new(),
        white_king_moved: false,
        white_rook_a_moved: false,
        white_rook_h_moved: false,
        black_king_moved: false,
        black_rook_a_moved: false,
        black_rook_h_moved: false,
    }
}

/// The two boards hold the same model: same cells, same capture
/// tallies, same has-moved flags.
pub fn boards_equal(a: &Board, b: &Board) -> (r: bool)
    requires
        wf(a@),
        wf(b@),
    ensures
        r == (a@ == b@),
{
    let mut i: usize = 0;
    let mut cells_same: bool = true;
    while i < 64
        invariant
            wf(a@),
            wf(b@),
            i <= 64,
            cells_same == (forall|j: int| 0 <= j < i ==> a@.grid[j] == b@.grid[j]),
        decreases 64 - i,
    {
        let ca = a.grid[i];
        let cb = b.grid[i];
        let same = match (ca, cb) {
            (None, None) => true,
            (Some(p), Some(q)) => p == q,
            _ => false,
        };
        cells_same = cells_same && same;
        i = i + 1;
    }
    let mut wt_same: bool = a.white_taken.len() == b.white_taken.len();
    let mut k: usize = 0;
    while k < a.white_taken.len() && k < b.white_taken.len()
        invariant
            wf(a@),
            wf(b@),
            k <= a.white_taken@.len(),
            k <= b.white_taken@.len(),
            wt_same == (a@.white_taken.len() == b@.white_taken.len()
                && forall|j: int| 0 <= j < k ==> a@.white_taken[j] == b@.white_taken[j]),
        decreases a.white_taken@.len() - k,
    {
        wt_same = wt_same && a.white_taken[k] == b.white_taken[k];
        k = k + 1;
    }
    let mut bt_same: bool = a.black_taken.len() == b.black_taken.len();
    let mut n: usize = 0;
    while n < a.black_taken.len() && n < b.black_taken.len()
        invariant
            wf(a@),
            wf(b@),
            n <= a.black_taken@.len(),
            n <= b.black_taken@.len(),
            bt_same == (a@.black_taken.len() == b@.black_taken.len()
                && forall|j: int| 0 <= j < n ==> a@.black_taken[j] == b@.black_taken[j]),
        decreases a.black_taken@.len() - n,
    {
        bt_same = bt_same && a.black_taken[n] == b.black_taken[n];
        n = n + 1;
    }
    let flags_same = a.white_king_moved == b.white_king_moved
        && a.white_rook_a_moved == b.white_rook_a_moved
        && a.white_rook_h_moved == b.white_rook_h_moved
        && a.black_king_moved == b.black_king_moved
        && a.black_rook_a_moved == b.black_rook_a_moved
        && a.black_rook_h_moved == b.black_rook_h_moved;
    let r = cells_same && wt_same && bt_same && flags_same;
    proof {
        if r {
            assert(a@.grid =~= b@.grid);
            assert(a@.white_taken =~= b@.white_taken);
            assert(a@.black_taken =~= b@.black_taken);
        } else {
            if a@ == b@ {
                assert(cells_same);
                assert(wt_same);
                assert(bt_same);
                assert(flags_same);
            }
        }
    }
    r
}

} // verus!
