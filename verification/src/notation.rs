//! Pure text-to-coordinate helpers for the terminal collaborators: the
//! two-character box notation, promotion piece names, and the turn
//! order. Reading lines and splitting them on whitespace stays with
//! the I/O layer; everything that decides stands here.

use vstd::prelude::*;
use crate::board::{Color, Move, PieceKind, Square};

verus! {

/// Why a piece of coordinate text was rejected.
#[derive(Copy, Clone, PartialEq, Eq, Structural, Debug)]
pub enum ParseError {
    /// A box is written with exactly two characters.
    WrongLength,
    /// A character names neither a file nor a rank.
    BadCharacter,
}

/// The coordinate a single character names: files 'a'..'h' and ranks
/// '8'..'1' map onto the same 0..7 index space, in either position.
pub open spec fn coord_of(ch: u8) -> Option<usize> {
    if ch == 97 || ch == 56 {
        Some(0usize)
    } else if ch == 98 || ch == 55 {
        Some(1usize)
    } else if ch == 99 || ch == 54 {
        Some(2usize)
    } else if ch == 100 || ch == 53 {
        Some(3usize)
    } else if ch == 101 || ch == 52 {
        Some(4usize)
    } else if ch == 102 || ch == 51 {
        Some(5usize)
    } else if ch == 103 || ch == 50 {
        Some(6usize)
    } else if ch == 104 || ch == 49 {
        Some(7usize)
    } else {
        None
    }
}

/// What `parse_box` returns on a given field.
pub open spec fn parse_box_spec(s: Seq<u8>) -> Result<Square, ParseError> {
    if s.len() != 2 {
        Err(ParseError::WrongLength)
    } else {
        match (coord_of(s[0]), coord_of(s[1])) {
            (Some(x), Some(y)) => Ok(Square { x, y }),
            _ => Err(ParseError::BadCharacter),
        }
    }
}

/// The coordinate a single character names.
pub fn coord_of_char(ch: u8) -> (r: Option<usize>)
    ensures
        r == coord_of(ch),
        r matches Some(v) ==> v < 8,
{
    if ch == 97 || ch == 56 {
        Some(0)
    } else if ch == 98 || ch == 55 {
        Some(1)
    } else if ch == 99 || ch == 54 {
        Some(2)
    } else if ch == 100 || ch == 53 {
        Some(3)
    } else if ch == 101 || ch == 52 {
        Some(4)
    } else if ch == 102 || ch == 51 {
        Some(5)
    } else if ch == 103 || ch == 50 {
        Some(6)
    } else if ch == 104 || ch == 49 {
        Some(7)
    } else {
        None
    }
}

/// Parse one two-character box field into a square coordinate.
pub fn parse_box(s: &[u8]) -> (r: Result<Square, ParseError>)
    ensures
        r == parse_box_spec(s@),
        r matches Ok(sq) ==> sq.x < 8 && sq.y < 8,
{
    if s.len() != 2 {
        return Err(ParseError::WrongLength);
    }
    let cx = coord_of_char(s[0]);
    let cy = coord_of_char(s[1]);
    match (cx, cy) {
        (Some(x), Some(y)) => Ok(Square { x, y }),
        _ => Err(ParseError::BadCharacter),
    }
}

/// What `parse_move` returns on a given pair of fields.
pub open spec fn parse_move_spec(from_field: Seq<u8>, to_field: Seq<u8>) -> Result<
    Move,
    ParseError,
> {
    match (parse_box_spec(from_field), parse_box_spec(to_field)) {
        (Ok(f), Ok(t)) => Ok(Move { from: f, to: t }),
        (Err(e), _) => Err(e),
        (_, Err(e)) => Err(e),
    }
}

/// Parse the two whitespace-separated fields of a move command; the
/// first failing field's error is reported, source field first.
pub fn parse_move(from_field: &[u8], to_field: &[u8]) -> (r: Result<Move, ParseError>)
    ensures
        r == parse_move_spec(from_field@, to_field@),
        r matches Ok(m) ==> m.from.x < 8 && m.from.y < 8 && m.to.x < 8 && m.to.y < 8,
{
    let f = parse_box(from_field);
    let t = parse_box(to_field);
    match (f, t) {
        (Ok(ff), Ok(tt)) => Ok(Move { from: ff, to: tt }),
        (Err(e), _) => Err(e),
        (_, Err(e)) => Err(e),
    }
}

/// The piece kind a promotion answer names: "q"/"queen", "r"/"rook",
/// "b"/"bishop" or "k"/"knight", already lowercased.
pub open spec fn piece_name_spec(s: Seq<u8>) -> Option<PieceKind> {
    if s =~= seq![113u8] || s =~= seq![113u8, 117u8, 101u8, 101u8, 110u8] {
        Some(PieceKind::Queen)
    } else if s =~= seq![114u8] || s =~= seq![114u8, 111u8, 111u8, 107u8] {
        Some(PieceKind::Rook)
    } else if s =~= seq![98u8] || s =~= seq![98u8, 105u8, 115u8, 104u8, 111u8, 112u8] {
        Some(PieceKind::Bishop)
    } else if s =~= seq![107u8] || s =~= seq![107u8, 110u8, 105u8, 103u8, 104u8, 116u8] {
        Some(PieceKind::Knight)
    } else {
        None
    }
}

/// Recognize a promotion piece name.
pub fn piece_from_name(s: &[u8]) -> (r: Option<PieceKind>)
    ensures
        r == piece_name_spec(s@),
{
    if s.len() == 1 {
        let c = s[0];
        proof {
            assert(c == 113 ==> s@ =~= seq![113u8]);
            assert(c == 114 ==> s@ =~= seq![114u8]);
            assert(c == 98 ==> s@ =~= seq![98u8]);
            assert(c == 107 ==> s@ =~= seq![107u8]);
        }
        if c == 113 {
            Some(PieceKind::Queen)
        } else if c == 114 {
            Some(PieceKind::Rook)
        } else if c == 98 {
            Some(PieceKind::Bishop)
        } else if c == 107 {
            Some(PieceKind::Knight)
        } else {
            None
        }
    } else if s.len() == 4 && s[0] == 114 && s[1] == 111 && s[2] == 111 && s[3] == 107 {
        proof {
            assert(s@ =~= seq![114u8, 111u8, 111u8, 107u8]);
        }
        Some(PieceKind::Rook)
    } else if s.len() == 5 && s[0] == 113 && s[1] == 117 && s[2] == 101 && s[3] == 101 && s[4]
        == 110 {
        proof {
            assert(s@ =~= seq![113u8, 117u8, 101u8, 101u8, 110u8]);
        }
        Some(PieceKind::Queen)
    } else if s.len() == 6 && s[0] == 98 && s[1] == 105 && s[2] == 115 && s[3] == 104 && s[4]
        == 111 && s[5] == 112 {
        proof {
            assert(s@ =~= seq![98u8, 105u8, 115u8, 104u8, 111u8, 112u8]);
        }
        Some(PieceKind::Bishop)
    } else if s.len() == 6 && s[0] == 107 && s[1] == 110 && s[2] == 105 && s[3] == 103 && s[4]
        == 104 && s[5] == 116 {
        proof {
            assert(s@ =~= seq![107u8, 110u8, 105u8, 103u8, 104u8, 116u8]);
        }
        Some(PieceKind::Knight)
    } else {
        None
    }
}

/// Whose turn it is: White plays the even turns, Black the odd ones.
pub fn current_player_turn(turn: u64) -> (r: Color)
    ensures
        r == (if turn % 2 == 0 {
            Color::White
        } else {
            Color::Black
        }),
{
    if turn % 2 == 0 {
        Color::White
    } else {
        Color::Black
    }
}

} // verus!
