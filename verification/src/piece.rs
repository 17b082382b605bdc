use vstd::prelude::*;

verus! {

/// The side a piece belongs to, and the side to move.
#[derive(Clone, Copy, Debug, PartialEq, Eq, Structural)]
pub enum Color {
    White,
    Black,
}

impl Color {
    pub open spec fn spec_opposite(self) -> Color {
        match self {
            Color::White => Color::Black,
            Color::Black => Color::White,
        }
    }

    pub fn opposite(self) -> (r: Color)
        ensures
            r == self.spec_opposite(),
    {
        match self {
            Color::White => Color::Black,
            Color::Black => Color::White,
        }
    }
}

/// The twelve piece kinds: each chess piece type in each color.
#[derive(Clone, Copy, Debug, PartialEq, Eq, Structural)]
pub enum BoardPiece {
    WhiteRook,
    WhiteBishop,
    WhiteKnight,
    WhiteKing,
    WhiteQueen,
    WhitePawn,
    BlackRook,
    BlackBishop,
    BlackKnight,
    BlackKing,
    BlackQueen,
    BlackPawn,
}

impl BoardPiece {
    pub open spec fn color(self) -> Color {
        match self {
            BoardPiece::WhiteRook
            | BoardPiece::WhiteBishop
            | BoardPiece::WhiteKnight
            | BoardPiece::WhiteKing
            | BoardPiece::WhiteQueen
            | BoardPiece::WhitePawn => Color::White,
            _ => Color::Black,
        }
    }

    pub fn get_color(&self) -> (c: Color)
        ensures
            c == self.color(),
    {
        match self {
            BoardPiece::WhiteRook
            | BoardPiece::WhiteBishop
            | BoardPiece::WhiteKnight
            | BoardPiece::WhiteKing
            | BoardPiece::WhiteQueen
            | BoardPiece::WhitePawn => Color::White,
            _ => Color::Black,
        }
    }

    pub open spec fn is_pawn(self) -> bool {
        self == BoardPiece::WhitePawn || self == BoardPiece::BlackPawn
    }

    pub open spec fn is_king(self) -> bool {
        self == BoardPiece::WhiteKing || self == BoardPiece::BlackKing
    }

    /// The pawn of the given color.
    pub open spec fn spec_pawn_of(c: Color) -> BoardPiece {
        match c {
            Color::White => BoardPiece::WhitePawn,
            Color::Black => BoardPiece::BlackPawn,
        }
    }

    pub fn pawn_of(c: Color) -> (r: BoardPiece)
        ensures
            r == BoardPiece::spec_pawn_of(c),
    {
        match c {
            Color::White => BoardPiece::WhitePawn,
            Color::Black => BoardPiece::BlackPawn,
        }
    }
}

/// The board-notation letter of each piece: white pieces in upper case,
/// black pieces in lower case.
pub open spec fn piece_char(p: BoardPiece) -> char {
    match p {
        BoardPiece::WhiteRook => 'R',
        BoardPiece::WhiteBishop => 'B',
        BoardPiece::WhiteKnight => 'N',
        BoardPiece::WhiteKing => 'K',
        BoardPiece::WhiteQueen => 'Q',
        BoardPiece::WhitePawn => 'P',
        BoardPiece::BlackRook => 'r',
        BoardPiece::BlackBishop => 'b',
        BoardPiece::BlackKnight => 'n',
        BoardPiece::BlackKing => 'k',
        BoardPiece::BlackQueen => 'q',
        BoardPiece::BlackPawn => 'p',
    }
}

/// The piece a board-notation letter stands for, if any.
pub open spec fn spec_piece_from_char(c: char) -> Option<BoardPiece> {
    match c {
        'R' => Some(BoardPiece::WhiteRook),
        'B' => Some(BoardPiece::WhiteBishop),
        'N' => Some(BoardPiece::WhiteKnight),
        'K' => Some(BoardPiece::WhiteKing),
        'Q' => Some(BoardPiece::WhiteQueen),
        'P' => Some(BoardPiece::WhitePawn),
        'r' => Some(BoardPiece::BlackRook),
        'b' => Some(BoardPiece::BlackBishop),
        'n' => Some(BoardPiece::BlackKnight),
        'k' => Some(BoardPiece::BlackKing),
        'q' => Some(BoardPiece::BlackQueen),
        'p' => Some(BoardPiece::BlackPawn),
        _ => None,
    }
}

pub fn piece_char_exec(p: BoardPiece) -> (c: char)
    ensures
        c == piece_char(p),
{
    match p {
        BoardPiece::WhiteRook => 'R',
        BoardPiece::WhiteBishop => 'B',
        BoardPiece::WhiteKnight => 'N',
        BoardPiece::WhiteKing => 'K',
        BoardPiece::WhiteQueen => 'Q',
        BoardPiece::WhitePawn => 'P',
        BoardPiece::BlackRook => 'r',
        BoardPiece::BlackBishop => 'b',
        BoardPiece::BlackKnight => 'n',
        BoardPiece::BlackKing => 'k',
        BoardPiece::BlackQueen => 'q',
        BoardPiece::BlackPawn => 'p',
    }
}

pub fn piece_from_char(c: char) -> (r: Option<BoardPiece>)
    ensures
        r == spec_piece_from_char(c),
{
    match c {
        'R' => Some(BoardPiece::WhiteRook),
        'B' => Some(BoardPiece::WhiteBishop),
        'N' => Some(BoardPiece::WhiteKnight),
        'K' => Some(BoardPiece::WhiteKing),
        'Q' => Some(BoardPiece::WhiteQueen),
        'P' => Some(BoardPiece::WhitePawn),
        'r' => Some(BoardPiece::BlackRook),
        'b' => Some(BoardPiece::BlackBishop),
        'n' => Some(BoardPiece::BlackKnight),
        'k' => Some(BoardPiece::BlackKing),
        'q' => Some(BoardPiece::BlackQueen),
        'p' => Some(BoardPiece::BlackPawn),
        _ => None,
    }
}

} // verus!
