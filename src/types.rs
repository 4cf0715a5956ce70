use vstd::prelude::*;

verus! {

/// Bit `i` set means that square `i` holds a piece (0 = a1, 7 = h1, 56 = a8, 63 = h8).
pub type Bitboard = u64;

#[derive(Debug, Clone, Copy, PartialEq, Eq, Structural)]
pub enum Color {
    White,
    Black,
}

#[derive(Debug, Clone, Copy, PartialEq, Eq, Structural)]
pub enum PieceType {
    Pawn,
    Rook,
    Knight,
    Bishop,
    Queen,
    King,
}

/// A coloured piece, as found on a square.
#[derive(Debug, Clone, Copy, PartialEq, Eq, Structural)]
pub struct Piece {
    pub color: Color,
    pub piece_type: PieceType,
}

impl Color {
    pub open spec fn index(self) -> int {
        match self {
            Color::White => 0,
            Color::Black => 1,
        }
    }
}

impl PieceType {
    pub open spec fn index(self) -> int {
        match self {
            PieceType::Pawn => 0,
            PieceType::Rook => 1,
            PieceType::Knight => 2,
            PieceType::Bishop => 3,
            PieceType::Queen => 4,
            PieceType::King => 5,
        }
    }
}

impl Piece {
    pub fn new(color: Color, piece_type: PieceType) -> (r: Self)
        ensures
            r.color == color,
            r.piece_type == piece_type,
    {
        Self { color, piece_type }
    }

    /// The letter that stands for this piece on a drawn board: upper case
    /// for white, lower case for black.
    pub open spec fn glyph(self) -> char {
        let upper = match self.piece_type {
            PieceType::Pawn => 'P',
            PieceType::Rook => 'R',
            PieceType::Knight => 'N',
            PieceType::Bishop => 'B',
            PieceType::Queen => 'Q',
            PieceType::King => 'K',
        };
        let lower = match self.piece_type {
            PieceType::Pawn => 'p',
            PieceType::Rook => 'r',
            PieceType::Knight => 'n',
            PieceType::Bishop => 'b',
            PieceType::Queen => 'q',
            PieceType::King => 'k',
        };
        match self.color {
            Color::White => upper,
            Color::Black => lower,
        }
    }

    /// The letter drawn for this piece.
    pub fn symbol(&self) -> (r: char)
        ensures
            r == self.glyph(),
    {
        match self.color {
            Color::White => match self.piece_type {
                PieceType::Pawn => 'P',
                PieceType::Rook => 'R',
                PieceType::Knight => 'N',
                PieceType::Bishop => 'B',
                PieceType::Queen => 'Q',
                PieceType::King => 'K',
            },
            Color::Black => match self.piece_type {
                PieceType::Pawn => 'p',
                PieceType::Rook => 'r',
                PieceType::Knight => 'n',
                PieceType::Bishop => 'b',
                PieceType::Queen => 'q',
                PieceType::King => 'k',
            },
        }
    }

    /// Position of this piece in the fixed lookup order: the six white piece
    /// types from pawn to king, then the six black ones.
    pub open spec fn order(self) -> int {
        self.color.index() * 6 + self.piece_type.index()
    }
}

} // verus!
