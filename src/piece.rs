//! Pieces, their letters in the notations, and their movement steps.

use vstd::prelude::*;
use crate::color::Color;

verus! {

/// The kind of a piece, without its color.
#[derive(Debug, Clone, Copy, PartialEq, Eq, Structural)]
pub enum PieceKind {
    Pawn,
    Knight,
    Bishop,
    Rook,
    Queen,
    King,
}

/// A chess piece: a kind together with a color.
#[derive(Debug, Clone, Copy, PartialEq, Eq, Structural)]
pub enum Piece {
    Pawn(Color),
    Knight(Color),
    Bishop(Color),
    Rook(Color),
    Queen(Color),
    King(Color),
}

/// The piece of the given kind and color.
pub open spec fn make_piece(k: PieceKind, c: Color) -> Piece {
    match k {
        PieceKind::Pawn => Piece::Pawn(c),
        PieceKind::Knight => Piece::Knight(c),
        PieceKind::Bishop => Piece::Bishop(c),
        PieceKind::Rook => Piece::Rook(c),
        PieceKind::Queen => Piece::Queen(c),
        PieceKind::King => Piece::King(c),
    }
}

/// The kind named by an upper-case letter (P N B R Q K).
pub open spec fn kind_of_upper(c: char) -> Option<PieceKind> {
    if c == 'P' { Some(PieceKind::Pawn) }
    else if c == 'N' { Some(PieceKind::Knight) }
    else if c == 'B' { Some(PieceKind::Bishop) }
    else if c == 'R' { Some(PieceKind::Rook) }
    else if c == 'Q' { Some(PieceKind::Queen) }
    else if c == 'K' { Some(PieceKind::King) }
    else { None }
}

/// The kind named by a lower-case letter (p n b r q k).
pub open spec fn kind_of_lower(c: char) -> Option<PieceKind> {
    if c == 'p' { Some(PieceKind::Pawn) }
    else if c == 'n' { Some(PieceKind::Knight) }
    else if c == 'b' { Some(PieceKind::Bishop) }
    else if c == 'r' { Some(PieceKind::Rook) }
    else if c == 'q' { Some(PieceKind::Queen) }
    else if c == 'k' { Some(PieceKind::King) }
    else { None }
}

/// The upper-case letter of a kind.
pub open spec fn upper_of_kind(k: PieceKind) -> char {
    match k {
        PieceKind::Pawn => 'P',
        PieceKind::Knight => 'N',
        PieceKind::Bishop => 'B',
        PieceKind::Rook => 'R',
        PieceKind::Queen => 'Q',
        PieceKind::King => 'K',
    }
}

/// The lower-case letter of a kind.
pub open spec fn lower_of_kind(k: PieceKind) -> char {
    match k {
        PieceKind::Pawn => 'p',
        PieceKind::Knight => 'n',
        PieceKind::Bishop => 'b',
        PieceKind::Rook => 'r',
        PieceKind::Queen => 'q',
        PieceKind::King => 'k',
    }
}

/// The piece of a FEN letter: upper case is White, lower case is Black.
pub open spec fn piece_of_fen(c: char) -> Option<Piece> {
    if kind_of_upper(c) is Some {
        Some(make_piece(kind_of_upper(c)->0, Color::White))
    } else if kind_of_lower(c) is Some {
        Some(make_piece(kind_of_lower(c)->0, Color::Black))
    } else {
        None
    }
}

/// The board directions of a king or a queen.
pub open spec fn all_directions() -> Seq<(i8, i8)> {
    seq![(1i8, 0i8), (1i8, 1i8), (1i8, -1i8), (0i8, 1i8), (-1i8, 1i8), (-1i8, 0i8), (-1i8, -1i8), (0i8, -1i8)]
}

pub open spec fn rook_directions() -> Seq<(i8, i8)> {
    seq![(1i8, 0i8), (0i8, 1i8), (-1i8, 0i8), (0i8, -1i8)]
}

pub open spec fn bishop_directions() -> Seq<(i8, i8)> {
    seq![(1i8, 1i8), (-1i8, 1i8), (-1i8, -1i8), (1i8, -1i8)]
}

pub open spec fn knight_directions() -> Seq<(i8, i8)> {
    seq![(2i8, 1i8), (2i8, -1i8), (-2i8, 1i8), (-2i8, -1i8), (1i8, 2i8), (1i8, -2i8), (-1i8, 2i8), (-1i8, -2i8)]
}

/// Forward steps of a pawn (single step, double step, the two captures).
pub open spec fn pawn_directions(c: Color) -> Seq<(i8, i8)> {
    match c {
        Color::Black => seq![(1i8, 0i8), (2i8, 0i8), (1i8, 1i8), (1i8, -1i8)],
        Color::White => seq![(-1i8, 0i8), (-2i8, 0i8), (-1i8, -1i8), (-1i8, 1i8)],
    }
}

impl Piece {
    pub open spec fn spec_color(self) -> Color {
        match self {
            Piece::Pawn(c) => c,
            Piece::Knight(c) => c,
            Piece::Bishop(c) => c,
            Piece::Rook(c) => c,
            Piece::Queen(c) => c,
            Piece::King(c) => c,
        }
    }

    pub open spec fn spec_kind(self) -> PieceKind {
        match self {
            Piece::Pawn(_) => PieceKind::Pawn,
            Piece::Knight(_) => PieceKind::Knight,
            Piece::Bishop(_) => PieceKind::Bishop,
            Piece::Rook(_) => PieceKind::Rook,
            Piece::Queen(_) => PieceKind::Queen,
            Piece::King(_) => PieceKind::King,
        }
    }

    /// The FEN letter of the piece.
    pub open spec fn fen_char(self) -> char {
        match self.spec_color() {
            Color::White => upper_of_kind(self.spec_kind()),
            Color::Black => lower_of_kind(self.spec_kind()),
        }
    }

    /// The unit steps of the piece; sliding pieces repeat them.
    pub open spec fn spec_directions(self) -> Seq<(i8, i8)> {
        match self {
            Piece::Pawn(c) => pawn_directions(c),
            Piece::Knight(_) => knight_directions(),
            Piece::Bishop(_) => bishop_directions(),
            Piece::Rook(_) => rook_directions(),
            Piece::Queen(_) => all_directions(),
            Piece::King(_) => all_directions(),
        }
    }

    /// True of the pieces that repeat a step until blocked.
    pub open spec fn slides(self) -> bool {
        match self {
            Piece::Bishop(_) | Piece::Rook(_) | Piece::Queen(_) => true,
            _ => false,
        }
    }

    /// Tries to read a piece from a FEN letter.
    pub fn from_fen_char(c: char) -> (r: Option<Piece>)
        ensures
            r == piece_of_fen(c),
    {
        match c {
            'p' => Some(Piece::Pawn(Color::Black)),
            'n' => Some(Piece::Knight(Color::Black)),
            'b' => Some(Piece::Bishop(Color::Black)),
            'r' => Some(Piece::Rook(Color::Black)),
            'q' => Some(Piece::Queen(Color::Black)),
            'k' => Some(Piece::King(Color::Black)),
            'P' => Some(Piece::Pawn(Color::White)),
            'N' => Some(Piece::Knight(Color::White)),
            'B' => Some(Piece::Bishop(Color::White)),
            'R' => Some(Piece::Rook(Color::White)),
            'Q' => Some(Piece::Queen(Color::White)),
            'K' => Some(Piece::King(Color::White)),
            _ => None,
        }
    }

    /// Tries to read a piece of the given color from a SAN letter.
    pub fn from_san_char(c: char, color: Color) -> (r: Option<Piece>)
        ensures
            r == (if kind_of_upper(c) is Some {
                Some(make_piece(kind_of_upper(c)->0, color))
            } else {
                None::<Piece>
            }),
    {
        match c {
            'P' => Some(Piece::Pawn(color)),
            'N' => Some(Piece::Knight(color)),
            'B' => Some(Piece::Bishop(color)),
            'R' => Some(Piece::Rook(color)),
            'Q' => Some(Piece::Queen(color)),
            'K' => Some(Piece::King(color)),
            _ => None,
        }
    }

    /// Tries to read a piece of the given color from a UCI letter.
    pub fn from_uci_char(c: char, color: Color) -> (r: Option<Piece>)
        ensures
            r == (if kind_of_lower(c) is Some {
                Some(make_piece(kind_of_lower(c)->0, color))
            } else {
                None::<Piece>
            }),
    {
        match c {
            'p' => Some(Piece::Pawn(color)),
            'n' => Some(Piece::Knight(color)),
            'b' => Some(Piece::Bishop(color)),
            'r' => Some(Piece::Rook(color)),
            'q' => Some(Piece::Queen(color)),
            'k' => Some(Piece::King(color)),
            _ => None,
        }
    }

    /// The FEN letter of the piece.
    pub fn to_fen_char(&self) -> (r: char)
        ensures
            r == self.fen_char(),
            piece_of_fen(r) == Some(*self),
    {
        match self {
            Piece::Pawn(Color::Black) => 'p',
            Piece::Knight(Color::Black) => 'n',
            Piece::Bishop(Color::Black) => 'b',
            Piece::Rook(Color::Black) => 'r',
            Piece::Queen(Color::Black) => 'q',
            Piece::King(Color::Black) => 'k',
            Piece::Pawn(Color::White) => 'P',
            Piece::Knight(Color::White) => 'N',
            Piece::Bishop(Color::White) => 'B',
            Piece::Rook(Color::White) => 'R',
            Piece::Queen(Color::White) => 'Q',
            Piece::King(Color::White) => 'K',
        }
    }

    /// The SAN letter of the piece's kind.
    pub fn to_san_char(&self) -> (r: char)
        ensures
            r == upper_of_kind(self.spec_kind()),
    {
        match self {
            Piece::Pawn(_) => 'P',
            Piece::Knight(_) => 'N',
            Piece::Bishop(_) => 'B',
            Piece::Rook(_) => 'R',
            Piece::Queen(_) => 'Q',
            Piece::King(_) => 'K',
        }
    }

    /// The UCI letter of the piece's kind.
    pub fn to_uci_char(&self) -> (r: char)
        ensures
            r == lower_of_kind(self.spec_kind()),
    {
        match self {
            Piece::Pawn(_) => 'p',
            Piece::Knight(_) => 'n',
            Piece::Bishop(_) => 'b',
            Piece::Rook(_) => 'r',
            Piece::Queen(_) => 'q',
            Piece::King(_) => 'k',
        }
    }

    /// The color of the piece.
    pub fn color(&self) -> (r: Color)
        ensures
            r == self.spec_color(),
    {
        match self {
            Piece::Pawn(color) => *color,
            Piece::Knight(color) => *color,
            Piece::Bishop(color) => *color,
            Piece::Rook(color) => *color,
            Piece::Queen(color) => *color,
            Piece::King(color) => *color,
        }
    }

    /// The kind of the piece.
    pub fn kind(&self) -> (r: PieceKind)
        ensures
            r == self.spec_kind(),
            make_piece(r, self.spec_color()) == *self,
    {
        match self {
            Piece::Pawn(_) => PieceKind::Pawn,
            Piece::Knight(_) => PieceKind::Knight,
            Piece::Bishop(_) => PieceKind::Bishop,
            Piece::Rook(_) => PieceKind::Rook,
            Piece::Queen(_) => PieceKind::Queen,
            Piece::King(_) => PieceKind::King,
        }
    }

    /// True for bishops, rooks and queens.
    pub fn is_slider(&self) -> (r: bool)
        ensures
            r == self.slides(),
    {
        match self {
            Piece::Bishop(_) | Piece::Rook(_) | Piece::Queen(_) => true,
            _ => false,
        }
    }

    /// The unit steps in which the piece moves.
    pub fn directions(&self) -> (r: Vec<(i8, i8)>)
        ensures
            r@ == self.spec_directions(),
    {
        let r = match self {
            Piece::Pawn(Color::Black) => vec![(1i8, 0i8), (2, 0), (1, 1), (1, -1)],
            Piece::Pawn(Color::White) => vec![(-1i8, 0i8), (-2, 0), (-1, -1), (-1, 1)],
            Piece::Knight(_) => vec![(2i8, 1i8), (2, -1), (-2, 1), (-2, -1), (1, 2), (1, -2), (-1, 2), (-1, -2)],
            Piece::Bishop(_) => vec![(1i8, 1i8), (-1, 1), (-1, -1), (1, -1)],
            Piece::Rook(_) => vec![(1i8, 0i8), (0, 1), (-1, 0), (0, -1)],
            Piece::Queen(_) | Piece::King(_) => vec![(1i8, 0i8), (1, 1), (1, -1), (0, 1), (-1, 1), (-1, 0), (-1, -1), (0, -1)],
        };
        assert(r@ =~= self.spec_directions());
        r
    }
}

} // verus!
