//! Castling sides and castling rights, with their notations.

use vstd::prelude::*;
use crate::color::Color;

verus! {

/// The side on which a king castles.
#[derive(Debug, Clone, Copy, PartialEq, Eq, Structural)]
pub enum CastleKind {
    Kingside,
    Queenside,
}

/// One of the four castling rights.
#[derive(Debug, Clone, Copy, PartialEq, Eq, Structural)]
pub enum CastleRights {
    WhiteKingside,
    WhiteQueenside,
    BlackKingside,
    BlackQueenside,
}

pub open spec fn right_for(color: Color, kind: CastleKind) -> CastleRights {
    match (color, kind) {
        (Color::White, CastleKind::Kingside) => CastleRights::WhiteKingside,
        (Color::White, CastleKind::Queenside) => CastleRights::WhiteQueenside,
        (Color::Black, CastleKind::Kingside) => CastleRights::BlackKingside,
        (Color::Black, CastleKind::Queenside) => CastleRights::BlackQueenside,
    }
}

pub open spec fn right_of_fen(c: char) -> Option<CastleRights> {
    if c == 'K' { Some(CastleRights::WhiteKingside) }
    else if c == 'Q' { Some(CastleRights::WhiteQueenside) }
    else if c == 'k' { Some(CastleRights::BlackKingside) }
    else if c == 'q' { Some(CastleRights::BlackQueenside) }
    else { None }
}

pub open spec fn fen_of_right(r: CastleRights) -> char {
    match r {
        CastleRights::WhiteKingside => 'K',
        CastleRights::WhiteQueenside => 'Q',
        CastleRights::BlackKingside => 'k',
        CastleRights::BlackQueenside => 'q',
    }
}

pub open spec fn is_kingside_token(s: Seq<char>) -> bool {
    s == seq!['O', '-', 'O'] || s == seq!['0', '-', '0'] || s == seq!['o', '-', 'o']
}

pub open spec fn is_queenside_token(s: Seq<char>) -> bool {
    s == seq!['O', '-', 'O', '-', 'O'] || s == seq!['0', '-', '0', '-', '0']
        || s == seq!['o', '-', 'o', '-', 'o']
}

/// The UCI text of a castle ("e1g1" and the like).
pub open spec fn castle_uci(kind: CastleKind, color: Color) -> Seq<char> {
    let rank = match color {
        Color::White => '1',
        Color::Black => '8',
    };
    let file = match kind {
        CastleKind::Kingside => 'g',
        CastleKind::Queenside => 'c',
    };
    seq!['e', rank, file, rank]
}

/// The castle that a UCI text names, with or without a dash.
pub open spec fn castle_of_uci(s: Seq<char>) -> Option<CastleKind> {
    if s == castle_uci(CastleKind::Kingside, Color::White)
        || s == castle_uci(CastleKind::Kingside, Color::Black)
        || s == seq!['e', '1', '-', 'g', '1'] || s == seq!['e', '8', '-', 'g', '8'] {
        Some(CastleKind::Kingside)
    } else if s == castle_uci(CastleKind::Queenside, Color::White)
        || s == castle_uci(CastleKind::Queenside, Color::Black)
        || s == seq!['e', '1', '-', 'c', '1'] || s == seq!['e', '8', '-', 'c', '8'] {
        Some(CastleKind::Queenside)
    } else {
        None
    }
}

impl CastleKind {
    /// Reads a castle from SAN: "O-O", "0-0" or "o-o" for kingside and the
    /// three-part forms for queenside.
    pub fn from_san_str(s: &str) -> (r: Option<CastleKind>)
        ensures
            r == (if is_kingside_token(s@) {
                Some(CastleKind::Kingside)
            } else if is_queenside_token(s@) {
                Some(CastleKind::Queenside)
            } else {
                None::<CastleKind>
            }),
    {
        let v = crate::text::chars_of(s);
        Self::from_san_chars(&v)
    }

    /// Reads a castle from SAN given as characters.
    pub fn from_san_chars(v: &Vec<char>) -> (r: Option<CastleKind>)
        ensures
            r == (if is_kingside_token(v@) {
                Some(CastleKind::Kingside)
            } else if is_queenside_token(v@) {
                Some(CastleKind::Queenside)
            } else {
                None::<CastleKind>
            }),
    {
        if crate::text::same_chars(v, &vec!['O', '-', 'O']) || crate::text::same_chars(v, &vec!['0', '-', '0'])
            || crate::text::same_chars(v, &vec!['o', '-', 'o']) {
            Some(CastleKind::Kingside)
        } else if crate::text::same_chars(v, &vec!['O', '-', 'O', '-', 'O'])
            || crate::text::same_chars(v, &vec!['0', '-', '0', '-', '0'])
            || crate::text::same_chars(v, &vec!['o', '-', 'o', '-', 'o']) {
            Some(CastleKind::Queenside)
        } else {
            None
        }
    }

    /// Reads a castle from the UCI moves of a king from e1 or e8 to the g or
    /// c file, with or without a dash.
    pub fn from_uci_str(uci: &str) -> (r: Option<CastleKind>)
        ensures
            r == castle_of_uci(uci@),
    {
        let v = crate::text::chars_of(uci);
        if crate::text::same_chars(&v, &vec!['e', '1', 'g', '1']) || crate::text::same_chars(&v, &vec!['e', '8', 'g', '8'])
            || crate::text::same_chars(&v, &vec!['e', '1', '-', 'g', '1'])
            || crate::text::same_chars(&v, &vec!['e', '8', '-', 'g', '8']) {
            Some(CastleKind::Kingside)
        } else if crate::text::same_chars(&v, &vec!['e', '1', 'c', '1']) || crate::text::same_chars(&v, &vec!['e', '8', 'c', '8'])
            || crate::text::same_chars(&v, &vec!['e', '1', '-', 'c', '1'])
            || crate::text::same_chars(&v, &vec!['e', '8', '-', 'c', '8']) {
            Some(CastleKind::Queenside)
        } else {
            None
        }
    }

    /// The SAN text of the castle.
    pub fn to_san_str(&self) -> (r: String)
        ensures
            r@ == (match self {
                CastleKind::Kingside => seq!['O', '-', 'O'],
                CastleKind::Queenside => seq!['O', '-', 'O', '-', 'O'],
            }),
    {
        let v = match self {
            CastleKind::Kingside => vec!['O', '-', 'O'],
            CastleKind::Queenside => vec!['O', '-', 'O', '-', 'O'],
        };
        crate::text::string_of(&v)
    }

    /// The UCI text of the castle for a player of the given color.
    pub fn to_uci_str(&self, color: &Color) -> (r: String)
        ensures
            r@ == castle_uci(*self, *color),
    {
        let v = self.to_uci_chars(*color);
        crate::text::string_of(&v)
    }

    /// The UCI text of the castle as characters.
    pub fn to_uci_chars(&self, color: Color) -> (r: Vec<char>)
        ensures
            r@ == castle_uci(*self, color),
    {
        let rank = match color {
            Color::White => '1',
            Color::Black => '8',
        };
        let file = match self {
            CastleKind::Kingside => 'g',
            CastleKind::Queenside => 'c',
        };
        let r = vec!['e', rank, file, rank];
        assert(r@ =~= castle_uci(*self, color));
        r
    }
}

impl CastleRights {
    /// Tries to read a castling right from its FEN letter.
    pub fn from_fen_char(c: char) -> (r: Option<CastleRights>)
        ensures
            r == right_of_fen(c),
    {
        match c {
            'K' => Some(CastleRights::WhiteKingside),
            'Q' => Some(CastleRights::WhiteQueenside),
            'k' => Some(CastleRights::BlackKingside),
            'q' => Some(CastleRights::BlackQueenside),
            _ => None,
        }
    }

    /// The FEN letter of the castling right.
    pub fn to_fen_char(&self) -> (r: char)
        ensures
            r == fen_of_right(*self),
            right_of_fen(r) == Some(*self),
    {
        match self {
            CastleRights::WhiteKingside => 'K',
            CastleRights::WhiteQueenside => 'Q',
            CastleRights::BlackKingside => 'k',
            CastleRights::BlackQueenside => 'q',
        }
    }
}

} // verus!
