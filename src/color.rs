//! The two sides of a game.

use vstd::prelude::*;

verus! {

/// The color of a piece or of a player.
#[derive(Debug, Clone, Copy, PartialEq, Eq, Structural)]
pub enum Color {
    White,
    Black,
}

impl Color {
    pub open spec fn spec_invert(self) -> Color {
        match self {
            Color::White => Color::Black,
            Color::Black => Color::White,
        }
    }

    pub open spec fn spec_fen_char(self) -> char {
        match self {
            Color::White => 'w',
            Color::Black => 'b',
        }
    }

    /// Returns the FEN letter of the color.
    pub fn to_fen_char(self) -> (r: char)
        ensures
            r == self.spec_fen_char(),
    {
        match self {
            Color::White => 'w',
            Color::Black => 'b',
        }
    }

    /// Returns the other color.
    pub fn invert(&self) -> (r: Color)
        ensures
            r == self.spec_invert(),
    {
        match self {
            Color::White => Color::Black,
            Color::Black => Color::White,
        }
    }
}

} // verus!
