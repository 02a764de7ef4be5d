//! The record of a move and its UCI text.

use vstd::prelude::*;
use crate::castle::{CastleKind, castle_uci};
use crate::color::Color;
use crate::piece::{Piece, lower_of_kind};
use crate::square::SquareCoords;

verus! {

/// A chess move.
///
/// A castle has no piece and no squares; any other move names the moving
/// piece, its source and its destination.
#[derive(Debug, Clone, Copy, PartialEq, Eq, Structural)]
pub struct Move {
    /// Piece to move; `None` for a castle.
    pub piece: Option<Piece>,
    /// Color of the player making the move.
    pub color: Color,
    /// Source square of the moving piece.
    pub src_square: Option<SquareCoords>,
    /// Destination square of the moving piece.
    pub dst_square: Option<SquareCoords>,
    /// Castle kind, for a castle.
    pub castle: Option<CastleKind>,
    /// Piece that a pawn promotes to.
    pub promotion: Option<Piece>,
    /// The move captures a piece.
    pub capture: bool,
}

impl Move {
    /// The record is a castle, or names two squares on the board.
    pub open spec fn well_formed(self) -> bool {
        self.castle is Some || (self.src_square is Some && self.dst_square is Some
            && self.src_square->0.wf() && self.dst_square->0.wf())
    }

    /// Row of the destination square.
    pub open spec fn dst_row(self) -> int {
        (self.dst_square->0).0 as int
    }

    /// Column of the destination square.
    pub open spec fn dst_col(self) -> int {
        (self.dst_square->0).1 as int
    }

    /// The UCI text of the move: a castle as the king's move ("e1g1");
    /// otherwise source, '-', destination and the promotion letter.
    pub open spec fn uci(self) -> Seq<char> {
        if self.castle is Some {
            castle_uci(self.castle->0, self.color)
        } else {
            let base = self.src_square->0.name() + seq!['-'] + self.dst_square->0.name();
            if self.promotion is Some {
                base.push(lower_of_kind(self.promotion->0.spec_kind()))
            } else {
                base
            }
        }
    }

    /// Returns the UCI text of the move ("e2-e4", "e7-e8q", "e1g1").
    pub fn to_uci_str(&self) -> (r: String)
        requires
            self.well_formed(),
        ensures
            r@ == self.uci(),
    {
        let v = self.to_uci_chars();
        crate::text::string_of(&v)
    }

    /// The UCI text of the move as characters.
    pub fn to_uci_chars(&self) -> (r: Vec<char>)
        requires
            self.well_formed(),
        ensures
            r@ == self.uci(),
    {
        match self.castle {
            Some(kind) => kind.to_uci_chars(self.color),
            None => {
                let src = self.src_square.unwrap();
                let dst = self.dst_square.unwrap();
                let mut r = src.to_chars();
                r.push('-');
                let d = dst.to_chars();
                crate::text::extend_chars(&mut r, &d);
                if let Some(p) = self.promotion {
                    r.push(p.to_uci_char());
                }
                r
            },
        }
    }
}

} // verus!
