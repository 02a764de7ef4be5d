//! What makes a move legal, and the grid that a move leaves.

use vstd::prelude::*;
use crate::board::{Board, at, attacked_by, attacks, color_at, forward, king_attacked};
use crate::castle::{CastleKind, right_for};
use crate::chess_move::Move;
use crate::color::Color;
use crate::piece::Piece;
use crate::square::SquareCoords;

verus! {

/// Row from which a pawn of this color may double-step.
pub open spec fn home_row(c: Color) -> int {
    match c {
        Color::White => 6,
        Color::Black => 1,
    }
}

/// Row on which a pawn of this color promotes.
pub open spec fn last_row(c: Color) -> int {
    match c {
        Color::White => 0,
        Color::Black => 7,
    }
}

/// Row on which the king and rooks of this color start.
pub open spec fn back_row(c: Color) -> int {
    match c {
        Color::White => 7,
        Color::Black => 0,
    }
}

pub open spec fn is_promotion_piece(p: Piece, c: Color) -> bool {
    p == Piece::Queen(c) || p == Piece::Rook(c) || p == Piece::Bishop(c) || p == Piece::Knight(c)
}

pub open spec fn sq_at(g: Seq<Option<Piece>>, s: SquareCoords) -> Option<Piece> {
    at(g, s.0 as int, s.1 as int)
}

/// The grid after moving the king and the rook of a castle.
pub open spec fn castled_grid(g: Seq<Option<Piece>>, c: Color, k: CastleKind) -> Seq<Option<Piece>> {
    let row = back_row(c);
    match k {
        CastleKind::Kingside => g.update(row * 8 + 4, None).update(row * 8 + 7, None).update(
            row * 8 + 6,
            Some(Piece::King(c)),
        ).update(row * 8 + 5, Some(Piece::Rook(c))),
        CastleKind::Queenside => g.update(row * 8 + 4, None).update(row * 8 + 0, None).update(
            row * 8 + 2,
            Some(Piece::King(c)),
        ).update(row * 8 + 3, Some(Piece::Rook(c))),
    }
}

impl Board {
    pub open spec fn grid(self) -> Seq<Option<Piece>> {
        self.squares@
    }

    /// A pawn moving diagonally onto the empty en passant target, beside
    /// which (on the pawn's own row) stands an enemy pawn.
    pub open spec fn is_en_passant(self, p: Piece, s: SquareCoords, d: SquareCoords) -> bool {
        p is Pawn && self.en_passant_target == Some(d) && s.1 != d.1 && sq_at(self.grid(), d) is None
            && sq_at(self.grid(), SquareCoords(s.0, d.1)) == Some(Piece::Pawn(self.active_color.spec_invert()))
    }

    /// Moving `p` from `s` to `d` takes a piece.
    pub open spec fn capture_flag(self, p: Piece, s: SquareCoords, d: SquareCoords) -> bool {
        sq_at(self.grid(), d) is Some || self.is_en_passant(p, s, d)
    }

    /// The record of the move of `p` from `s` to `d`.
    pub open spec fn spec_move(self, p: Piece, s: SquareCoords, d: SquareCoords, promotion: Option<Piece>) -> Move {
        Move {
            piece: Some(p),
            color: self.active_color,
            src_square: Some(s),
            dst_square: Some(d),
            castle: None,
            promotion: promotion,
            capture: self.capture_flag(p, s, d),
        }
    }

    /// The record of a castle of the player to move.
    pub open spec fn castle_move(self, k: CastleKind) -> Move {
        Move {
            piece: None,
            color: self.active_color,
            src_square: None,
            dst_square: None,
            castle: Some(k),
            promotion: None,
            capture: false,
        }
    }

    /// A pawn of the player to move on `s` may go to `d`: one step forward to
    /// an empty square, two steps from its home row over two empty squares,
    /// or one step diagonally forward onto an enemy piece or the empty en
    /// passant target.
    pub open spec fn pawn_step(self, s: SquareCoords, d: SquareCoords) -> bool {
        let g = self.grid();
        let c = self.active_color;
        let f = forward(c);
        let (sr, sc, dr, dc) = (s.0 as int, s.1 as int, d.0 as int, d.1 as int);
        d.wf() && ((dc == sc && dr == sr + f && at(g, dr, dc) is None) || (dc == sc && sr
            == home_row(c) && dr == sr + 2 * f && at(g, sr + f, sc) is None && at(g, dr, dc) is None)
            || (dr == sr + f && (dc == sc + 1 || dc == sc - 1) && (color_at(g, dr, dc, c.spec_invert())
            || (at(g, dr, dc) is None && self.en_passant_target == Some(d) && at(g, sr, dc)
            == Some(Piece::Pawn(c.spec_invert()))))))
    }

    /// A pawn reaching its last row names the piece it becomes; no other move
    /// names one.
    pub open spec fn promotion_ok(self, d: SquareCoords, promotion: Option<Piece>) -> bool {
        if d.0 as int == last_row(self.active_color) {
            promotion is Some && is_promotion_piece(promotion->0, self.active_color)
        } else {
            promotion is None
        }
    }

    /// A move of a piece by its movement rules, ignoring the safety of the
    /// mover's king.
    pub open spec fn pseudo_legal(self, m: Move) -> bool {
        &&& m.castle is None
        &&& m.piece is Some
        &&& m.src_square is Some
        &&& m.dst_square is Some
        &&& {
            let p = m.piece->0;
            let s = m.src_square->0;
            let d = m.dst_square->0;
            &&& s.wf()
            &&& d.wf()
            &&& sq_at(self.grid(), s) == Some(p)
            &&& p.spec_color() == self.active_color
            &&& m == self.spec_move(p, s, d, m.promotion)
            &&& !color_at(self.grid(), d.0 as int, d.1 as int, self.active_color)
            &&& if p is Pawn {
                self.pawn_step(s, d) && self.promotion_ok(d, m.promotion)
            } else {
                m.promotion is None && attacks(self.grid(), p, s.0 as int, s.1 as int, d.0 as int, d.1 as int)
            }
        }
    }

    /// The grid after a move: a castle moves king and rook; otherwise an en
    /// passant capture removes the pawn beside the source, the destination gets
    /// the moving (or promoted) piece and the source is emptied.
    pub open spec fn grid_after(self, m: Move) -> Seq<Option<Piece>> {
        if m.castle is Some {
            castled_grid(self.grid(), self.active_color, m.castle->0)
        } else {
            let p = m.piece->0;
            let s = m.src_square->0;
            let d = m.dst_square->0;
            let g1 = if self.is_en_passant(p, s, d) {
                self.grid().update(s.0 * 8 + d.1, None)
            } else {
                self.grid()
            };
            let placed = if m.promotion is Some {
                m.promotion
            } else {
                m.piece
            };
            g1.update(d.index(), placed).update(s.index(), None)
        }
    }

    /// After the move, no king of the mover stands attacked.
    pub open spec fn leaves_king_safe(self, m: Move) -> bool {
        !king_attacked(self.grid_after(m), self.active_color)
    }

    /// The player to move may castle on side `k`: the right is held, king and
    /// rook stand on their home squares, the squares between them are empty,
    /// neither the king's square nor the squares it crosses are attacked, and
    /// the king stands safe once castled.
    pub open spec fn can_castle(self, k: CastleKind) -> bool {
        let g = self.grid();
        let c = self.active_color;
        let o = c.spec_invert();
        let row = back_row(c);
        &&& self.castle_rights.holds(right_for(c, k))
        &&& at(g, row, 4) == Some(Piece::King(c))
        &&& !attacked_by(g, row, 4, o)
        &&& !king_attacked(castled_grid(g, c, k), c)
        &&& match k {
            CastleKind::Kingside => at(g, row, 7) == Some(Piece::Rook(c)) && at(g, row, 5) is None
                && at(g, row, 6) is None && !attacked_by(g, row, 5, o) && !attacked_by(g, row, 6, o),
            CastleKind::Queenside => at(g, row, 0) == Some(Piece::Rook(c)) && at(g, row, 1) is None
                && at(g, row, 2) is None && at(g, row, 3) is None && !attacked_by(g, row, 3, o)
                && !attacked_by(g, row, 2, o),
        }
    }

    /// A legal move of the player to move.
    pub open spec fn is_legal(self, m: Move) -> bool {
        (self.pseudo_legal(m) && self.leaves_king_safe(m)) || (m.castle is Some && m
            == self.castle_move(m.castle->0) && self.can_castle(m.castle->0))
    }

    /// Builds the record of the move of `p` from `s` to `d`.
    pub fn move_to(&self, p: Piece, s: SquareCoords, d: SquareCoords, promotion: Option<Piece>) -> (m: Move)
        requires
            s.wf(),
            d.wf(),
        ensures
            m == self.spec_move(p, s, d, promotion),
    {
        let target = self.squares[d.0 * 8 + d.1];
        let en_passant = match p {
            Piece::Pawn(_) => self.en_passant_target == Some(d) && s.1 != d.1 && target.is_none()
                && self.squares[s.0 * 8 + d.1] == Some(Piece::Pawn(self.active_color.invert())),
            _ => false,
        };
        Move {
            piece: Some(p),
            color: self.active_color,
            src_square: Some(s),
            dst_square: Some(d),
            castle: None,
            promotion: promotion,
            capture: target.is_some() || en_passant,
        }
    }

    /// The grid after the move, computed on a copy; the board is not changed.
    pub fn grid_after_move(&self, m: &Move) -> (g: [Option<Piece>; 64])
        requires
            m.well_formed(),
            m.castle is None ==> m.piece is Some,
        ensures
            g@ == self.grid_after(*m),
    {
        let mut g = self.squares;
        match m.castle {
            Some(k) => {
                let c = self.active_color;
                let row: usize = match c {
                    Color::White => 7,
                    Color::Black => 0,
                };
                match k {
                    CastleKind::Kingside => {
                        g.set(row * 8 + 4, None);
                        g.set(row * 8 + 7, None);
                        g.set(row * 8 + 6, Some(Piece::King(c)));
                        g.set(row * 8 + 5, Some(Piece::Rook(c)));
                    },
                    CastleKind::Queenside => {
                        g.set(row * 8 + 4, None);
                        g.set(row * 8 + 0, None);
                        g.set(row * 8 + 2, Some(Piece::King(c)));
                        g.set(row * 8 + 3, Some(Piece::Rook(c)));
                    },
                }
            },
            None => {
                let p = m.piece.unwrap();
                let s = m.src_square.unwrap();
                let d = m.dst_square.unwrap();
                let en_passant = match p {
                    Piece::Pawn(_) => self.en_passant_target == Some(d) && s.1 != d.1
                        && self.squares[d.0 * 8 + d.1].is_none()
                        && self.squares[s.0 * 8 + d.1] == Some(Piece::Pawn(self.active_color.invert())),
                    _ => false,
                };
                if en_passant {
                    g.set(s.0 * 8 + d.1, None);
                }
                let placed = if m.promotion.is_some() {
                    m.promotion
                } else {
                    m.piece
                };
                g.set(d.0 * 8 + d.1, placed);
                g.set(s.0 * 8 + s.1, None);
            },
        }
        g
    }

    /// Tells whether the move would leave a king of the mover attacked.
    pub fn future_check(&self, m: &Move) -> (b: bool)
        requires
            m.well_formed(),
            m.castle is None ==> m.piece is Some,
        ensures
            b == !self.leaves_king_safe(*m),
    {
        let g = self.grid_after_move(m);
        crate::board::king_in_check(&g, self.active_color)
    }
}

} // verus!
