//! Making a move: the position that follows it.

use vstd::prelude::*;
use crate::board::{Board, CastlingRights, at, on_board};
use crate::chess_move::Move;
use crate::color::Color;
use crate::fen::fen_text;
use crate::piece::Piece;
use crate::square::SquareCoords;

verus! {

/// The move starts or ends on square (r, c).
pub open spec fn touches(m: Move, r: usize, c: usize) -> bool {
    m.src_square == Some(SquareCoords(r, c)) || m.dst_square == Some(SquareCoords(r, c))
}

impl Board {
    /// The mover's king moves: a castle or a king move.
    pub open spec fn king_moves(self, m: Move) -> bool {
        m.castle is Some || m.piece == Some(Piece::King(self.active_color))
    }

    /// Castling rights after the move: a king move of a color revokes both of
    /// its rights; a move from or to a rook's home corner revokes that right.
    pub open spec fn rights_after(self, m: Move) -> CastlingRights {
        let r = self.castle_rights;
        let white_king = self.king_moves(m) && self.active_color == Color::White;
        let black_king = self.king_moves(m) && self.active_color == Color::Black;
        CastlingRights {
            white_kingside: r.white_kingside && !white_king && !touches(m, 7, 7),
            white_queenside: r.white_queenside && !white_king && !touches(m, 7, 0),
            black_kingside: r.black_kingside && !black_king && !touches(m, 0, 7),
            black_queenside: r.black_queenside && !black_king && !touches(m, 0, 0),
        }
    }

    /// A pawn of the mover's opponent stands on (r, c).
    pub open spec fn enemy_pawn_at(self, r: int, c: int) -> bool {
        on_board(r, c) && at(self.grid(), r, c) == Some(Piece::Pawn(self.active_color.spec_invert()))
    }

    /// The move is a pawn's double step.
    pub open spec fn is_double_step(self, m: Move) -> bool {
        m.castle is None && m.piece == Some(Piece::Pawn(self.active_color)) && m.src_square is Some
            && m.dst_square is Some && ((m.src_square->0).0 as int - (m.dst_square->0).0 as int == 2
            || (m.dst_square->0).0 as int - (m.src_square->0).0 as int == 2)
    }

    /// En passant target after the move: the square that a double-stepping
    /// pawn passed over, when an enemy pawn stands beside its destination.
    pub open spec fn en_passant_after(self, m: Move) -> Option<SquareCoords> {
        if self.is_double_step(m) && (self.enemy_pawn_at(m.dst_row(), m.dst_col() - 1)
            || self.enemy_pawn_at(m.dst_row(), m.dst_col() + 1)) {
            Some(SquareCoords(
                (((m.src_square->0).0 + (m.dst_square->0).0) / 2) as usize,
                (m.dst_square->0).1,
            ))
        } else {
            None
        }
    }

    /// Half-move clock after the move: 0 after a pawn move or a capture, one
    /// more otherwise (held at the largest value).
    pub open spec fn halfmove_after(self, m: Move) -> u32 {
        if m.piece == Some(Piece::Pawn(self.active_color)) || m.capture {
            0
        } else if self.halfmove_clock < u32::MAX {
            (self.halfmove_clock + 1) as u32
        } else {
            self.halfmove_clock
        }
    }

    /// Full-move number after the move: one more after Black's move.
    pub open spec fn fullmove_after(self) -> u32 {
        if self.active_color == Color::Black && self.fullmove_number < u32::MAX {
            (self.fullmove_number + 1) as u32
        } else {
            self.fullmove_number
        }
    }

    /// `after` is this position with the move `m` made.
    pub open spec fn moved_to(self, m: Move, after: Board) -> bool {
        &&& after.squares@ == self.grid_after(m)
        &&& after.active_color == self.active_color.spec_invert()
        &&& after.castle_rights == self.rights_after(m)
        &&& after.en_passant_target == self.en_passant_after(m)
        &&& after.halfmove_clock == self.halfmove_after(m)
        &&& after.fullmove_number == self.fullmove_after()
        &&& after.position_history@.len() == self.position_history@.len() + 1
        &&& after.position_history@.subrange(0, self.position_history@.len() as int)
            == self.position_history@
        &&& after.position_history@.last()@ == fen_text(after)
    }

    /// Applies a move to the position. The move is taken as given: callers
    /// check first that it is legal.
    pub fn apply_move(&mut self, m: &Move)
        requires
            old(self).wf(),
            m.well_formed(),
            m.castle is None ==> m.piece is Some,
        ensures
            final(self).wf(),
            old(self).moved_to(*m, *final(self)),
    {
        let ghost before = *self;
        let new_squares = self.grid_after_move(m);
        let c = self.active_color;
        let new_ep = self.next_en_passant(m);
        let new_rights = self.next_rights(m);
        let pawn_or_capture = m.piece == Some(Piece::Pawn(c)) || m.capture;
        self.halfmove_clock = if pawn_or_capture {
            0
        } else if self.halfmove_clock < u32::MAX {
            self.halfmove_clock + 1
        } else {
            self.halfmove_clock
        };
        if c == Color::Black && self.fullmove_number < u32::MAX {
            self.fullmove_number = self.fullmove_number + 1;
        }
        self.squares = new_squares;
        self.castle_rights = new_rights;
        self.en_passant_target = new_ep;
        self.active_color = c.invert();
        let fen = self.fen();
        self.position_history.push(fen);
        assert(self.position_history@.subrange(0, before.position_history@.len() as int)
            =~= before.position_history@);
    }

    /// Computes the castling rights after the move.
    fn next_rights(&self, m: &Move) -> (r: CastlingRights)
        ensures
            r == self.rights_after(*m),
    {
        let c = self.active_color;
        let king_moves = m.castle.is_some() || m.piece == Some(Piece::King(c));
        let white_king = king_moves && c == Color::White;
        let black_king = king_moves && c == Color::Black;
        let r = self.castle_rights;
        CastlingRights {
            white_kingside: r.white_kingside && !white_king && !touches_square(m, 7, 7),
            white_queenside: r.white_queenside && !white_king && !touches_square(m, 7, 0),
            black_kingside: r.black_kingside && !black_king && !touches_square(m, 0, 7),
            black_queenside: r.black_queenside && !black_king && !touches_square(m, 0, 0),
        }
    }

    /// Tells whether an enemy pawn stands on (r, c), given as signed values.
    fn has_enemy_pawn(&self, r: i32, c: i32) -> (b: bool)
        ensures
            b == self.enemy_pawn_at(r as int, c as int),
    {
        if r < 0 || r >= 8 || c < 0 || c >= 8 {
            return false;
        }
        self.squares[(r * 8 + c) as usize] == Some(Piece::Pawn(self.active_color.invert()))
    }

    /// Computes the en passant target after the move.
    fn next_en_passant(&self, m: &Move) -> (r: Option<SquareCoords>)
        requires
            m.well_formed(),
        ensures
            r == self.en_passant_after(*m),
            r is Some ==> r->0.wf(),
    {
        if m.castle.is_some() || m.piece != Some(Piece::Pawn(self.active_color)) {
            return None;
        }
        let s = m.src_square.unwrap();
        let d = m.dst_square.unwrap();
        if !(s.0 == d.0 + 2 || d.0 == s.0 + 2) {
            return None;
        }
        let (dr, dc) = (d.0 as i32, d.1 as i32);
        if self.has_enemy_pawn(dr, dc - 1) || self.has_enemy_pawn(dr, dc + 1) {
            Some(SquareCoords((s.0 + d.0) / 2, d.1))
        } else {
            None
        }
    }
}

/// The move starts or ends on square (r, c).
fn touches_square(m: &Move, r: usize, c: usize) -> (b: bool)
    ensures
        b == touches(*m, r, c),
{
    m.src_square == Some(SquareCoords(r, c)) || m.dst_square == Some(SquareCoords(r, c))
}

} // verus!
