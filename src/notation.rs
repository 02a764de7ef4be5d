//! Reading moves in UCI and SAN notation, and making them.

use vstd::prelude::*;
use crate::board::Board;
use crate::castle::{CastleKind, castle_of_uci};
use crate::chess_move::Move;
use crate::piece::{Piece, PieceKind, kind_of_lower, make_piece};
use crate::rules::sq_at;
use crate::square::{SquareCoords, square_of_chars};
use crate::san::{SanPattern, parse_san_pattern, pattern, san_pattern};

verus! {

/// A promotion letter of UCI text.
pub open spec fn uci_promotion_letter(c: char) -> bool {
    c == 'q' || c == 'r' || c == 'b' || c == 'n'
}

/// The squares and promotion letter of UCI text: two square names, with or
/// without a dash between them, and an optional lower-case promotion letter.
pub open spec fn uci_parts(s: Seq<char>) -> Option<(SquareCoords, SquareCoords, Option<char>)> {
    let dash = s.len() >= 3 && s[2] == '-';
    let off: int = if dash { 1 } else { 0 };
    if s.len() < 4 + off || s.len() > 5 + off {
        None
    } else if square_of_chars(s[0], s[1]) is None || square_of_chars(s[2 + off], s[3 + off]) is None {
        None
    } else if s.len() == 5 + off && !uci_promotion_letter(s[4 + off]) {
        None
    } else {
        Some((
            square_of_chars(s[0], s[1])->0,
            square_of_chars(s[2 + off], s[3 + off])->0,
            if s.len() == 5 + off { Some(s[4 + off]) } else { None },
        ))
    }
}

impl Board {
    /// The move that UCI text names in this position: a castle when the text
    /// is a king's castling move and the player's king stands on the source;
    /// otherwise the move of the piece on the source square. `None` when the
    /// text is malformed or the source square is empty.
    pub open spec fn uci_move(self, s: Seq<char>) -> Option<Move> {
        let parts = uci_parts(s);
        if parts is None {
            None
        } else {
            let (src, dst, promo) = parts->0;
            let p = sq_at(self.grid(), src);
            if castle_of_uci(s) is Some && p == Some(Piece::King(self.active_color)) {
                Some(self.castle_move(castle_of_uci(s)->0))
            } else if p is None {
                None
            } else {
                Some(self.spec_move(p->0, src, dst, if promo is Some {
                    Some(make_piece(kind_of_lower(promo->0)->0, self.active_color))
                } else {
                    None
                }))
            }
        }
    }
}

impl Move {
    /// Reads a move in UCI notation ("e2e4", "e2-e4", "e7e8q") against a
    /// position; legality is not checked.
    pub fn from_uci(uci_str: &str, board: &Board) -> (r: Option<Move>)
        ensures
            r == board.uci_move(uci_str@),
            r is Some ==> r->0.well_formed() && (r->0.castle is None ==> r->0.piece is Some),
    {
        let s = crate::text::chars_of(uci_str);
        let dash = s.len() >= 3 && s[2] == '-';
        let off: usize = if dash { 1 } else { 0 };
        if s.len() < 4 + off || s.len() > 5 + off {
            return None;
        }
        let src = match crate::square::square_from_chars(s[0], s[1]) {
            Some(x) => x,
            None => {
                return None;
            },
        };
        let dst = match crate::square::square_from_chars(s[2 + off], s[3 + off]) {
            Some(x) => x,
            None => {
                return None;
            },
        };
        let promo: Option<char> = if s.len() == 5 + off {
            let c = s[4 + off];
            if !(c == 'q' || c == 'r' || c == 'b' || c == 'n') {
                return None;
            }
            Some(c)
        } else {
            None
        };
        let p = board.squares[src.0 * 8 + src.1];
        let castle = CastleKind::from_uci_str(uci_str);
        if castle.is_some() && p == Some(Piece::King(board.active_color)) {
            return Some(board.castle_record(castle.unwrap()));
        }
        match p {
            None => None,
            Some(piece) => {
                let promotion = match promo {
                    Some(c) => Piece::from_uci_char(c, board.active_color),
                    None => None,
                };
                Some(board.move_to(piece, src, dst, promotion))
            },
        }
    }
}

} // verus!

verus! {

/// Why a SAN text names no move.
#[derive(Debug, Clone, Copy, PartialEq, Eq, Structural)]
pub enum SanError {
    /// The text has none of the SAN shapes.
    Malformed,
    /// No legal move fits the text.
    NoMove,
    /// More than one legal move fits the text.
    Ambiguous,
}

impl Board {
    /// The move `m` fits the SAN shape `p` in this position.
    pub open spec fn matches_pattern(self, p: SanPattern, m: Move) -> bool {
        if p.castle is Some {
            m == self.castle_move(p.castle->0)
        } else {
            &&& m.castle is None
            &&& m.piece == Some(make_piece(p.kind, self.active_color))
            &&& m.dst_square == Some(p.dst)
            &&& m.src_square is Some
            &&& (p.from_row is None || (m.src_square->0).0 == p.from_row->0)
            &&& (p.from_col is None || (m.src_square->0).1 == p.from_col->0)
            &&& if p.promotion is Some {
                m.promotion == Some(make_piece(p.promotion->0, self.active_color))
            } else {
                m.promotion is None
            }
        }
    }

    /// A legal move fitting the shape.
    pub open spec fn san_candidate(self, p: SanPattern, m: Move) -> bool {
        self.is_legal(m) && self.matches_pattern(p, m)
    }

    /// `m` is the one legal move fitting the shape.
    pub open spec fn pattern_resolves_to(self, p: SanPattern, m: Move) -> bool {
        &&& self.san_candidate(p, m)
        &&& forall|m2: Move| #[trigger] self.san_candidate(p, m2) ==> m2 == m
    }

    /// The SAN text names exactly the legal move `m`: it has a SAN shape and
    /// `m` is the one legal move fitting it.
    pub open spec fn san_resolves_to(self, s: Seq<char>, m: Move) -> bool {
        &&& san_pattern(s) is Some
        &&& self.san_candidate(san_pattern(s)->0, m)
        &&& forall|m2: Move| #[trigger] self.san_candidate(san_pattern(s)->0, m2) ==> m2 == m
    }

    /// The UCI text names a legal move.
    pub open spec fn uci_legal(self, s: Seq<char>) -> bool {
        self.uci_move(s) is Some && self.is_legal(self.uci_move(s)->0)
    }

    /// Tells whether the move fits the SAN shape.
    fn fits(&self, p: &SanPattern, m: &Move) -> (r: bool)
        ensures
            r == self.matches_pattern(*p, *m),
    {
        match p.castle {
            Some(k) => *m == self.castle_record(k),
            None => {
                if m.castle.is_some() || m.dst_square != Some(p.dst) {
                    return false;
                }
                let piece = match p.kind {
                    PieceKind::Pawn => Piece::Pawn(self.active_color),
                    PieceKind::Knight => Piece::Knight(self.active_color),
                    PieceKind::Bishop => Piece::Bishop(self.active_color),
                    PieceKind::Rook => Piece::Rook(self.active_color),
                    PieceKind::Queen => Piece::Queen(self.active_color),
                    PieceKind::King => Piece::King(self.active_color),
                };
                if m.piece != Some(piece) {
                    return false;
                }
                let src = match m.src_square {
                    Some(x) => x,
                    None => {
                        return false;
                    },
                };
                if let Some(row) = p.from_row {
                    if src.0 != row {
                        return false;
                    }
                }
                if let Some(col) = p.from_col {
                    if src.1 != col {
                        return false;
                    }
                }
                match p.promotion {
                    Some(k) => {
                        let q = match k {
                            PieceKind::Pawn => Piece::Pawn(self.active_color),
                            PieceKind::Knight => Piece::Knight(self.active_color),
                            PieceKind::Bishop => Piece::Bishop(self.active_color),
                            PieceKind::Rook => Piece::Rook(self.active_color),
                            PieceKind::Queen => Piece::Queen(self.active_color),
                            PieceKind::King => Piece::King(self.active_color),
                        };
                        m.promotion == Some(q)
                    },
                    None => m.promotion.is_none(),
                }
            },
        }
    }

    /// Finds the one legal move that fits a SAN shape.
    pub fn resolve_pattern(&self, p: &SanPattern) -> (r: Result<Move, SanError>)
        ensures
            match r {
                Ok(m) => self.pattern_resolves_to(*p, m),
                Err(SanError::Malformed) => false,
                Err(SanError::NoMove) => forall|m: Move| !#[trigger] self.san_candidate(*p, m),
                Err(SanError::Ambiguous) => exists|m1: Move, m2: Move|
                    m1 != m2 && #[trigger] self.san_candidate(*p, m1) && #[trigger] self.san_candidate(*p, m2),
            },
    {
        let moves = self.legal_moves();
        let mut found: Option<Move> = None;
        let mut i: usize = 0;
        while i < moves.len()
            invariant
                i <= moves@.len(),
                forall|m: Move| #[trigger] moves@.contains(m) <==> self.is_legal(m),
                match found {
                    Some(f) => self.san_candidate(*p, f) && forall|k: int| 0 <= k < i
                        && #[trigger] self.matches_pattern(*p, moves@[k]) ==> moves@[k] == f,
                    None => forall|k: int| 0 <= k < i ==> !#[trigger] self.matches_pattern(*p, moves@[k]),
                },
            decreases moves.len() - i,
        {
            let m = moves[i];
            assert(moves@.contains(m));
            if self.fits(p, &m) {
                match found {
                    Some(f) => {
                        if !(f == m) {
                            assert(self.san_candidate(*p, f));
                            assert(self.san_candidate(*p, m));
                            return Err(SanError::Ambiguous);
                        }
                    },
                    None => {
                        found = Some(m);
                    },
                }
            }
            i = i + 1;
        }
        match found {
            Some(f) => {
                assert forall|m2: Move| #[trigger] self.san_candidate(*p, m2) implies m2 == f by {
                    assert(moves@.contains(m2));
                    let k = choose|k: int| 0 <= k < moves@.len() && moves@[k] == m2;
                    assert(self.matches_pattern(*p, moves@[k]));
                }
                Ok(f)
            },
            None => {
                assert forall|m2: Move| !#[trigger] self.san_candidate(*p, m2) by {
                    if self.san_candidate(*p, m2) {
                        assert(moves@.contains(m2));
                        let k = choose|k: int| 0 <= k < moves@.len() && moves@[k] == m2;
                        assert(self.matches_pattern(*p, moves@[k]));
                    }
                }
                Err(SanError::NoMove)
            },
        }
    }

    /// Finds the legal move that a SAN text names.
    pub fn resolve_san(&self, san: &str) -> (r: Result<Move, SanError>)
        ensures
            match r {
                Ok(m) => self.san_resolves_to(san@, m),
                Err(SanError::Malformed) => san_pattern(san@) is None,
                Err(SanError::NoMove) => san_pattern(san@) is Some && forall|m: Move|
                    !#[trigger] self.san_candidate(san_pattern(san@)->0, m),
                Err(SanError::Ambiguous) => san_pattern(san@) is Some && exists|m1: Move, m2: Move|
                    m1 != m2 && #[trigger] self.san_candidate(san_pattern(san@)->0, m1)
                        && #[trigger] self.san_candidate(san_pattern(san@)->0, m2),
            },
    {
        let chars = crate::text::chars_of(san);
        match parse_san_pattern(&chars) {
            Some(p) => self.resolve_pattern(&p),
            None => Err(SanError::Malformed),
        }
    }

    /// Tells whether the move is legal in this position.
    pub fn is_legal_move(&self, m: &Move) -> (r: bool)
        ensures
            r == self.is_legal(*m),
    {
        let moves = self.legal_moves();
        crate::movegen::holds_move(&moves, m)
    }

    /// Makes a move given in UCI notation ("e2e4" or "e2-e4"). When the text
    /// names no legal move, the position is left as it was and `None` comes
    /// back.
    pub fn make_uci_move(&mut self, uci_str: &str) -> (r: Option<Move>)
        requires
            old(self).wf(),
        ensures
            final(self).wf(),
            old(self).playable() ==> final(self).playable(),
            match r {
                Some(m) => old(self).uci_move(uci_str@) == Some(m) && old(self).is_legal(m)
                    && old(self).moved_to(m, *final(self)),
                None => *final(self) == *old(self) && !old(self).uci_legal(uci_str@),
            },
    {
        match Move::from_uci(uci_str, self) {
            Some(m) => {
                if self.is_legal_move(&m) {
                    let ghost before = *self;
                    self.apply_move(&m);
                    proof {
                        if before.playable() {
                            crate::laws::lemma_legal_move_keeps_play(before, m, *self);
                        }
                    }
                    Some(m)
                } else {
                    None
                }
            },
            None => None,
        }
    }

    /// Makes a move given in standard algebraic notation ("Nf3", "exd5",
    /// "O-O"). When the text names no legal move, or more than one, the
    /// position is left as it was and `None` comes back.
    pub fn make_san_move(&mut self, san_str: &str) -> (r: Option<Move>)
        requires
            old(self).wf(),
        ensures
            final(self).wf(),
            old(self).playable() ==> final(self).playable(),
            match r {
                Some(m) => old(self).san_resolves_to(san_str@, m) && old(self).moved_to(m, *final(self)),
                None => *final(self) == *old(self) && forall|m: Move| !#[trigger] old(self).san_resolves_to(san_str@, m),
            },
    {
        match Move::from_san(san_str, self) {
            Some(m) => {
                let ghost before = *self;
                self.apply_move(&m);
                proof {
                    if before.playable() {
                        crate::laws::lemma_legal_move_keeps_play(before, m, *self);
                    }
                }
                Some(m)
            },
            None => None,
        }
    }

    /// Makes a move given either in UCI notation or in standard algebraic
    /// notation; UCI is tried first. When the text names no legal move, the
    /// position is left as it was and `None` comes back.
    pub fn make_move(&mut self, move_str: &str) -> (r: Option<Move>)
        requires
            old(self).wf(),
        ensures
            final(self).wf(),
            old(self).playable() ==> final(self).playable(),
            match r {
                Some(m) => old(self).moved_to(m, *final(self)) && if old(self).uci_legal(move_str@) {
                    old(self).uci_move(move_str@) == Some(m)
                } else {
                    old(self).san_resolves_to(move_str@, m)
                },
                None => *final(self) == *old(self) && !old(self).uci_legal(move_str@)
                    && forall|m: Move| !#[trigger] old(self).san_resolves_to(move_str@, m),
            },
    {
        match self.make_uci_move(move_str) {
            Some(m) => Some(m),
            None => self.make_san_move(move_str),
        }
    }
}

} // verus!

verus! {

impl Move {
    /// Reads a move in standard algebraic notation against a position: the
    /// one legal move that fits the text, if there is exactly one.
    pub fn from_san(san: &str, board: &Board) -> (r: Option<Move>)
        ensures
            match r {
                Some(m) => board.san_resolves_to(san@, m),
                None => forall|m: Move| !#[trigger] board.san_resolves_to(san@, m),
            },
    {
        match board.resolve_san(san) {
            Ok(m) => Some(m),
            Err(e) => {
                assert forall|m: Move| !#[trigger] board.san_resolves_to(san@, m) by {
                    if board.san_resolves_to(san@, m) {
                        if e == SanError::Ambiguous {
                            let (m1, m2) = choose|m1: Move, m2: Move| m1 != m2 && #[trigger] board.san_candidate(san_pattern(san@)->0, m1)
                                && #[trigger] board.san_candidate(san_pattern(san@)->0, m2);
                            assert(m1 == m && m2 == m);
                        }
                    }
                }
                None
            },
        }
    }
}

} // verus!

verus! {

/// The one legal move of a piece of the kind of `piece` to `dst_square`,
/// its source on the given row and column when they are given.
pub fn piece_move(
    piece: Piece,
    dst_square: (usize, usize),
    disambiguation_row: Option<usize>,
    disambiguation_column: Option<usize>,
    board: &Board,
) -> (r: Option<Move>)
    ensures
        match r {
            Some(m) => board.pattern_resolves_to(
                pattern(piece.spec_kind(), SquareCoords(dst_square.0, dst_square.1), disambiguation_row, disambiguation_column, None), m),
            None => forall|m: Move| !#[trigger] board.pattern_resolves_to(
                pattern(piece.spec_kind(), SquareCoords(dst_square.0, dst_square.1), disambiguation_row, disambiguation_column, None), m),
        },
{
    let p = SanPattern {
        castle: None,
        kind: piece.kind(),
        dst: SquareCoords(dst_square.0, dst_square.1),
        from_row: disambiguation_row,
        from_col: disambiguation_column,
        promotion: None,
    };
    resolved(board, &p)
}

/// The one legal pawn push to `dst_square` (without promotion).
pub fn pawn_move(dst_square: (usize, usize), board: &Board) -> (r: Option<Move>)
    ensures
        match r {
            Some(m) => board.pattern_resolves_to(
                pattern(PieceKind::Pawn, SquareCoords(dst_square.0, dst_square.1), None, Some(dst_square.1), None), m),
            None => forall|m: Move| !#[trigger] board.pattern_resolves_to(
                pattern(PieceKind::Pawn, SquareCoords(dst_square.0, dst_square.1), None, Some(dst_square.1), None), m),
        },
{
    let p = SanPattern {
        castle: None,
        kind: PieceKind::Pawn,
        dst: SquareCoords(dst_square.0, dst_square.1),
        from_row: None,
        from_col: Some(dst_square.1),
        promotion: None,
    };
    resolved(board, &p)
}

/// The one legal capture (without promotion) of a pawn from column
/// `disambiguation_column` to `dst_square`.
pub fn pawn_capture(dst_square: (usize, usize), disambiguation_column: usize, board: &Board) -> (r: Option<Move>)
    ensures
        match r {
            Some(m) => board.pattern_resolves_to(
                pattern(PieceKind::Pawn, SquareCoords(dst_square.0, dst_square.1), None, Some(disambiguation_column), None), m),
            None => forall|m: Move| !#[trigger] board.pattern_resolves_to(
                pattern(PieceKind::Pawn, SquareCoords(dst_square.0, dst_square.1), None, Some(disambiguation_column), None), m),
        },
{
    let p = SanPattern {
        castle: None,
        kind: PieceKind::Pawn,
        dst: SquareCoords(dst_square.0, dst_square.1),
        from_row: None,
        from_col: Some(disambiguation_column),
        promotion: None,
    };
    resolved(board, &p)
}

/// The one legal move fitting the shape, if there is exactly one.
fn resolved(board: &Board, p: &SanPattern) -> (r: Option<Move>)
    ensures
        match r {
            Some(m) => board.pattern_resolves_to(*p, m),
            None => forall|m: Move| !#[trigger] board.pattern_resolves_to(*p, m),
        },
{
    match board.resolve_pattern(p) {
        Ok(m) => Some(m),
        Err(e) => {
            assert forall|m: Move| !#[trigger] board.pattern_resolves_to(*p, m) by {
                if board.pattern_resolves_to(*p, m) && e == SanError::Ambiguous {
                    let (m1, m2) = choose|m1: Move, m2: Move| m1 != m2 && #[trigger] board.san_candidate(*p, m1)
                        && #[trigger] board.san_candidate(*p, m2);
                    assert(m1 == m && m2 == m);
                }
            }
            None
        },
    }
}

} // verus!
