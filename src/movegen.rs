//! Generation of the legal moves of a position.

use vstd::prelude::*;
use crate::board::{Board, at, king_in_check, reaches, step_fuel, on_board, square_attacked};
use crate::castle::{CastleKind, CastleRights, right_for};
use crate::color::Color;
use crate::chess_move::Move;
use crate::piece::Piece;
use crate::rules::sq_at;
use crate::square::SquareCoords;

verus! {

/// Pushing an element that a duplicate-free sequence lacks keeps it free of
/// duplicates.
pub proof fn lemma_push_no_dup<T>(s: Seq<T>, x: T)
    requires
        s.no_duplicates(),
        !s.contains(x),
    ensures
        s.push(x).no_duplicates(),
{
    assert forall|a: int, b: int| 0 <= a < b < s.push(x).len() implies s.push(x)[a] != s.push(x)[b] by {
        if b == s.len() {
            assert(s.contains(s[a]));
        }
    }
}

/// Pushing onto a sequence adds exactly the pushed element to what it contains.
pub proof fn lemma_push_contains<T>(s: Seq<T>, x: T)
    ensures
        forall|y: T| #[trigger] s.push(x).contains(y) <==> (s.contains(y) || y == x),
{
    assert forall|y: T| #[trigger] s.push(x).contains(y) <==> (s.contains(y) || y == x) by {
        if s.contains(y) {
            let k = choose|k: int| 0 <= k < s.len() && s[k] == y;
            assert(s.push(x)[k] == y);
        }
        if y == x {
            assert(s.push(x)[s.len() as int] == y);
        }
        if s.push(x).contains(y) {
            let k = choose|k: int| 0 <= k < s.push(x).len() && s.push(x)[k] == y;
            if k < s.len() {
                assert(s[k] == y);
            }
        }
    }
}

/// Legal moves of the non-pawn piece `piece` from `src`, direction by
/// direction, following each ray until it leaves the board or is blocked.
fn stepping_legal_moves(piece: Piece, src: SquareCoords, board: &Board) -> (res: Vec<Move>)
    requires
        src.wf(),
        !(piece is Pawn),
        sq_at(board.grid(), src) == Some(piece),
        piece.spec_color() == board.active_color,
    ensures
        res@.no_duplicates(),
        forall|m: Move| #[trigger] res@.contains(m) <==> (m.src_square == Some(src) && board.is_legal(m)),
{
    let ghost g = board.grid();
    let ghost sr = src.0 as int;
    let ghost sc = src.1 as int;
    let dirs = piece.directions();
    let fuel: usize = if piece.is_slider() { 7 } else { 0 };
    let mut res: Vec<Move> = Vec::new();
    let mut j: usize = 0;
    while j < dirs.len()
        invariant
            res@.no_duplicates(),
            src.wf(),
            !(piece is Pawn),
            sq_at(g, src) == Some(piece),
            piece.spec_color() == board.active_color,
            g == board.grid(),
            sr == src.0 as int,
            sc == src.1 as int,
            dirs@ == piece.spec_directions(),
            fuel as nat == step_fuel(piece),
            j <= dirs@.len(),
            forall|m: Move| #[trigger] res@.contains(m) <==> (m.src_square == Some(src) && board.is_legal(m)
                && exists|jj: int| 0 <= jj < j && #[trigger] reaches(g, sr, sc,
                    dirs@[jj].0 as int, dirs@[jj].1 as int,
                    m.dst_row(), m.dst_col(), step_fuel(piece))),
        decreases dirs.len() - j,
    {
        let (dr, dc) = dirs[j];
        let mut cr: i32 = src.0 as i32;
        let mut cc: i32 = src.1 as i32;
        let mut f: usize = fuel;
        let ghost mut visited: Set<(int, int)> = Set::empty();
        loop
            invariant_except_break
                0 <= cr < 8,
                0 <= cc < 8,
                f <= fuel,
                forall|tr: int, tc: int| #[trigger] reaches(g, sr, sc, dr as int, dc as int, tr, tc, step_fuel(piece))
                    <==> (visited.contains((tr, tc)) || reaches(g, cr as int, cc as int, dr as int, dc as int, tr, tc, f as nat)),
            invariant
                res@.no_duplicates(),
                src.wf(),
                !(piece is Pawn),
                sq_at(g, src) == Some(piece),
                piece.spec_color() == board.active_color,
                g == board.grid(),
                sr == src.0 as int,
                sc == src.1 as int,
                dirs@ == piece.spec_directions(),
                fuel as nat == step_fuel(piece),
                j < dirs@.len(),
                (dr, dc) == dirs@[j as int],
                forall|m: Move| #[trigger] res@.contains(m) <==> (m.src_square == Some(src) && board.is_legal(m)
                    && ((exists|jj: int| 0 <= jj < j && #[trigger] reaches(g, sr, sc,
                        dirs@[jj].0 as int, dirs@[jj].1 as int,
                        m.dst_row(), m.dst_col(), step_fuel(piece)))
                        || visited.contains((m.dst_row(), m.dst_col())))),
            ensures
                forall|tr: int, tc: int| #[trigger] reaches(g, sr, sc, dr as int, dc as int, tr, tc, step_fuel(piece))
                    <==> visited.contains((tr, tc)),
                forall|m: Move| #[trigger] res@.contains(m) <==> (m.src_square == Some(src) && board.is_legal(m)
                    && ((exists|jj: int| 0 <= jj < j && #[trigger] reaches(g, sr, sc,
                        dirs@[jj].0 as int, dirs@[jj].1 as int,
                        m.dst_row(), m.dst_col(), step_fuel(piece)))
                        || visited.contains((m.dst_row(), m.dst_col())))),
            decreases f,
        {
            let nr: i32 = cr + dr as i32;
            let nc: i32 = cc + dc as i32;
            proof {
                assert forall|tr: int, tc: int|
                    #[trigger] reaches(g, cr as int, cc as int, dr as int, dc as int, tr, tc, f as nat)
                    == (on_board(nr as int, nc as int) && ((nr == tr && nc == tc) || (f > 0 && at(g, nr as int, nc as int) is None
                        && reaches(g, nr as int, nc as int, dr as int, dc as int, tr, tc, (f - 1) as nat)))) by {
                }
            }
            if nr < 0 || nr >= 8 || nc < 0 || nc >= 8 {
                break;
            }
            let dst = SquareCoords(nr as usize, nc as usize);
            let target = board.squares[dst.0 * 8 + dst.1];
            let ghost old_visited = visited;
            assert(reaches(g, cr as int, cc as int, dr as int, dc as int, nr as int, nc as int, f as nat));
            assert(reaches(g, sr, sc, dr as int, dc as int, nr as int, nc as int, step_fuel(piece)));
            proof {
                visited = visited.insert((nr as int, nc as int));
            }
            let own = match target {
                Some(p) => p.color() == board.active_color,
                None => false,
            };
            if !own {
                let m = board.move_to(piece, src, dst, None);
                assert(reaches(g, sr, sc, piece.spec_directions()[j as int].0 as int,
                    piece.spec_directions()[j as int].1 as int, nr as int, nc as int, step_fuel(piece)));
                assert(crate::board::attacks(g, piece, sr, sc, nr as int, nc as int));
                if !board.future_check(&m) && !holds_move(&res, &m) {
                    let ghost pre = res@;
                    res.push(m);
                    proof {
                        lemma_push_contains(pre, m);
                        lemma_push_no_dup(pre, m);
                    }
                }
            }
            if target.is_some() || f == 0 {
                break;
            }
            cr = nr;
            cc = nc;
            f = f - 1;
        }
        assert forall|m: Move| #[trigger] res@.contains(m) <==> (m.src_square == Some(src) && board.is_legal(m)
            && exists|jj: int| 0 <= jj < j + 1 && #[trigger] reaches(g, sr, sc,
                dirs@[jj].0 as int, dirs@[jj].1 as int,
                m.dst_row(), m.dst_col(), step_fuel(piece))) by {
            if exists|jj: int| 0 <= jj < j + 1 && #[trigger] reaches(g, sr, sc,
                dirs@[jj].0 as int, dirs@[jj].1 as int, m.dst_row(), m.dst_col(), step_fuel(piece)) {
                let jj = choose|jj: int| 0 <= jj < j + 1 && #[trigger] reaches(g, sr, sc,
                    dirs@[jj].0 as int, dirs@[jj].1 as int, m.dst_row(), m.dst_col(), step_fuel(piece));
                if jj == j {
                    assert(visited.contains((m.dst_row(), m.dst_col())));
                }
            }
            if visited.contains((m.dst_row(), m.dst_col())) {
                assert(reaches(g, sr, sc, dirs@[j as int].0 as int, dirs@[j as int].1 as int,
                    m.dst_row(), m.dst_col(), step_fuel(piece)));
            }
        }
        j = j + 1;
    }
    assert forall|m: Move| #[trigger] res@.contains(m) <==> (m.src_square == Some(src) && board.is_legal(m)) by {
        if m.src_square == Some(src) && board.is_legal(m) {
            assert(crate::board::attacks(g, piece, sr, sc, m.dst_row(), m.dst_col()));
        }
    }
    res
}

} // verus!

verus! {

/// Tells whether the vector holds the move.
pub fn holds_move(v: &Vec<Move>, m: &Move) -> (r: bool)
    ensures
        r == v@.contains(*m),
{
    let mut i: usize = 0;
    while i < v.len()
        invariant
            i <= v@.len(),
            forall|k: int| 0 <= k < i ==> v@[k] != *m,
        decreases v.len() - i,
    {
        if v[i] == *m {
            return true;
        }
        i = i + 1;
    }
    false
}

/// Appends the moves of `src` that `dst` does not hold yet.
fn append_moves(dst: &mut Vec<Move>, src: &Vec<Move>)
    requires
        old(dst)@.no_duplicates(),
    ensures
        final(dst)@.no_duplicates(),
        forall|m: Move| #[trigger] final(dst)@.contains(m) <==> (old(dst)@.contains(m) || src@.contains(m)),
{
    let mut i: usize = 0;
    while i < src.len()
        invariant
            i <= src.len(),
            dst@.no_duplicates(),
            forall|m: Move| #[trigger] dst@.contains(m) <==> (old(dst)@.contains(m)
                || src@.subrange(0, i as int).contains(m)),
        decreases src.len() - i,
    {
        let ghost pre = dst@;
        if !holds_move(dst, &src[i]) {
            dst.push(src[i]);
            proof {
                lemma_push_contains(pre, src@[i as int]);
                assert forall|a: int, b: int| 0 <= a < b < dst@.len() implies dst@[a] != dst@[b] by {
                    if b == pre.len() {
                        assert(pre.contains(pre[a]));
                    }
                }
            }
        }
        proof {
            assert(src@.subrange(0, i + 1) == src@.subrange(0, i as int).push(src@[i as int]));
            lemma_push_contains(src@.subrange(0, i as int), src@[i as int]);
        }
        i = i + 1;
    }
    assert(src@.subrange(0, src@.len() as int) == src@);
}

impl Board {
    /// Tells whether a pawn of the player to move on `s` may go to `d`.
    pub fn pawn_can_step(&self, s: SquareCoords, d: SquareCoords) -> (b: bool)
        requires
            s.wf(),
            d.wf(),
        ensures
            b == self.pawn_step(s, d),
    {
        let c = self.active_color;
        let (sr, sc, dr, dc) = (s.0 as i32, s.1 as i32, d.0 as i32, d.1 as i32);
        let f: i32 = match c {
            crate::color::Color::White => -1,
            crate::color::Color::Black => 1,
        };
        let home: i32 = match c {
            crate::color::Color::White => 6,
            crate::color::Color::Black => 1,
        };
        let target = self.squares[d.0 * 8 + d.1];
        if dc == sc && dr == sr + f && target.is_none() {
            return true;
        }
        if dc == sc && sr == home && dr == sr + 2 * f && target.is_none() {
            let mid = (sr + f) as usize;
            if self.squares[mid * 8 + s.1].is_none() {
                return true;
            }
        }
        if dr == sr + f && (dc == sc + 1 || dc == sc - 1) {
            match target {
                Some(p) => p.color() == c.invert(),
                None => self.en_passant_target == Some(d)
                    && self.squares[s.0 * 8 + d.1] == Some(Piece::Pawn(c.invert())),
            }
        } else {
            false
        }
    }

    /// Adds every legal move of the pawn on `s` to the target `(dr, dc)`.
    fn consider_pawn_target(&self, res: &mut Vec<Move>, s: SquareCoords, dr: i32, dc: i32)
        requires
            s.wf(),
            old(res)@.no_duplicates(),
        ensures
            final(res)@.no_duplicates(),
            sq_at(self.grid(), s) == Some(Piece::Pawn(self.active_color)) ==> forall|m: Move|
                #[trigger] final(res)@.contains(m) <==> (old(res)@.contains(m) || (m.src_square == Some(s)
                && self.is_legal(m) && m.dst_row() == dr && m.dst_col() == dc)),
    {
        let ghost hold = sq_at(self.grid(), s) == Some(Piece::Pawn(self.active_color));
        if dr < 0 || dr >= 8 || dc < 0 || dc >= 8 {
            return;
        }
        let d = SquareCoords(dr as usize, dc as usize);
        if !self.pawn_can_step(s, d) {
            return;
        }
        let c = self.active_color;
        let p = Piece::Pawn(c);
        let last: usize = match c {
            crate::color::Color::White => 0,
            crate::color::Color::Black => 7,
        };
        if d.0 == last {
            let promotions = [Piece::Queen(c), Piece::Rook(c), Piece::Bishop(c), Piece::Knight(c)];
            let mut i: usize = 0;
            while i < 4
                invariant
                    i <= 4,
                    res@.no_duplicates(),
                    s.wf(),
                    d.wf(),
                    d == SquareCoords(dr as usize, dc as usize),
                    0 <= dr < 8,
                    0 <= dc < 8,
                    self.pawn_step(s, d),
                    d.0 as int == crate::rules::last_row(c),
                    c == self.active_color,
                    p == Piece::Pawn(c),
                    hold == (sq_at(self.grid(), s) == Some(p)),
                    promotions@ == seq![Piece::Queen(c), Piece::Rook(c), Piece::Bishop(c), Piece::Knight(c)],
                    hold ==> forall|m: Move| #[trigger] res@.contains(m) <==> (old(res)@.contains(m) || (
                        m.src_square == Some(s) && self.is_legal(m) && m.dst_row() == dr && m.dst_col() == dc
                        && exists|k: int| 0 <= k < i && m.promotion == Some(#[trigger] promotions@[k]))),
                decreases 4 - i,
            {
                let m = self.move_to(p, s, d, Some(promotions[i]));
                let ghost pre = res@;
                let safe = !self.future_check(&m);
                let fresh = !holds_move(res, &m);
                if safe && fresh {
                    res.push(m);
                    proof { lemma_push_no_dup(pre, m); }
                }
                proof {
                    if hold {
                        assert(crate::rules::is_promotion_piece(promotions@[i as int], c));
                        assert(self.pseudo_legal(m));
                        assert(m.dst_row() == dr && m.dst_col() == dc);
                        if safe {
                            if fresh {
                                lemma_push_contains(pre, m);
                            }
                            assert(self.is_legal(m));
                        } else {
                            assert(!self.is_legal(m));
                        }
                        assert forall|m2: Move| #[trigger] res@.contains(m2) <==> (old(res)@.contains(m2) || (
                            m2.src_square == Some(s) && self.is_legal(m2) && m2.dst_row() == dr && m2.dst_col() == dc
                            && exists|k: int| 0 <= k < i + 1 && m2.promotion == Some(#[trigger] promotions@[k]))) by {
                            if m2.src_square == Some(s) && self.is_legal(m2) && m2.dst_row() == dr && m2.dst_col() == dc
                                && m2.promotion == Some(promotions@[i as int]) {
                                assert(m2 == m);
                            }
                            if m2 == m {
                                assert(m2.promotion == Some(promotions@[i as int]));
                            }
                            if pre.contains(m2) && !old(res)@.contains(m2) {
                                let k = choose|k: int| 0 <= k < i && m2.promotion == Some(#[trigger] promotions@[k]);
                                assert(0 <= k < i + 1);
                            }
                        }
                    }
                }
                i = i + 1;
            }
            proof {
                if hold {
                    assert forall|m2: Move| #[trigger] res@.contains(m2) <==> (old(res)@.contains(m2) || (
                        m2.src_square == Some(s) && self.is_legal(m2) && m2.dst_row() == dr && m2.dst_col() == dc)) by {
                        if m2.src_square == Some(s) && self.is_legal(m2) && m2.dst_row() == dr && m2.dst_col() == dc {
                            let q = m2.promotion->0;
                            if q == Piece::Queen(c) { assert(promotions@[0] == q); }
                            if q == Piece::Rook(c) { assert(promotions@[1] == q); }
                            if q == Piece::Bishop(c) { assert(promotions@[2] == q); }
                            if q == Piece::Knight(c) { assert(promotions@[3] == q); }
                        }
                    }
                }
            }
        } else {
            let m = self.move_to(p, s, d, None);
            if !self.future_check(&m) && !holds_move(res, &m) {
                let ghost pre = res@;
                res.push(m);
                proof {
                    lemma_push_contains(pre, m);
                    lemma_push_no_dup(pre, m);
                }
            }
        }
    }
}

/// Returns the moves of a pawn of the player to move standing on `src`:
/// when such a pawn stands there, exactly its legal moves.
pub fn pawn_legal_moves(src: SquareCoords, board: &Board) -> (res: Vec<Move>)
    requires
        src.wf(),
    ensures
        res@.no_duplicates(),
        sq_at(board.grid(), src) == Some(Piece::Pawn(board.active_color)) ==> forall|m: Move|
            #[trigger] res@.contains(m) <==> (m.src_square == Some(src) && board.is_legal(m)),
{
    let f: i32 = match board.active_color {
        crate::color::Color::White => -1,
        crate::color::Color::Black => 1,
    };
    let (sr, sc) = (src.0 as i32, src.1 as i32);
    let mut res: Vec<Move> = Vec::new();
    board.consider_pawn_target(&mut res, src, sr + f, sc);
    board.consider_pawn_target(&mut res, src, sr + 2 * f, sc);
    board.consider_pawn_target(&mut res, src, sr + f, sc + 1);
    board.consider_pawn_target(&mut res, src, sr + f, sc - 1);
    res
}

/// Returns every legal move of the piece standing on `src`.
pub fn piece_legal_moves(piece: &Piece, src: SquareCoords, board: &Board) -> (res: Vec<Move>)
    requires
        src.wf(),
        sq_at(board.grid(), src) == Some(*piece),
        piece.spec_color() == board.active_color,
    ensures
        res@.no_duplicates(),
        forall|m: Move| #[trigger] res@.contains(m) <==> (m.src_square == Some(src) && board.is_legal(m)),
{
    match piece {
        Piece::Pawn(_) => pawn_legal_moves(src, board),
        _ => stepping_legal_moves(*piece, src, board),
    }
}

} // verus!

verus! {

impl Board {
    /// Tells whether the player to move may castle on side `k`.
    pub fn castle_allowed(&self, k: CastleKind) -> (b: bool)
        ensures
            b == self.can_castle(k),
    {
        let c = self.active_color;
        let o = c.invert();
        let row: usize = match c {
            Color::White => 7,
            Color::Black => 0,
        };
        let g = &self.squares;
        if !self.castle_rights.has(castle_right(c, k)) {
            return false;
        }
        if g[row * 8 + 4] != Some(Piece::King(c)) || square_attacked(g, row, 4, o) {
            return false;
        }
        let castled = self.grid_after_move(&self.castle_record(k));
        if king_in_check(&castled, c) {
            return false;
        }
        match k {
            CastleKind::Kingside => g[row * 8 + 7] == Some(Piece::Rook(c)) && g[row * 8 + 5].is_none()
                && g[row * 8 + 6].is_none() && !square_attacked(g, row, 5, o)
                && !square_attacked(g, row, 6, o),
            CastleKind::Queenside => g[row * 8 + 0] == Some(Piece::Rook(c)) && g[row * 8 + 1].is_none()
                && g[row * 8 + 2].is_none() && g[row * 8 + 3].is_none()
                && !square_attacked(g, row, 3, o) && !square_attacked(g, row, 2, o),
        }
    }

    /// The record of a castle of the player to move.
    pub fn castle_record(&self, k: CastleKind) -> (m: Move)
        ensures
            m == self.castle_move(k),
    {
        Move {
            piece: None,
            color: self.active_color,
            src_square: None,
            dst_square: None,
            castle: Some(k),
            promotion: None,
            capture: false,
        }
    }
}

/// The castling right that a castle of this color and side needs.
pub fn castle_right(c: Color, k: CastleKind) -> (r: CastleRights)
    ensures
        r == right_for(c, k),
{
    match (c, k) {
        (Color::White, CastleKind::Kingside) => CastleRights::WhiteKingside,
        (Color::White, CastleKind::Queenside) => CastleRights::WhiteQueenside,
        (Color::Black, CastleKind::Kingside) => CastleRights::BlackKingside,
        (Color::Black, CastleKind::Queenside) => CastleRights::BlackQueenside,
    }
}

/// Returns the castle on side `kind` when the player to move may make it.
pub fn castle(kind: CastleKind, board: &Board) -> (r: Option<Move>)
    ensures
        r == (if board.can_castle(kind) { Some(board.castle_move(kind)) } else { None::<Move> }),
{
    if board.castle_allowed(kind) {
        Some(board.castle_record(kind))
    } else {
        None
    }
}

/// Returns the legal castles of the player to move, kingside first.
pub fn castle_legal_moves(board: &Board) -> (res: Vec<Move>)
    ensures
        res@ == (if board.can_castle(CastleKind::Kingside) {
            seq![board.castle_move(CastleKind::Kingside)]
        } else {
            Seq::<Move>::empty()
        }) + (if board.can_castle(CastleKind::Queenside) {
            seq![board.castle_move(CastleKind::Queenside)]
        } else {
            Seq::<Move>::empty()
        }),
        res@.no_duplicates(),
        forall|m: Move| #[trigger] res@.contains(m) <==> (m.castle is Some && board.is_legal(m)),
{
    let mut res: Vec<Move> = Vec::new();
    if let Some(m) = castle(CastleKind::Kingside, board) {
        res.push(m);
    }
    let ghost pre = res@;
    if let Some(m) = castle(CastleKind::Queenside, board) {
        res.push(m);
    }
    proof {
        let k = board.castle_move(CastleKind::Kingside);
        let q = board.castle_move(CastleKind::Queenside);
        assert(res@ =~= (if board.can_castle(CastleKind::Kingside) { seq![k] } else { Seq::<Move>::empty() })
            + (if board.can_castle(CastleKind::Queenside) { seq![q] } else { Seq::<Move>::empty() }));
        lemma_push_contains(Seq::<Move>::empty(), k);
        lemma_push_contains(pre, q);
        assert(k != q);
        assert forall|m: Move| #[trigger] res@.contains(m) <==> (m.castle is Some && board.is_legal(m)) by {
            if m.castle is Some && board.is_legal(m) {
                assert(m == board.castle_move(m.castle->0));
            }
        }
    }
    res
}

/// Returns every legal move of the player to move, once each: piece moves
/// square by square, then castles.
pub fn generate_legal_moves(board: &Board) -> (res: Vec<Move>)
    ensures
        res@.no_duplicates(),
        forall|m: Move| #[trigger] res@.contains(m) <==> board.is_legal(m),
{
    let mut res: Vec<Move> = Vec::new();
    let mut r: usize = 0;
    while r < 8
        invariant
            r <= 8,
            res@.no_duplicates(),
            forall|m: Move| #[trigger] res@.contains(m) <==> (board.is_legal(m) && m.src_square is Some
                && (m.src_square->0).0 < r),
        decreases 8 - r,
    {
        let mut c: usize = 0;
        while c < 8
            invariant
                r < 8,
                c <= 8,
                res@.no_duplicates(),
                forall|m: Move| #[trigger] res@.contains(m) <==> (board.is_legal(m) && m.src_square is Some
                    && ((m.src_square->0).0 < r || ((m.src_square->0).0 == r && (m.src_square->0).1 < c))),
            decreases 8 - c,
        {
            let src = SquareCoords(r, c);
            if let Some(p) = board.squares[r * 8 + c] {
                if p.color() == board.active_color {
                    let moves = piece_legal_moves(&p, src, board);
                    append_moves(&mut res, &moves);
                }
            }
            c = c + 1;
        }
        r = r + 1;
    }
    let castles = castle_legal_moves(board);
    append_moves(&mut res, &castles);
    assert forall|m: Move| #[trigger] res@.contains(m) <==> board.is_legal(m) by {
        if board.is_legal(m) && m.castle is None {
            assert(board.pseudo_legal(m));
        }
    }
    res
}

impl Board {
    /// Returns every legal move in the position, once each.
    pub fn legal_moves(&self) -> (res: Vec<Move>)
        ensures
            res@.no_duplicates(),
            forall|m: Move| #[trigger] res@.contains(m) <==> self.is_legal(m),
    {
        generate_legal_moves(self)
    }
}

} // verus!
