//! Derived queries: check, mate, stalemate and the draw rules.

use vstd::prelude::*;
use crate::board::{Board, at, attacks, is_checker, king_attacked, king_in_check, piece_attacks};
use crate::chess_move::Move;
use crate::color::Color;
use crate::piece::Piece;
use crate::square::SquareCoords;

verus! {

/// Classes of squares that the material count tells apart.
pub enum SquareClass {
    Knight,
    LightBishop,
    DarkBishop,
    Other,
}

/// Square (r, c) holds a piece of the class. A square is light when its row
/// and column add up to an even number.
pub open spec fn in_class(k: SquareClass, p: Option<Piece>, r: int, c: int) -> bool {
    match k {
        SquareClass::Knight => p is Some && p->0 is Knight,
        SquareClass::LightBishop => p is Some && p->0 is Bishop && (r + c) % 2 == 0,
        SquareClass::DarkBishop => p is Some && p->0 is Bishop && (r + c) % 2 == 1,
        SquareClass::Other => p is Some && !(p->0 is Knight) && !(p->0 is Bishop) && !(p->0 is King),
    }
}

/// Squares of the class among the first `c` columns of row `r`.
pub open spec fn count_row(g: Seq<Option<Piece>>, k: SquareClass, r: int, c: int) -> nat
    decreases c,
{
    if c <= 0 {
        0
    } else {
        count_row(g, k, r, c - 1) + if in_class(k, at(g, r, c - 1), r, c - 1) { 1nat } else { 0nat }
    }
}

/// Squares of the class among the first `r` rows.
pub open spec fn count_rows(g: Seq<Option<Piece>>, k: SquareClass, r: int) -> nat
    decreases r,
{
    if r <= 0 {
        0
    } else {
        count_rows(g, k, r - 1) + count_row(g, k, r - 1, 8)
    }
}

/// Neither side can mate: besides the kings there is nothing, or a single
/// knight, or only bishops that all stand on squares of one color.
pub open spec fn insufficient(g: Seq<Option<Piece>>) -> bool {
    let n = count_rows(g, SquareClass::Knight, 8);
    let l = count_rows(g, SquareClass::LightBishop, 8);
    let d = count_rows(g, SquareClass::DarkBishop, 8);
    count_rows(g, SquareClass::Other, 8) == 0 && ((n == 0 && (l == 0 || d == 0)) || (n == 1 && l == 0
        && d == 0))
}

/// The part of a FEN text before its fourth space, searching from `i` with
/// `k` more spaces to pass.
pub open spec fn key_end(s: Seq<char>, i: int, k: nat) -> int
    decreases s.len() - i,
{
    if i >= s.len() {
        s.len() as int
    } else if s[i] == ' ' {
        if k == 0 { i } else { key_end(s, i + 1, (k - 1) as nat) }
    } else {
        key_end(s, i + 1, k)
    }
}

/// The first four fields of a FEN text: placement, side to move, castling
/// and en passant, without the clocks.
pub open spec fn fen_key(s: Seq<char>) -> Seq<char> {
    s.subrange(0, key_end(s, 0, 3))
}

/// How many of the first `n` keys equal `key`.
pub open spec fn count_key(keys: Seq<Seq<char>>, key: Seq<char>, n: int) -> nat
    decreases n,
{
    if n <= 0 {
        0
    } else {
        count_key(keys, key, n - 1) + if keys[n - 1] == key { 1nat } else { 0nat }
    }
}

/// The repetition keys of the positions of a history.
pub open spec fn history_keys(history: Seq<String>) -> Seq<Seq<char>> {
    history.map_values(|h: String| fen_key(h@))
}

/// Some position of the history occurs at least three times in it.
pub open spec fn repeated_thrice(history: Seq<String>) -> bool {
    let keys = history_keys(history);
    exists|i: int| 0 <= i < keys.len() && count_key(keys, keys[i], keys.len() as int) >= 3
}

impl Board {
    /// A position that play can reach: one king of each color, and the
    /// player who just moved is not in check.
    pub open spec fn playable(self) -> bool {
        &&& crate::fen_parse::count_piece(self.grid(), Piece::King(Color::White), 64) == 1
        &&& crate::fen_parse::count_piece(self.grid(), Piece::King(Color::Black), 64) == 1
        &&& !king_attacked(self.grid(), self.active_color.spec_invert())
    }

    /// The player to move has some legal move.
    pub open spec fn has_legal_move(self) -> bool {
        exists|m: Move| self.is_legal(m)
    }

    /// The player to move is in check.
    pub open spec fn in_check(self) -> bool {
        king_attacked(self.grid(), self.active_color)
    }

    /// Returns the pieces of the player not to move, with their squares, that
    /// attack `square`.
    pub fn square_attackers(&self, square: SquareCoords) -> (r: Vec<(Piece, SquareCoords)>)
        requires
            square.wf(),
        ensures
            r@.no_duplicates(),
            forall|x: (Piece, SquareCoords)| #[trigger] r@.contains(x) <==> (x.1.wf()
                && at(self.grid(), (x.1).0 as int, (x.1).1 as int) == Some(x.0)
                && x.0.spec_color() == self.active_color.spec_invert()
                && attacks(self.grid(), x.0, (x.1).0 as int, (x.1).1 as int, square.0 as int, square.1 as int)),
    {
        let g = &self.squares;
        let by = self.active_color.invert();
        let mut res: Vec<(Piece, SquareCoords)> = Vec::new();
        let mut r: usize = 0;
        while r < 8
            invariant
                res@.no_duplicates(),
                r <= 8,
                square.wf(),
                by == self.active_color.spec_invert(),
                g@ == self.grid(),
                forall|x: (Piece, SquareCoords)| #[trigger] res@.contains(x) <==> (x.1.wf()
                    && at(g@, (x.1).0 as int, (x.1).1 as int) == Some(x.0) && x.0.spec_color() == by
                    && attacks(g@, x.0, (x.1).0 as int, (x.1).1 as int, square.0 as int, square.1 as int)
                    && (x.1).0 < r),
            decreases 8 - r,
        {
            let mut c: usize = 0;
            while c < 8
                invariant
                    res@.no_duplicates(),
                    r < 8,
                    c <= 8,
                    square.wf(),
                    by == self.active_color.spec_invert(),
                    g@ == self.grid(),
                    forall|x: (Piece, SquareCoords)| #[trigger] res@.contains(x) <==> (x.1.wf()
                        && at(g@, (x.1).0 as int, (x.1).1 as int) == Some(x.0) && x.0.spec_color() == by
                        && attacks(g@, x.0, (x.1).0 as int, (x.1).1 as int, square.0 as int, square.1 as int)
                        && ((x.1).0 < r || ((x.1).0 == r && (x.1).1 < c))),
                decreases 8 - c,
            {
                if let Some(p) = g[r * 8 + c] {
                    if p.color() == by && piece_attacks(g, p, r, c, square.0, square.1) {
                        let ghost pre = res@;
                        res.push((p, SquareCoords(r, c)));
                        proof {
                            crate::movegen::lemma_push_contains(pre, (p, SquareCoords(r, c)));
                            crate::movegen::lemma_push_no_dup(pre, (p, SquareCoords(r, c)));
                        }
                    }
                }
                c = c + 1;
            }
            r = r + 1;
        }
        res
    }

    /// Returns the pieces, with their squares, that give check to the player
    /// to move.
    pub fn checkers(&self) -> (r: Vec<(Piece, SquareCoords)>)
        ensures
            r@.no_duplicates(),
            forall|x: (Piece, SquareCoords)| #[trigger] r@.contains(x) <==> is_checker(
                self.grid(),
                x,
                self.active_color.spec_invert(),
            ),
    {
        let g = &self.squares;
        let by = self.active_color.invert();
        let mut res: Vec<(Piece, SquareCoords)> = Vec::new();
        let mut r: usize = 0;
        while r < 8
            invariant
                res@.no_duplicates(),
                r <= 8,
                by == self.active_color.spec_invert(),
                g@ == self.grid(),
                forall|x: (Piece, SquareCoords)| #[trigger] res@.contains(x) <==> (is_checker(g@, x, by)
                    && (x.1).0 < r),
            decreases 8 - r,
        {
            let mut c: usize = 0;
            while c < 8
                invariant
                    res@.no_duplicates(),
                    r < 8,
                    c <= 8,
                    by == self.active_color.spec_invert(),
                    g@ == self.grid(),
                    forall|x: (Piece, SquareCoords)| #[trigger] res@.contains(x) <==> (is_checker(g@, x, by)
                        && ((x.1).0 < r || ((x.1).0 == r && (x.1).1 < c))),
                decreases 8 - c,
            {
                if let Some(p) = g[r * 8 + c] {
                    if p.color() == by && attacks_king(g, p, r, c, by.invert()) {
                        let ghost pre = res@;
                        res.push((p, SquareCoords(r, c)));
                        proof {
                            crate::movegen::lemma_push_contains(pre, (p, SquareCoords(r, c)));
                            crate::movegen::lemma_push_no_dup(pre, (p, SquareCoords(r, c)));
                        }
                    }
                }
                c = c + 1;
            }
            r = r + 1;
        }
        res
    }

    /// Returns true if the player to move is in check.
    pub fn check(&self) -> (r: bool)
        ensures
            r == self.in_check(),
    {
        king_in_check(&self.squares, self.active_color)
    }

    /// Returns true if the player to move is checkmated.
    pub fn checkmate(&self) -> (r: bool)
        ensures
            r == (self.in_check() && !self.has_legal_move()),
    {
        self.check() && self.no_legal_move()
    }

    /// Returns true if the player to move is stalemated.
    pub fn stalemate(&self) -> (r: bool)
        ensures
            r == (!self.in_check() && !self.has_legal_move()),
    {
        !self.check() && self.no_legal_move()
    }

    /// Tells whether the player to move has no legal move.
    fn no_legal_move(&self) -> (r: bool)
        ensures
            r == !self.has_legal_move(),
    {
        let moves = self.legal_moves();
        if moves.len() == 0 {
            assert forall|m: Move| !self.is_legal(m) by {
                if self.is_legal(m) {
                    assert(moves@.contains(m));
                }
            }
            true
        } else {
            assert(moves@.contains(moves@[0]));
            false
        }
    }

    /// Returns true if a hundred half-moves have passed without a capture or
    /// a pawn move.
    pub fn fifty_move_rule(&self) -> (r: bool)
        ensures
            r == (self.halfmove_clock >= 100),
    {
        self.halfmove_clock >= 100
    }

    /// Returns true if neither side has the material to mate.
    pub fn insufficient_material(&self) -> (r: bool)
        ensures
            r == insufficient(self.grid()),
    {
        let n = count_class(&self.squares, SquareClass::Knight);
        let l = count_class(&self.squares, SquareClass::LightBishop);
        let d = count_class(&self.squares, SquareClass::DarkBishop);
        let o = count_class(&self.squares, SquareClass::Other);
        o == 0 && ((n == 0 && (l == 0 || d == 0)) || (n == 1 && l == 0 && d == 0))
    }

    /// Returns true if a position occurs three times in the history.
    pub fn threefold_repetition(&self) -> (r: bool)
        ensures
            r == repeated_thrice(self.position_history@),
    {
        let ghost keys_spec = history_keys(self.position_history@);
        let mut keys: Vec<Vec<char>> = Vec::new();
        let mut i: usize = 0;
        while i < self.position_history.len()
            invariant
                i <= self.position_history@.len(),
                keys_spec == history_keys(self.position_history@),
                keys@.len() == i,
                forall|j: int| 0 <= j < i ==> #[trigger] keys@[j]@ == keys_spec[j],
            decreases self.position_history.len() - i,
        {
            let chars = crate::text::chars_of(self.position_history[i].as_str());
            let k = key_prefix(&chars);
            keys.push(k);
            i = i + 1;
        }
        let mut i: usize = 0;
        while i < keys.len()
            invariant
                i <= keys@.len(),
                keys@.len() == keys_spec.len(),
                keys_spec == history_keys(self.position_history@),
                forall|j: int| 0 <= j < keys@.len() ==> #[trigger] keys@[j]@ == keys_spec[j],
                forall|j: int| 0 <= j < i ==> count_key(keys_spec, keys_spec[j], keys_spec.len() as int) < 3,
            decreases keys.len() - i,
        {
            let mut count: usize = 0;
            let mut j: usize = 0;
            while j < keys.len()
                invariant
                    i < keys@.len(),
                    j <= keys@.len(),
                    keys@.len() == keys_spec.len(),
                    forall|t: int| 0 <= t < keys@.len() ==> #[trigger] keys@[t]@ == keys_spec[t],
                    count == count_key(keys_spec, keys_spec[i as int], j as int),
                    count <= j,
                decreases keys.len() - j,
            {
                if crate::text::same_chars(&keys[i], &keys[j]) {
                    count = count + 1;
                }
                j = j + 1;
            }
            if count >= 3 {
                assert(count_key(keys_spec, keys_spec[i as int], keys_spec.len() as int) >= 3);
                assert(keys_spec.len() == self.position_history@.len());
                assert(0 <= i < keys_spec.len());
                assert(repeated_thrice(self.position_history@));
                return true;
            }
            i = i + 1;
        }
        false
    }

    /// Returns true if the game is drawn: stalemate, insufficient material,
    /// the fifty-move rule or threefold repetition.
    pub fn draw(&self) -> (r: bool)
        ensures
            r == ((!self.in_check() && !self.has_legal_move()) || insufficient(self.grid())
                || self.halfmove_clock >= 100 || repeated_thrice(self.position_history@)),
    {
        self.stalemate() || self.insufficient_material() || self.fifty_move_rule()
            || self.threefold_repetition()
    }
}

/// Tells whether the piece `p` on (r, c) attacks a king of color `king`.
fn attacks_king(g: &[Option<Piece>; 64], p: Piece, r: usize, c: usize, king: Color) -> (b: bool)
    requires
        r < 8,
        c < 8,
    ensures
        b == exists|kr: int, kc: int|
            crate::board::on_board(kr, kc) && #[trigger] at(g@, kr, kc) == Some(Piece::King(king))
                && attacks(g@, p, r as int, c as int, kr, kc),
{
    let mut kr: usize = 0;
    while kr < 8
        invariant
            kr <= 8,
            r < 8,
            c < 8,
            forall|a: int, b: int|
                0 <= a < kr && 0 <= b < 8 && #[trigger] at(g@, a, b) == Some(Piece::King(king))
                    ==> !attacks(g@, p, r as int, c as int, a, b),
        decreases 8 - kr,
    {
        let mut kc: usize = 0;
        while kc < 8
            invariant
                kr < 8,
                kc <= 8,
                r < 8,
                c < 8,
                forall|a: int, b: int|
                    0 <= a < kr && 0 <= b < 8 && #[trigger] at(g@, a, b) == Some(Piece::King(king))
                        ==> !attacks(g@, p, r as int, c as int, a, b),
                forall|b: int|
                    0 <= b < kc && #[trigger] at(g@, kr as int, b) == Some(Piece::King(king))
                        ==> !attacks(g@, p, r as int, c as int, kr as int, b),
            decreases 8 - kc,
        {
            if g[kr * 8 + kc] == Some(Piece::King(king)) && piece_attacks(g, p, r, c, kr, kc) {
                assert(at(g@, kr as int, kc as int) == Some(Piece::King(king)));
                return true;
            }
            kc = kc + 1;
        }
        kr = kr + 1;
    }
    false
}

/// Counts the squares of a class on the whole board.
fn count_class(g: &[Option<Piece>; 64], k: SquareClass) -> (n: u32)
    ensures
        n == count_rows(g@, k, 8),
{
    let mut n: u32 = 0;
    let mut r: usize = 0;
    while r < 8
        invariant
            r <= 8,
            n == count_rows(g@, k, r as int),
            n <= r * 8,
        decreases 8 - r,
    {
        let mut c: usize = 0;
        let ghost base = n;
        while c < 8
            invariant
                r < 8,
                c <= 8,
                base == count_rows(g@, k, r as int),
                base <= r * 8,
                n == base + count_row(g@, k, r as int, c as int),
                n <= base + c,
            decreases 8 - c,
        {
            let hit = match g[r * 8 + c] {
                Some(p) => match k {
                    SquareClass::Knight => p.kind() == crate::piece::PieceKind::Knight,
                    SquareClass::LightBishop => p.kind() == crate::piece::PieceKind::Bishop && (r + c) % 2 == 0,
                    SquareClass::DarkBishop => p.kind() == crate::piece::PieceKind::Bishop && (r + c) % 2 == 1,
                    SquareClass::Other => p.kind() != crate::piece::PieceKind::Knight
                        && p.kind() != crate::piece::PieceKind::Bishop
                        && p.kind() != crate::piece::PieceKind::King,
                },
                None => false,
            };
            if hit {
                n = n + 1;
            }
            c = c + 1;
        }
        r = r + 1;
    }
    n
}

/// The characters of a FEN text before its fourth space.
fn key_prefix(s: &Vec<char>) -> (r: Vec<char>)
    ensures
        r@ == fen_key(s@),
{
    let mut i: usize = 0;
    let mut spaces: usize = 0;
    let mut r: Vec<char> = Vec::new();
    while i < s.len()
        invariant
            i <= s@.len(),
            spaces <= 3,
            key_end(s@, i as int, (3 - spaces) as nat) == key_end(s@, 0, 3),
            r@ == s@.subrange(0, i as int),
        decreases s.len() - i,
    {
        if s[i] == ' ' {
            if spaces == 3 {
                return r;
            }
            spaces = spaces + 1;
        }
        r.push(s[i]);
        assert(r@ =~= s@.subrange(0, i + 1));
        i = i + 1;
    }
    r
}

} // verus!
