//! The position and attack detection on its grid.

use vstd::prelude::*;
use crate::castle::CastleRights;
use crate::color::Color;
use crate::piece::Piece;
use crate::square::SquareCoords;

verus! {

/// The four castling rights, each held until it is revoked.
#[derive(Debug, Clone, Copy, PartialEq, Eq, Structural)]
pub struct CastlingRights {
    pub white_kingside: bool,
    pub white_queenside: bool,
    pub black_kingside: bool,
    pub black_queenside: bool,
}

impl CastlingRights {
    pub open spec fn holds(self, r: CastleRights) -> bool {
        match r {
            CastleRights::WhiteKingside => self.white_kingside,
            CastleRights::WhiteQueenside => self.white_queenside,
            CastleRights::BlackKingside => self.black_kingside,
            CastleRights::BlackQueenside => self.black_queenside,
        }
    }

    /// Every right held by `self` is held by `other`.
    pub open spec fn subset_of(self, other: CastlingRights) -> bool {
        (self.white_kingside ==> other.white_kingside)
        && (self.white_queenside ==> other.white_queenside)
        && (self.black_kingside ==> other.black_kingside)
        && (self.black_queenside ==> other.black_queenside)
    }

    /// No castling right at all.
    pub fn none() -> (r: CastlingRights)
        ensures
            !r.white_kingside && !r.white_queenside && !r.black_kingside && !r.black_queenside,
    {
        CastlingRights {
            white_kingside: false,
            white_queenside: false,
            black_kingside: false,
            black_queenside: false,
        }
    }

    /// Returns true if the right is held.
    pub fn has(&self, r: CastleRights) -> (b: bool)
        ensures
            b == self.holds(r),
    {
        match r {
            CastleRights::WhiteKingside => self.white_kingside,
            CastleRights::WhiteQueenside => self.white_queenside,
            CastleRights::BlackKingside => self.black_kingside,
            CastleRights::BlackQueenside => self.black_queenside,
        }
    }

    /// Grants a right.
    pub fn grant(&mut self, r: CastleRights)
        ensures
            final(self).holds(r),
            forall|o: CastleRights| o != r ==> final(self).holds(o) == old(self).holds(o),
    {
        match r {
            CastleRights::WhiteKingside => self.white_kingside = true,
            CastleRights::WhiteQueenside => self.white_queenside = true,
            CastleRights::BlackKingside => self.black_kingside = true,
            CastleRights::BlackQueenside => self.black_queenside = true,
        }
    }
}

/// A chess position.
///
/// The board is an array of 64 optional pieces in row-major order: index
/// `row * 8 + column`, row 0 being rank 8 and column 0 file 'a'.
#[derive(Debug, Clone)]
pub struct Board {
    /// Board squares, each holding a piece or `None` when empty.
    pub squares: [Option<Piece>; 64],
    /// Color of the player who moves next.
    pub active_color: Color,
    /// Castling rights still held.
    pub castle_rights: CastlingRights,
    /// En passant target square.
    pub en_passant_target: Option<SquareCoords>,
    /// Number of half-moves since the last capture or pawn move.
    pub halfmove_clock: u32,
    /// Number of the current full move; it starts at 1.
    pub fullmove_number: u32,
    /// FEN strings of the positions reached so far, the first one included.
    pub position_history: Vec<String>,
}

impl Board {
    /// The en passant target, if any, lies on the board.
    pub open spec fn wf(self) -> bool {
        self.en_passant_target is Some ==> self.en_passant_target->0.wf()
    }
}

pub open spec fn on_board(r: int, c: int) -> bool {
    0 <= r < 8 && 0 <= c < 8
}

/// The content of square (r, c) of a grid.
pub open spec fn at(g: Seq<Option<Piece>>, r: int, c: int) -> Option<Piece> {
    g[r * 8 + c]
}

pub open spec fn color_at(g: Seq<Option<Piece>>, r: int, c: int, color: Color) -> bool {
    at(g, r, c) is Some && at(g, r, c)->0.spec_color() == color
}

/// Walking from (r, c) by steps of (dr, dc), the walk meets (tr, tc) in at
/// most `fuel + 1` steps, every square before it being empty.
pub open spec fn reaches(
    g: Seq<Option<Piece>>,
    r: int,
    c: int,
    dr: int,
    dc: int,
    tr: int,
    tc: int,
    fuel: nat,
) -> bool
    decreases fuel,
{
    on_board(r + dr, c + dc) && ((r + dr == tr && c + dc == tc) || (fuel > 0 && at(
        g,
        r + dr,
        c + dc,
    ) is None && reaches(g, r + dr, c + dc, dr, dc, tr, tc, (fuel - 1) as nat)))
}

/// How many extra steps a piece may take in one direction.
pub open spec fn step_fuel(p: Piece) -> nat {
    if p.slides() {
        7
    } else {
        0
    }
}

/// The row step of a pawn of the given color.
pub open spec fn forward(c: Color) -> int {
    match c {
        Color::White => -1,
        Color::Black => 1,
    }
}

/// The piece `p` standing on (r, c) attacks square (tr, tc).
pub open spec fn attacks(g: Seq<Option<Piece>>, p: Piece, r: int, c: int, tr: int, tc: int) -> bool {
    match p {
        Piece::Pawn(color) => on_board(tr, tc) && tr == r + forward(color) && (tc == c + 1 || tc
            == c - 1),
        _ => exists|j: int|
            0 <= j < p.spec_directions().len() && #[trigger] reaches(
                g,
                r,
                c,
                p.spec_directions()[j].0 as int,
                p.spec_directions()[j].1 as int,
                tr,
                tc,
                step_fuel(p),
            ),
    }
}

/// Some piece of color `by` attacks square (tr, tc).
pub open spec fn attacked_by(g: Seq<Option<Piece>>, tr: int, tc: int, by: Color) -> bool {
    exists|r: int, c: int|
        on_board(r, c) && color_at(g, r, c, by) && #[trigger] attacks(
            g,
            at(g, r, c)->0,
            r,
            c,
            tr,
            tc,
        )
}

/// A king of color `color` stands on an attacked square.
pub open spec fn king_attacked(g: Seq<Option<Piece>>, color: Color) -> bool {
    exists|r: int, c: int|
        on_board(r, c) && #[trigger] at(g, r, c) == Some(Piece::King(color)) && attacked_by(
            g,
            r,
            c,
            color.spec_invert(),
        )
}

/// The piece on `from` of color `by` attacks a king of the other color.
pub open spec fn is_checker(g: Seq<Option<Piece>>, x: (Piece, SquareCoords), by: Color) -> bool {
    x.1.wf() && at(g, x.1.0 as int, x.1.1 as int) == Some(x.0) && x.0.spec_color() == by
        && exists|r: int, c: int|
        on_board(r, c) && #[trigger] at(g, r, c) == Some(Piece::King(by.spec_invert())) && attacks(
            g,
            x.0,
            x.1.0 as int,
            x.1.1 as int,
            r,
            c,
        )
}

/// Walks from (r, c) in direction (dr, dc) and tells whether (tr, tc) is met
/// before a blocker, in at most `fuel + 1` steps.
pub fn walk_reaches(
    g: &[Option<Piece>; 64],
    r: usize,
    c: usize,
    dr: i8,
    dc: i8,
    tr: usize,
    tc: usize,
    fuel: usize,
) -> (b: bool)
    requires
        r < 8,
        c < 8,
    ensures
        b == reaches(g@, r as int, c as int, dr as int, dc as int, tr as int, tc as int, fuel as nat),
{
    let mut cr: i32 = r as i32;
    let mut cc: i32 = c as i32;
    let mut f: usize = fuel;
    loop
        invariant
            0 <= cr < 8,
            0 <= cc < 8,
            f <= fuel,
            reaches(g@, r as int, c as int, dr as int, dc as int, tr as int, tc as int, fuel as nat)
                == reaches(g@, cr as int, cc as int, dr as int, dc as int, tr as int, tc as int, f as nat),
        decreases f,
    {
        let nr: i32 = cr + dr as i32;
        let nc: i32 = cc + dc as i32;
        if nr < 0 || nr >= 8 || nc < 0 || nc >= 8 {
            return false;
        }
        if nr as usize == tr && nc as usize == tc {
            return true;
        }
        if f == 0 || g[(nr * 8 + nc) as usize].is_some() {
            return false;
        }
        cr = nr;
        cc = nc;
        f = f - 1;
    }
}

/// Tells whether piece `p`, standing on (r, c), attacks (tr, tc).
pub fn piece_attacks(g: &[Option<Piece>; 64], p: Piece, r: usize, c: usize, tr: usize, tc: usize) -> (b: bool)
    requires
        r < 8,
        c < 8,
        tr < 8,
        tc < 8,
    ensures
        b == attacks(g@, p, r as int, c as int, tr as int, tc as int),
{
    match p {
        Piece::Pawn(color) => {
            let row_ok = match color {
                Color::White => tr + 1 == r,
                Color::Black => r + 1 == tr,
            };
            row_ok && (tc == c + 1 || tc + 1 == c)
        },
        _ => {
            let dirs = p.directions();
            let fuel: usize = if p.is_slider() { 7 } else { 0 };
            let mut j: usize = 0;
            while j < dirs.len()
                invariant
                    dirs@ == p.spec_directions(),
                    fuel as nat == step_fuel(p),
                    j <= dirs@.len(),
                    !(p is Pawn),
                    r < 8,
                    c < 8,
                    forall|jj: int|
                        0 <= jj < j ==> !#[trigger] reaches(
                            g@,
                            r as int,
                            c as int,
                            p.spec_directions()[jj].0 as int,
                            p.spec_directions()[jj].1 as int,
                            tr as int,
                            tc as int,
                            step_fuel(p),
                        ),
                decreases dirs.len() - j,
            {
                let (dr, dc) = dirs[j];
                if walk_reaches(g, r, c, dr, dc, tr, tc, fuel) {
                    return true;
                }
                j = j + 1;
            }
            false
        },
    }
}

/// Tells whether a piece of color `by` attacks (tr, tc).
pub fn square_attacked(g: &[Option<Piece>; 64], tr: usize, tc: usize, by: Color) -> (b: bool)
    requires
        tr < 8,
        tc < 8,
    ensures
        b == attacked_by(g@, tr as int, tc as int, by),
{
    let mut r: usize = 0;
    while r < 8
        invariant
            r <= 8,
            tr < 8,
            tc < 8,
            forall|rr: int, cc: int|
                0 <= rr < r && 0 <= cc < 8 && color_at(g@, rr, cc, by) ==> !#[trigger] attacks(
                    g@,
                    at(g@, rr, cc)->0,
                    rr,
                    cc,
                    tr as int,
                    tc as int,
                ),
        decreases 8 - r,
    {
        let mut c: usize = 0;
        while c < 8
            invariant
                r < 8,
                c <= 8,
                tr < 8,
                tc < 8,
                forall|rr: int, cc: int|
                    0 <= rr < r && 0 <= cc < 8 && color_at(g@, rr, cc, by) ==> !#[trigger] attacks(
                        g@,
                        at(g@, rr, cc)->0,
                        rr,
                        cc,
                        tr as int,
                        tc as int,
                    ),
                forall|cc: int|
                    0 <= cc < c && color_at(g@, r as int, cc, by) ==> !#[trigger] attacks(
                        g@,
                        at(g@, r as int, cc)->0,
                        r as int,
                        cc,
                        tr as int,
                        tc as int,
                    ),
            decreases 8 - c,
        {
            if let Some(p) = g[r * 8 + c] {
                if p.color() == by && piece_attacks(g, p, r, c, tr, tc) {
                    assert(at(g@, r as int, c as int) == Some(p));
                    assert(attacks(g@, at(g@, r as int, c as int)->0, r as int, c as int, tr as int, tc as int));
                    return true;
                }
            }
            c = c + 1;
        }
        r = r + 1;
    }
    false
}

/// Tells whether a king of color `color` is attacked.
pub fn king_in_check(g: &[Option<Piece>; 64], color: Color) -> (b: bool)
    ensures
        b == king_attacked(g@, color),
{
    let mut r: usize = 0;
    while r < 8
        invariant
            r <= 8,
            forall|rr: int, cc: int|
                0 <= rr < r && 0 <= cc < 8 && #[trigger] at(g@, rr, cc) == Some(Piece::King(color))
                    ==> !attacked_by(g@, rr, cc, color.spec_invert()),
        decreases 8 - r,
    {
        let mut c: usize = 0;
        while c < 8
            invariant
                r < 8,
                c <= 8,
                forall|rr: int, cc: int|
                    0 <= rr < r && 0 <= cc < 8 && #[trigger] at(g@, rr, cc) == Some(Piece::King(color))
                        ==> !attacked_by(g@, rr, cc, color.spec_invert()),
                forall|cc: int|
                    0 <= cc < c && #[trigger] at(g@, r as int, cc) == Some(Piece::King(color))
                        ==> !attacked_by(g@, r as int, cc, color.spec_invert()),
            decreases 8 - c,
        {
            if g[r * 8 + c] == Some(Piece::King(color)) {
                if square_attacked(g, r, c, color.invert()) {
                    assert(at(g@, r as int, c as int) == Some(Piece::King(color)));
                    return true;
                }
            }
            c = c + 1;
        }
        r = r + 1;
    }
    false
}

} // verus!
