//! Writing a position as FEN text.

use vstd::prelude::*;
use crate::board::{Board, CastlingRights, at};
use crate::piece::Piece;
use crate::square::SquareCoords;

verus! {

/// The decimal digit of a value in 0..10.
pub open spec fn digit_char(d: int) -> char {
    if d == 0 { '0' }
    else if d == 1 { '1' }
    else if d == 2 { '2' }
    else if d == 3 { '3' }
    else if d == 4 { '4' }
    else if d == 5 { '5' }
    else if d == 6 { '6' }
    else if d == 7 { '7' }
    else if d == 8 { '8' }
    else { '9' }
}

/// The value of a decimal digit character.
pub open spec fn digit_value(c: char) -> Option<int> {
    if c == '0' { Some(0) }
    else if c == '1' { Some(1) }
    else if c == '2' { Some(2) }
    else if c == '3' { Some(3) }
    else if c == '4' { Some(4) }
    else if c == '5' { Some(5) }
    else if c == '6' { Some(6) }
    else if c == '7' { Some(7) }
    else if c == '8' { Some(8) }
    else if c == '9' { Some(9) }
    else { None }
}

/// The decimal text of a natural number, without leading zeros.
pub open spec fn nat_text(n: nat) -> Seq<char>
    decreases n,
{
    if n < 10 {
        seq![digit_char(n as int)]
    } else {
        nat_text(n / 10).push(digit_char((n % 10) as int))
    }
}

/// The text of rank `r` of a grid from column `c` on, `empty` empty squares
/// having been passed just before column `c`.
pub open spec fn rank_text_from(g: Seq<Option<Piece>>, r: int, c: int, empty: nat) -> Seq<char>
    decreases 8 - c,
{
    if c >= 8 {
        if empty > 0 { seq![digit_char(empty as int)] } else { Seq::empty() }
    } else if at(g, r, c) is None {
        rank_text_from(g, r, c + 1, empty + 1)
    } else {
        let lead: Seq<char> = if empty > 0 { seq![digit_char(empty as int)] } else { Seq::empty() };
        lead.push(at(g, r, c)->0.fen_char()) + rank_text_from(g, r, c + 1, 0)
    }
}

/// The FEN text of rank `r`: pieces by their letters, runs of empty squares
/// by their length.
pub open spec fn rank_text(g: Seq<Option<Piece>>, r: int) -> Seq<char> {
    rank_text_from(g, r, 0, 0)
}

/// The piece placement field from rank `r` down to the last one.
pub open spec fn placement_text(g: Seq<Option<Piece>>, r: int) -> Seq<char>
    decreases 8 - r,
{
    if r >= 7 {
        rank_text(g, 7)
    } else {
        rank_text(g, r).push('/') + placement_text(g, r + 1)
    }
}

/// The castling field: "-" or the held rights in the order K Q k q.
pub open spec fn castling_text(c: CastlingRights) -> Seq<char> {
    let s = (if c.white_kingside { seq!['K'] } else { Seq::<char>::empty() })
        + (if c.white_queenside { seq!['Q'] } else { Seq::<char>::empty() })
        + (if c.black_kingside { seq!['k'] } else { Seq::<char>::empty() })
        + (if c.black_queenside { seq!['q'] } else { Seq::<char>::empty() });
    if s.len() == 0 { seq!['-'] } else { s }
}

/// The en passant field: "-" or the square's name.
pub open spec fn en_passant_text(ep: Option<SquareCoords>) -> Seq<char> {
    match ep {
        None => seq!['-'],
        Some(s) => s.name(),
    }
}

/// The first four fields of the FEN text: what a repetition compares.
pub open spec fn position_key(b: Board) -> Seq<char> {
    placement_text(b.squares@, 0) + seq![' ', b.active_color.spec_fen_char(), ' ']
        + castling_text(b.castle_rights) + seq![' '] + en_passant_text(b.en_passant_target)
}

/// The FEN text of a position.
pub open spec fn fen_text(b: Board) -> Seq<char> {
    position_key(b) + seq![' '] + nat_text(b.halfmove_clock as nat) + seq![' ']
        + nat_text(b.fullmove_number as nat)
}

/// Appends the decimal text of `n`.
pub fn write_nat(out: &mut Vec<char>, n: u32)
    ensures
        final(out)@ == old(out)@ + nat_text(n as nat),
    decreases n,
{
    if n >= 10 {
        write_nat(out, n / 10);
    }
    out.push(digit_to_char(n % 10));
    assert(final(out)@ =~= old(out)@ + nat_text(n as nat));
}

/// The character of a decimal digit.
pub fn digit_to_char(d: u32) -> (c: char)
    requires
        d < 10,
    ensures
        c == digit_char(d as int),
        digit_value(c) == Some(d as int),
{
    if d == 0 { '0' }
    else if d == 1 { '1' }
    else if d == 2 { '2' }
    else if d == 3 { '3' }
    else if d == 4 { '4' }
    else if d == 5 { '5' }
    else if d == 6 { '6' }
    else if d == 7 { '7' }
    else if d == 8 { '8' }
    else { '9' }
}

/// Appends the FEN text of rank `r`.
fn write_rank(out: &mut Vec<char>, g: &[Option<Piece>; 64], r: usize)
    requires
        r < 8,
    ensures
        final(out)@ == old(out)@ + rank_text(g@, r as int),
{
    let mut c: usize = 0;
    let mut empty: u32 = 0;
    while c < 8
        invariant
            r < 8,
            c <= 8,
            empty <= c,
            out@ + rank_text_from(g@, r as int, c as int, empty as nat) == old(out)@ + rank_text(g@, r as int),
        decreases 8 - c,
    {
        match g[r * 8 + c] {
            None => {
                empty = empty + 1;
            },
            Some(p) => {
                let ghost before = out@;
                if empty > 0 {
                    out.push(digit_to_char(empty));
                }
                out.push(p.to_fen_char());
                assert(out@ + rank_text_from(g@, r as int, c + 1, 0) =~= before + rank_text_from(g@, r as int, c as int, empty as nat));
                empty = 0;
            },
        }
        c = c + 1;
    }
    let ghost before = out@;
    if empty > 0 {
        out.push(digit_to_char(empty));
    }
    assert(out@ =~= before + rank_text_from(g@, r as int, 8, empty as nat));
}

/// Appends the piece placement field.
fn write_placement(out: &mut Vec<char>, g: &[Option<Piece>; 64])
    ensures
        final(out)@ == old(out)@ + placement_text(g@, 0),
{
    let mut r: usize = 0;
    while r < 7
        invariant
            r <= 7,
            out@ + placement_text(g@, r as int) == old(out)@ + placement_text(g@, 0),
        decreases 7 - r,
    {
        let ghost before = out@;
        write_rank(out, g, r);
        out.push('/');
        assert(out@ + placement_text(g@, r + 1) =~= before + placement_text(g@, r as int));
        r = r + 1;
    }
    let ghost before = out@;
    write_rank(out, g, 7);
    assert(out@ =~= before + placement_text(g@, 7));
}

/// Appends the castling field.
fn write_castling(out: &mut Vec<char>, c: CastlingRights)
    ensures
        final(out)@ == old(out)@ + castling_text(c),
{
    let start = out.len();
    if c.white_kingside { out.push('K'); }
    if c.white_queenside { out.push('Q'); }
    if c.black_kingside { out.push('k'); }
    if c.black_queenside { out.push('q'); }
    if out.len() == start {
        out.push('-');
    }
    assert(final(out)@ =~= old(out)@ + castling_text(c));
}

impl CastlingRights {
    /// The FEN castling field of the rights: "-" or the held rights in the
    /// order K Q k q.
    pub fn fen(&self) -> (r: String)
        ensures
            r@ == castling_text(*self),
    {
        let mut v: Vec<char> = Vec::new();
        write_castling(&mut v, *self);
        assert(v@ =~= castling_text(*self));
        crate::text::string_of(&v)
    }
}

impl Board {
    /// The first four FEN fields of the position, as characters.
    pub fn position_key_chars(&self) -> (r: Vec<char>)
        requires
            self.en_passant_target is Some ==> self.en_passant_target->0.wf(),
        ensures
            r@ == position_key(*self),
    {
        let mut out: Vec<char> = Vec::new();
        write_placement(&mut out, &self.squares);
        out.push(' ');
        out.push(self.active_color.to_fen_char());
        out.push(' ');
        write_castling(&mut out, self.castle_rights);
        out.push(' ');
        match self.en_passant_target {
            None => out.push('-'),
            Some(s) => {
                let name = s.to_chars();
                crate::text::extend_chars(&mut out, &name);
            },
        }
        assert(out@ =~= position_key(*self));
        out
    }

    /// The FEN text of the position, as characters.
    pub fn fen_chars(&self) -> (r: Vec<char>)
        requires
            self.en_passant_target is Some ==> self.en_passant_target->0.wf(),
        ensures
            r@ == fen_text(*self),
    {
        let mut out = self.position_key_chars();
        out.push(' ');
        write_nat(&mut out, self.halfmove_clock);
        out.push(' ');
        write_nat(&mut out, self.fullmove_number);
        assert(out@ =~= fen_text(*self));
        out
    }

    /// The FEN text of the position.
    pub fn fen(&self) -> (r: String)
        requires
            self.en_passant_target is Some ==> self.en_passant_target->0.wf(),
        ensures
            r@ == fen_text(*self),
    {
        let v = self.fen_chars();
        crate::text::string_of(&v)
    }
}

} // verus!
