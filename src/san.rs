//! The shapes of standard algebraic notation.

use vstd::prelude::*;
use crate::castle::{CastleKind, is_kingside_token, is_queenside_token};
use crate::piece::{PieceKind, kind_of_upper};
use crate::square::{SquareCoords, file_of, row_of, square_of_chars};

verus! {

/// What a SAN text asks for: a castle, or a piece kind going to a square,
/// with what the text says of the source square and of a promotion.
#[derive(Debug, Clone, Copy, PartialEq, Eq, Structural)]
pub struct SanPattern {
    pub castle: Option<CastleKind>,
    pub kind: PieceKind,
    pub dst: SquareCoords,
    pub from_row: Option<usize>,
    pub from_col: Option<usize>,
    pub promotion: Option<PieceKind>,
}

/// A check, mate or annotation mark that may close a SAN text.
pub open spec fn is_decoration(c: char) -> bool {
    c == '+' || c == '#' || c == '!' || c == '?'
}

/// The text without its closing marks.
pub open spec fn strip_marks(s: Seq<char>) -> Seq<char>
    decreases s.len(),
{
    if s.len() > 0 && is_decoration(s.last()) { strip_marks(s.drop_last()) } else { s }
}

/// A piece letter of SAN: K Q B N R (not P).
pub open spec fn piece_letter(c: char) -> bool {
    c == 'K' || c == 'Q' || c == 'B' || c == 'N' || c == 'R'
}

/// A promotion letter of SAN: Q B N R.
pub open spec fn promotion_letter(c: char) -> bool {
    c == 'Q' || c == 'B' || c == 'N' || c == 'R'
}

/// A rank on which a pawn can arrive without promoting (2 to 7).
pub open spec fn middle_rank(c: char) -> bool {
    row_of(c) is Some && 1 <= row_of(c)->0 <= 6
}

/// A last rank (1 or 8).
pub open spec fn end_rank(c: char) -> bool {
    c == '1' || c == '8'
}

pub open spec fn pattern(kind: PieceKind, dst: SquareCoords, from_row: Option<usize>, from_col: Option<usize>, promotion: Option<PieceKind>) -> SanPattern {
    SanPattern { castle: None, kind, dst, from_row, from_col, promotion }
}

pub open spec fn file_num(c: char) -> usize {
    file_of(c)->0 as usize
}

pub open spec fn row_num(c: char) -> usize {
    row_of(c)->0 as usize
}

pub open spec fn is_file(c: char) -> bool {
    file_of(c) is Some
}

pub open spec fn is_rank(c: char) -> bool {
    row_of(c) is Some
}

/// The shape of a SAN text, its closing marks set aside. Shapes are tried in
/// this order: castle, pawn push, piece move (plain, with a rank, a file or a
/// square of origin), pawn capture, piece capture (plain, with a rank, a
/// file or a square of origin), promotion, capture with promotion.
pub open spec fn san_pattern(s: Seq<char>) -> Option<SanPattern> {
    shape(strip_marks(s))
}

/// The shape of a SAN text without closing marks.
pub open spec fn shape(t: Seq<char>) -> Option<SanPattern> {
    if is_kingside_token(t) {
        Some(SanPattern { castle: Some(CastleKind::Kingside), kind: PieceKind::King, dst: SquareCoords(0, 0), from_row: None, from_col: None, promotion: None })
    } else if is_queenside_token(t) {
        Some(SanPattern { castle: Some(CastleKind::Queenside), kind: PieceKind::King, dst: SquareCoords(0, 0), from_row: None, from_col: None, promotion: None })
    } else if t.len() == 2 {
        shape2(t)
    } else if t.len() == 3 {
        shape3(t)
    } else if t.len() == 4 {
        shape4(t)
    } else if t.len() == 5 {
        shape5(t)
    } else if t.len() == 6 {
        shape6(t)
    } else {
        None
    }
}

/// Shapes of 2 characters.
pub open spec fn shape2(t: Seq<char>) -> Option<SanPattern> {
    if is_file(t[0]) && middle_rank(t[1]) {
        Some(pattern(PieceKind::Pawn, square_of_chars(t[0], t[1])->0, None, Some(file_num(t[0])), None))
    } else {
        None
    }
}

/// Shapes of 3 characters.
pub open spec fn shape3(t: Seq<char>) -> Option<SanPattern> {
    if piece_letter(t[0]) && is_file(t[1]) && is_rank(t[2]) {
        Some(pattern(kind_of_upper(t[0])->0, square_of_chars(t[1], t[2])->0, None, None, None))
    } else {
        None
    }
}

/// Shapes of 4 characters.
pub open spec fn shape4(t: Seq<char>) -> Option<SanPattern> {
    if piece_letter(t[0]) && is_rank(t[1]) && is_file(t[2]) && is_rank(t[3]) {
        Some(pattern(kind_of_upper(t[0])->0, square_of_chars(t[2], t[3])->0, Some(row_num(t[1])), None, None))
    } else if piece_letter(t[0]) && is_file(t[1]) && is_file(t[2]) && is_rank(t[3]) {
        Some(pattern(kind_of_upper(t[0])->0, square_of_chars(t[2], t[3])->0, None, Some(file_num(t[1])), None))
    } else if is_file(t[0]) && t[1] == 'x' && is_file(t[2]) && middle_rank(t[3]) {
        Some(pattern(PieceKind::Pawn, square_of_chars(t[2], t[3])->0, None, Some(file_num(t[0])), None))
    } else if piece_letter(t[0]) && t[1] == 'x' && is_file(t[2]) && is_rank(t[3]) {
        Some(pattern(kind_of_upper(t[0])->0, square_of_chars(t[2], t[3])->0, None, None, None))
    } else if is_file(t[0]) && end_rank(t[1]) && t[2] == '=' && promotion_letter(t[3]) {
        Some(pattern(PieceKind::Pawn, square_of_chars(t[0], t[1])->0, None, Some(file_num(t[0])), Some(kind_of_upper(t[3])->0)))
    } else {
        None
    }
}

/// Shapes of 5 characters.
pub open spec fn shape5(t: Seq<char>) -> Option<SanPattern> {
    if piece_letter(t[0]) && is_file(t[1]) && is_rank(t[2]) && is_file(t[3]) && is_rank(t[4]) {
        Some(pattern(kind_of_upper(t[0])->0, square_of_chars(t[3], t[4])->0, Some(row_num(t[2])), Some(file_num(t[1])), None))
    } else if piece_letter(t[0]) && is_rank(t[1]) && t[2] == 'x' && is_file(t[3]) && is_rank(t[4]) {
        Some(pattern(kind_of_upper(t[0])->0, square_of_chars(t[3], t[4])->0, Some(row_num(t[1])), None, None))
    } else if piece_letter(t[0]) && is_file(t[1]) && t[2] == 'x' && is_file(t[3]) && is_rank(t[4]) {
        Some(pattern(kind_of_upper(t[0])->0, square_of_chars(t[3], t[4])->0, None, Some(file_num(t[1])), None))
    } else {
        None
    }
}

/// Shapes of 6 characters.
pub open spec fn shape6(t: Seq<char>) -> Option<SanPattern> {
    if piece_letter(t[0]) && is_file(t[1]) && is_rank(t[2]) && t[3] == 'x' && is_file(t[4]) && is_rank(t[5]) {
        Some(pattern(kind_of_upper(t[0])->0, square_of_chars(t[4], t[5])->0, Some(row_num(t[2])), Some(file_num(t[1])), None))
    } else if is_file(t[0]) && t[1] == 'x' && is_file(t[2]) && end_rank(t[3]) && t[4] == '=' && promotion_letter(t[5]) {
        Some(pattern(PieceKind::Pawn, square_of_chars(t[2], t[3])->0, None, Some(file_num(t[0])), Some(kind_of_upper(t[5])->0)))
    } else {
        None
    }
}

/// Removes the closing marks.
fn strip_marks_exec(s: &Vec<char>) -> (r: Vec<char>)
    ensures
        r@ == strip_marks(s@),
{
    let mut n: usize = s.len();
    assert(s@.subrange(0, s@.len() as int) =~= s@);
    while n > 0 && (s[n - 1] == '+' || s[n - 1] == '#' || s[n - 1] == '!' || s[n - 1] == '?')
        invariant
            n <= s@.len(),
            strip_marks(s@.subrange(0, n as int)) == strip_marks(s@),
        decreases n,
    {
        assert(s@.subrange(0, n as int).drop_last() =~= s@.subrange(0, n - 1));
        n = n - 1;
    }
    let mut r: Vec<char> = Vec::new();
    let mut i: usize = 0;
    while i < n
        invariant
            i <= n,
            n <= s@.len(),
            r@ == s@.subrange(0, i as int),
        decreases n - i,
    {
        r.push(s[i]);
        assert(r@ =~= s@.subrange(0, i + 1));
        i = i + 1;
    }
    proof {
        let t = s@.subrange(0, n as int);
        assert(r@ =~= t);
        assert(strip_marks(t) == t);
    }
    r
}

fn piece_letter_exec(c: char) -> (r: bool)
    ensures
        r == piece_letter(c),
        r ==> kind_of_upper(c) is Some,
{
    c == 'K' || c == 'Q' || c == 'B' || c == 'N' || c == 'R'
}

fn promotion_letter_exec(c: char) -> (r: bool)
    ensures
        r == promotion_letter(c),
        r ==> kind_of_upper(c) is Some,
{
    c == 'Q' || c == 'B' || c == 'N' || c == 'R'
}

fn kind_exec(c: char) -> (k: PieceKind)
    requires
        kind_of_upper(c) is Some,
    ensures
        k == kind_of_upper(c)->0,
{
    if c == 'P' { PieceKind::Pawn }
    else if c == 'N' { PieceKind::Knight }
    else if c == 'B' { PieceKind::Bishop }
    else if c == 'R' { PieceKind::Rook }
    else if c == 'Q' { PieceKind::Queen }
    else { PieceKind::King }
}

fn file_exec(c: char) -> (r: Option<usize>)
    ensures
        r is Some == is_file(c),
        r is Some ==> r->0 == file_num(c) && r->0 < 8,
{
    crate::square::char_to_file(c)
}

fn rank_exec(c: char) -> (r: Option<usize>)
    ensures
        r is Some == is_rank(c),
        r is Some ==> r->0 == row_num(c) && r->0 < 8,
{
    crate::square::char_to_row(c)
}

fn middle_rank_exec(c: char) -> (r: bool)
    ensures
        r == middle_rank(c),
{
    match crate::square::char_to_row(c) {
        Some(row) => 1 <= row && row <= 6,
        None => false,
    }
}

fn sq(f: char, r: char) -> (s: SquareCoords)
    requires
        is_file(f),
        is_rank(r),
    ensures
        s == square_of_chars(f, r)->0,
{
    crate::square::square_from_chars(f, r).unwrap()
}

/// Reads the shape of a SAN text.
pub fn parse_san_pattern(s: &Vec<char>) -> (r: Option<SanPattern>)
    ensures
        r == san_pattern(s@),
{
    let t = strip_marks_exec(s);
    match CastleKind::from_san_chars(&t) {
        Some(k) => {
            return Some(SanPattern { castle: Some(k), kind: PieceKind::King, dst: SquareCoords(0, 0), from_row: None, from_col: None, promotion: None });
        },
        None => {},
    }
    let n = t.len();
    if n == 2 {
        shape2_exec(&t)
    } else if n == 3 {
        shape3_exec(&t)
    } else if n == 4 {
        shape4_exec(&t)
    } else if n == 5 {
        shape5_exec(&t)
    } else if n == 6 {
        shape6_exec(&t)
    } else {
        None
    }
}

fn shape2_exec(t: &Vec<char>) -> (r: Option<SanPattern>)
    requires
        t@.len() == 2,
    ensures
        r == shape2(t@),
{
    if file_exec(t[0]).is_some() && middle_rank_exec(t[1]) {
        return Some(SanPattern { castle: None, kind: PieceKind::Pawn, dst: sq(t[0], t[1]), from_row: None, from_col: file_exec(t[0]), promotion: None });
    }
    None
}

fn shape3_exec(t: &Vec<char>) -> (r: Option<SanPattern>)
    requires
        t@.len() == 3,
    ensures
        r == shape3(t@),
{
    if piece_letter_exec(t[0]) && file_exec(t[1]).is_some() && rank_exec(t[2]).is_some() {
        return Some(SanPattern { castle: None, kind: kind_exec(t[0]), dst: sq(t[1], t[2]), from_row: None, from_col: None, promotion: None });
    }
    None
}

fn shape4_exec(t: &Vec<char>) -> (r: Option<SanPattern>)
    requires
        t@.len() == 4,
    ensures
        r == shape4(t@),
{
    if piece_letter_exec(t[0]) && rank_exec(t[1]).is_some() && file_exec(t[2]).is_some() && rank_exec(t[3]).is_some() {
        return Some(SanPattern { castle: None, kind: kind_exec(t[0]), dst: sq(t[2], t[3]), from_row: rank_exec(t[1]), from_col: None, promotion: None });
    }
    if piece_letter_exec(t[0]) && file_exec(t[1]).is_some() && file_exec(t[2]).is_some() && rank_exec(t[3]).is_some() {
        return Some(SanPattern { castle: None, kind: kind_exec(t[0]), dst: sq(t[2], t[3]), from_row: None, from_col: file_exec(t[1]), promotion: None });
    }
    if file_exec(t[0]).is_some() && t[1] == 'x' && file_exec(t[2]).is_some() && middle_rank_exec(t[3]) {
        return Some(SanPattern { castle: None, kind: PieceKind::Pawn, dst: sq(t[2], t[3]), from_row: None, from_col: file_exec(t[0]), promotion: None });
    }
    if piece_letter_exec(t[0]) && t[1] == 'x' && file_exec(t[2]).is_some() && rank_exec(t[3]).is_some() {
        return Some(SanPattern { castle: None, kind: kind_exec(t[0]), dst: sq(t[2], t[3]), from_row: None, from_col: None, promotion: None });
    }
    if file_exec(t[0]).is_some() && (t[1] == '1' || t[1] == '8') && t[2] == '=' && promotion_letter_exec(t[3]) {
        return Some(SanPattern { castle: None, kind: PieceKind::Pawn, dst: sq(t[0], t[1]), from_row: None, from_col: file_exec(t[0]), promotion: Some(kind_exec(t[3])) });
    }
    None
}

fn shape5_exec(t: &Vec<char>) -> (r: Option<SanPattern>)
    requires
        t@.len() == 5,
    ensures
        r == shape5(t@),
{
    if piece_letter_exec(t[0]) && file_exec(t[1]).is_some() && rank_exec(t[2]).is_some() && file_exec(t[3]).is_some() && rank_exec(t[4]).is_some() {
        return Some(SanPattern { castle: None, kind: kind_exec(t[0]), dst: sq(t[3], t[4]), from_row: rank_exec(t[2]), from_col: file_exec(t[1]), promotion: None });
    }
    if piece_letter_exec(t[0]) && rank_exec(t[1]).is_some() && t[2] == 'x' && file_exec(t[3]).is_some() && rank_exec(t[4]).is_some() {
        return Some(SanPattern { castle: None, kind: kind_exec(t[0]), dst: sq(t[3], t[4]), from_row: rank_exec(t[1]), from_col: None, promotion: None });
    }
    if piece_letter_exec(t[0]) && file_exec(t[1]).is_some() && t[2] == 'x' && file_exec(t[3]).is_some() && rank_exec(t[4]).is_some() {
        return Some(SanPattern { castle: None, kind: kind_exec(t[0]), dst: sq(t[3], t[4]), from_row: None, from_col: file_exec(t[1]), promotion: None });
    }
    None
}

fn shape6_exec(t: &Vec<char>) -> (r: Option<SanPattern>)
    requires
        t@.len() == 6,
    ensures
        r == shape6(t@),
{
    if piece_letter_exec(t[0]) && file_exec(t[1]).is_some() && rank_exec(t[2]).is_some() && t[3] == 'x' && file_exec(t[4]).is_some() && rank_exec(t[5]).is_some() {
        return Some(SanPattern { castle: None, kind: kind_exec(t[0]), dst: sq(t[4], t[5]), from_row: rank_exec(t[2]), from_col: file_exec(t[1]), promotion: None });
    }
    if file_exec(t[0]).is_some() && t[1] == 'x' && file_exec(t[2]).is_some() && (t[3] == '1' || t[3] == '8') && t[4] == '=' && promotion_letter_exec(t[5]) {
        return Some(SanPattern { castle: None, kind: PieceKind::Pawn, dst: sq(t[2], t[3]), from_row: None, from_col: file_exec(t[0]), promotion: Some(kind_exec(t[5])) });
    }
    None
}

} // verus!
