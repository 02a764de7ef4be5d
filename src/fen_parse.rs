//! Reading a position from FEN text.

use vstd::prelude::*;
use crate::board::{Board, CastlingRights};
use crate::castle::{CastleRights, right_of_fen};
use crate::color::Color;
use crate::fen::{digit_value, fen_text};
use crate::piece::{Piece, piece_of_fen};
use crate::square::{SquareCoords, square_of_chars};

verus! {

/// What a FEN text can be wrong in.
#[derive(Debug, Clone, Copy, PartialEq, Eq, Structural)]
pub enum FenParseError {
    /// Fewer than four or more than six fields.
    Blocks,
    /// Not exactly eight ranks.
    Ranks,
    /// A rank that does not cover exactly eight squares.
    RankSquares,
    /// A character that is neither a piece letter, a digit 1-8 nor '/'.
    PieceChar,
    /// Not exactly one king of this color.
    KingCount(Color),
    /// An active color other than "w" or "b".
    ActiveColor,
    /// A castling field other than "-" or letters among K, Q, k, q.
    CastleRights,
    /// An en passant field other than "-" or a square name.
    EnPassant,
    /// A half-move clock that is not a number of type u32.
    HalfmoveClock,
    /// A full-move number that is not a number of type u32.
    FullmoveNumber,
}

/// The fields of a position that a FEN text states.
pub struct FenFields {
    pub squares: Seq<Option<Piece>>,
    pub active_color: Color,
    pub castle_rights: CastlingRights,
    pub en_passant_target: Option<SquareCoords>,
    pub halfmove_clock: u32,
    pub fullmove_number: u32,
}

pub open spec fn is_space(c: char) -> bool {
    c == ' ' || c == '\t' || c == '\n' || c == '\r'
}

/// The whitespace-separated fields of `s` from position `i`, `cur` being
/// the part of a field read before `i`.
pub open spec fn fields_from(s: Seq<char>, i: int, cur: Seq<char>) -> Seq<Seq<char>>
    decreases s.len() - i,
{
    if i >= s.len() {
        if cur.len() > 0 { seq![cur] } else { Seq::empty() }
    } else if is_space(s[i]) {
        (if cur.len() > 0 { seq![cur] } else { Seq::<Seq<char>>::empty() }) + fields_from(s, i + 1, Seq::empty())
    } else {
        fields_from(s, i + 1, cur.push(s[i]))
    }
}

/// The whitespace-separated fields of `s`.
pub open spec fn split_fields(s: Seq<char>) -> Seq<Seq<char>> {
    fields_from(s, 0, Seq::empty())
}

/// The value of a digit in a rank, as a run of empty squares.
pub open spec fn run_length(c: char) -> Option<int> {
    digit_value(c)
}

/// How many of the first `n` characters are '/'.
pub open spec fn count_slashes(p: Seq<char>, n: int) -> nat
    decreases n,
{
    if n <= 0 {
        0
    } else {
        count_slashes(p, n - 1) + if p[n - 1] == '/' { 1nat } else { 0nat }
    }
}

/// The placement field is made of eight ranks.
pub open spec fn eight_ranks(p: Seq<char>) -> bool {
    count_slashes(p, p.len() as int) == 7
}

/// Reads the placement field from position `i`, at square (row, col) of a
/// grid filled so far.
pub open spec fn decode_placement(p: Seq<char>, i: int, row: int, col: int, g: Seq<Option<Piece>>) -> Result<Seq<Option<Piece>>, FenParseError>
    decreases p.len() - i,
{
    if i >= p.len() {
        if row < 7 {
            Err(FenParseError::Ranks)
        } else if col != 8 {
            Err(FenParseError::RankSquares)
        } else {
            Ok(g)
        }
    } else if p[i] == '/' {
        if col != 8 {
            Err(FenParseError::RankSquares)
        } else if row >= 7 {
            Err(FenParseError::Ranks)
        } else {
            decode_placement(p, i + 1, row + 1, 0, g)
        }
    } else if run_length(p[i]) is Some {
        if col + run_length(p[i])->0 > 8 {
            Err(FenParseError::RankSquares)
        } else {
            decode_placement(p, i + 1, row, col + run_length(p[i])->0, g)
        }
    } else if piece_of_fen(p[i]) is Some {
        if col >= 8 {
            Err(FenParseError::RankSquares)
        } else {
            decode_placement(p, i + 1, row, col + 1, g.update(row * 8 + col, piece_of_fen(p[i])))
        }
    } else {
        Err(FenParseError::PieceChar)
    }
}

/// The 64 empty squares.
pub open spec fn empty_grid() -> Seq<Option<Piece>> {
    Seq::new(64, |i: int| None)
}

/// How many squares among the first `n` hold `p`.
pub open spec fn count_piece(g: Seq<Option<Piece>>, p: Piece, n: int) -> nat
    decreases n,
{
    if n <= 0 {
        0
    } else {
        count_piece(g, p, n - 1) + if g[n - 1] == Some(p) { 1nat } else { 0nat }
    }
}

/// Reads the castling field from position `i` on.
pub open spec fn castling_from(f: Seq<char>, i: int, acc: CastlingRights) -> Option<CastlingRights>
    decreases f.len() - i,
{
    if i >= f.len() {
        Some(acc)
    } else if right_of_fen(f[i]) is Some {
        castling_from(f, i + 1, with_right(acc, right_of_fen(f[i])->0))
    } else {
        None
    }
}

pub open spec fn with_right(c: CastlingRights, r: CastleRights) -> CastlingRights {
    match r {
        CastleRights::WhiteKingside => CastlingRights { white_kingside: true, ..c },
        CastleRights::WhiteQueenside => CastlingRights { white_queenside: true, ..c },
        CastleRights::BlackKingside => CastlingRights { black_kingside: true, ..c },
        CastleRights::BlackQueenside => CastlingRights { black_queenside: true, ..c },
    }
}

pub open spec fn no_rights() -> CastlingRights {
    CastlingRights { white_kingside: false, white_queenside: false, black_kingside: false, black_queenside: false }
}

/// The castling field: "-", or letters among K Q k q.
pub open spec fn castling_field(f: Seq<char>) -> Option<CastlingRights> {
    if f == seq!['-'] { Some(no_rights()) } else { castling_from(f, 0, no_rights()) }
}

/// The en passant field: "-" or a square name.
pub open spec fn en_passant_field(f: Seq<char>) -> Option<Option<SquareCoords>> {
    if f == seq!['-'] {
        Some(None)
    } else if f.len() == 2 && square_of_chars(f[0], f[1]) is Some {
        Some(square_of_chars(f[0], f[1]))
    } else {
        None
    }
}

/// The value of a string of decimal digits read up to position `n`.
pub open spec fn digits_value(f: Seq<char>, n: int) -> int
    decreases n,
{
    if n <= 0 { 0 } else { digits_value(f, n - 1) * 10 + digit_value(f[n - 1])->0 }
}

/// A field of one or more decimal digits whose value fits in u32.
pub open spec fn number_field(f: Seq<char>) -> Option<u32> {
    if f.len() > 0 && (forall|i: int| 0 <= i < f.len() ==> #[trigger] digit_value(f[i]) is Some)
        && digits_value(f, f.len() as int) <= u32::MAX {
        Some(digits_value(f, f.len() as int) as u32)
    } else {
        None
    }
}

/// What a FEN text states, or the first field found wrong: the number of
/// fields, the number of ranks, the squares of each rank, the kings, the active color, the castling rights,
/// the en passant square and the two clocks, in this order. The clocks may be
/// left out and are then 0 and 1.
pub open spec fn parse_fen_spec(s: Seq<char>) -> Result<FenFields, FenParseError> {
    let fs = split_fields(s);
    if fs.len() < 4 || fs.len() > 6 {
        Err(FenParseError::Blocks)
    } else {
        let placed = decode_placement(fs[0], 0, 0, 0, empty_grid());
        if !eight_ranks(fs[0]) {
            Err(FenParseError::Ranks)
        } else if placed is Err {
            Err(placed->Err_0)
        } else if count_piece(placed->Ok_0, Piece::King(Color::White), 64) != 1 {
            Err(FenParseError::KingCount(Color::White))
        } else if count_piece(placed->Ok_0, Piece::King(Color::Black), 64) != 1 {
            Err(FenParseError::KingCount(Color::Black))
        } else if fs[1] != seq!['w'] && fs[1] != seq!['b'] {
            Err(FenParseError::ActiveColor)
        } else if castling_field(fs[2]) is None {
            Err(FenParseError::CastleRights)
        } else if en_passant_field(fs[3]) is None {
            Err(FenParseError::EnPassant)
        } else if fs.len() > 4 && number_field(fs[4]) is None {
            Err(FenParseError::HalfmoveClock)
        } else if fs.len() > 5 && number_field(fs[5]) is None {
            Err(FenParseError::FullmoveNumber)
        } else {
            Ok(FenFields {
                squares: placed->Ok_0,
                active_color: if fs[1] == seq!['w'] { Color::White } else { Color::Black },
                castle_rights: castling_field(fs[2])->0,
                en_passant_target: en_passant_field(fs[3])->0,
                halfmove_clock: if fs.len() > 4 { number_field(fs[4])->0 } else { 0 },
                fullmove_number: if fs.len() > 5 { number_field(fs[5])->0 } else { 1 },
            })
        }
    }
}

/// The fields of a board that its FEN text states.
pub open spec fn fields_of(b: Board) -> FenFields {
    FenFields {
        squares: b.squares@,
        active_color: b.active_color,
        castle_rights: b.castle_rights,
        en_passant_target: b.en_passant_target,
        halfmove_clock: b.halfmove_clock,
        fullmove_number: b.fullmove_number,
    }
}

} // verus!

verus! {

/// Splits characters into whitespace-separated fields.
pub fn split_fields_exec(s: &Vec<char>) -> (r: Vec<Vec<char>>)
    ensures
        r@.len() == split_fields(s@).len(),
        forall|k: int| 0 <= k < r@.len() ==> #[trigger] r@[k]@ == split_fields(s@)[k],
{
    let mut acc: Vec<Vec<char>> = Vec::new();
    let ghost mut accs: Seq<Seq<char>> = Seq::empty();
    let mut cur: Vec<char> = Vec::new();
    let mut i: usize = 0;
    while i < s.len()
        invariant
            i <= s@.len(),
            acc@.len() == accs.len(),
            forall|k: int| 0 <= k < acc@.len() ==> #[trigger] acc@[k]@ == accs[k],
            accs + fields_from(s@, i as int, cur@) == split_fields(s@),
        decreases s.len() - i,
    {
        let c = s[i];
        if c == ' ' || c == '\t' || c == '\n' || c == '\r' {
            if cur.len() > 0 {
                proof {
                    assert(accs + fields_from(s@, i as int, cur@) =~= accs.push(cur@) + fields_from(s@, i + 1, Seq::empty()));
                    accs = accs.push(cur@);
                }
                acc.push(cur);
                cur = Vec::new();
            } else {
                assert(accs + fields_from(s@, i as int, cur@) =~= accs + fields_from(s@, i + 1, Seq::empty()));
                cur = Vec::new();
            }
            assert(cur@ =~= Seq::<char>::empty());
        } else {
            cur.push(c);
        }
        i = i + 1;
    }
    if cur.len() > 0 {
        proof {
            assert(accs + fields_from(s@, i as int, cur@) =~= accs.push(cur@));
            accs = accs.push(cur@);
        }
        acc.push(cur);
    } else {
        assert(accs + fields_from(s@, i as int, cur@) =~= accs);
    }
    acc
}

/// Reads the value of a rank digit.
fn run_length_exec(c: char) -> (r: Option<usize>)
    ensures
        r == (if run_length(c) is Some { Some(run_length(c)->0 as usize) } else { None::<usize> }),
        r is Some ==> r->0 <= 9,
{
    match c {
        '0' => Some(0),
        '9' => Some(9),
        '1' => Some(1),
        '2' => Some(2),
        '3' => Some(3),
        '4' => Some(4),
        '5' => Some(5),
        '6' => Some(6),
        '7' => Some(7),
        '8' => Some(8),
        _ => None,
    }
}

/// Counts the '/' characters.
fn count_slashes_exec(p: &Vec<char>) -> (n: usize)
    ensures
        n == count_slashes(p@, p@.len() as int),
{
    let mut n: usize = 0;
    let mut i: usize = 0;
    while i < p.len()
        invariant
            i <= p@.len(),
            n == count_slashes(p@, i as int),
            n <= i,
        decreases p.len() - i,
    {
        if p[i] == '/' {
            n = n + 1;
        }
        i = i + 1;
    }
    n
}

/// Reads the piece placement field into a grid.
pub fn parse_placement(p: &Vec<char>) -> (r: Result<[Option<Piece>; 64], FenParseError>)
    ensures
        match r {
            Ok(g) => decode_placement(p@, 0, 0, 0, empty_grid()) == Ok::<Seq<Option<Piece>>, FenParseError>(g@),
            Err(e) => decode_placement(p@, 0, 0, 0, empty_grid()) == Err::<Seq<Option<Piece>>, FenParseError>(e),
        },
{
    let mut g: [Option<Piece>; 64] = vstd::array::array_fill_for_copy_types(None);
    assert(g@ =~= empty_grid());
    let mut row: usize = 0;
    let mut col: usize = 0;
    let mut i: usize = 0;
    while i < p.len()
        invariant
            i <= p@.len(),
            row <= 7,
            col <= 8,
            decode_placement(p@, i as int, row as int, col as int, g@) == decode_placement(p@, 0, 0, 0, empty_grid()),
        decreases p.len() - i,
    {
        let c = p[i];
        if c == '/' {
            if col != 8 {
                return Err(FenParseError::RankSquares);
            }
            if row >= 7 {
                return Err(FenParseError::Ranks);
            }
            row = row + 1;
            col = 0;
        } else {
            match run_length_exec(c) {
                Some(n) => {
                    if col + n > 8 {
                        return Err(FenParseError::RankSquares);
                    }
                    col = col + n;
                },
                None => match Piece::from_fen_char(c) {
                    Some(piece) => {
                        if col >= 8 {
                            return Err(FenParseError::RankSquares);
                        }
                        g.set(row * 8 + col, Some(piece));
                        col = col + 1;
                    },
                    None => {
                        return Err(FenParseError::PieceChar);
                    },
                },
            }
        }
        i = i + 1;
    }
    if row < 7 {
        return Err(FenParseError::Ranks);
    }
    if col != 8 {
        return Err(FenParseError::RankSquares);
    }
    Ok(g)
}

/// Counts the squares holding `p`.
fn count_piece_exec(g: &[Option<Piece>; 64], p: Piece) -> (n: usize)
    ensures
        n == count_piece(g@, p, 64),
{
    let mut n: usize = 0;
    let mut i: usize = 0;
    while i < 64
        invariant
            i <= 64,
            n == count_piece(g@, p, i as int),
            n <= i,
        decreases 64 - i,
    {
        if g[i] == Some(p) {
            n = n + 1;
        }
        i = i + 1;
    }
    n
}

/// Reads the castling field.
fn parse_castling(f: &Vec<char>) -> (r: Option<CastlingRights>)
    ensures
        r == castling_field(f@),
{
    if f.len() == 1 && f[0] == '-' {
        assert(f@ =~= seq!['-']);
        return Some(CastlingRights::none());
    }
    assert(f@ != seq!['-']);
    let mut acc = CastlingRights::none();
    let mut i: usize = 0;
    while i < f.len()
        invariant
            i <= f@.len(),
            f@ != seq!['-'],
            castling_from(f@, i as int, acc) == castling_field(f@),
        decreases f.len() - i,
    {
        match CastleRights::from_fen_char(f[i]) {
            Some(right) => {
                let ghost before = acc;
                acc.grant(right);
                assert(acc.holds(CastleRights::WhiteKingside) == with_right(before, right).holds(CastleRights::WhiteKingside));
                assert(acc.holds(CastleRights::WhiteQueenside) == with_right(before, right).holds(CastleRights::WhiteQueenside));
                assert(acc.holds(CastleRights::BlackKingside) == with_right(before, right).holds(CastleRights::BlackKingside));
                assert(acc.holds(CastleRights::BlackQueenside) == with_right(before, right).holds(CastleRights::BlackQueenside));
                assert(acc == with_right(before, right));
            },
            None => {
                return None;
            },
        }
        i = i + 1;
    }
    Some(acc)
}

/// Reads the en passant field.
fn parse_en_passant(f: &Vec<char>) -> (r: Option<Option<SquareCoords>>)
    ensures
        r == en_passant_field(f@),
        r is Some && r->0 is Some ==> r->0->0.wf(),
{
    if f.len() == 1 && f[0] == '-' {
        assert(f@ =~= seq!['-']);
        return Some(None);
    }
    assert(f@ != seq!['-']);
    if f.len() != 2 {
        return None;
    }
    match crate::square::square_from_chars(f[0], f[1]) {
        Some(s) => Some(Some(s)),
        None => None,
    }
}

/// Reads a decimal digit.
fn digit_exec(c: char) -> (r: Option<u64>)
    ensures
        r == (if digit_value(c) is Some { Some(digit_value(c)->0 as u64) } else { None::<u64> }),
        r is Some ==> r->0 < 10,
{
    match c {
        '0' => Some(0),
        '1' => Some(1),
        '2' => Some(2),
        '3' => Some(3),
        '4' => Some(4),
        '5' => Some(5),
        '6' => Some(6),
        '7' => Some(7),
        '8' => Some(8),
        '9' => Some(9),
        _ => None,
    }
}

/// The value of a digit string does not decrease as it goes on.
proof fn lemma_digits_grow(f: Seq<char>, i: int, n: int)
    requires
        0 <= i <= n <= f.len(),
        forall|k: int| 0 <= k < f.len() ==> #[trigger] digit_value(f[k]) is Some,
    ensures
        digits_value(f, i) <= digits_value(f, n),
        0 <= digits_value(f, i),
    decreases n,
{
    if n > 0 {
        assert(digit_value(f[n - 1]) is Some);
        if i < n {
            lemma_digits_grow(f, i, n - 1);
            lemma_digits_grow(f, n - 1, n - 1);
        } else {
            lemma_digits_grow(f, i - 1, n - 1);
        }
    }
}

/// Reads a field of decimal digits whose value fits in u32.
pub fn parse_number(f: &Vec<char>) -> (r: Option<u32>)
    ensures
        r == number_field(f@),
{
    if f.len() == 0 {
        return None;
    }
    let mut i: usize = 0;
    while i < f.len()
        invariant
            i <= f@.len(),
            forall|k: int| 0 <= k < i ==> #[trigger] digit_value(f@[k]) is Some,
        decreases f.len() - i,
    {
        if digit_exec(f[i]).is_none() {
            return None;
        }
        i = i + 1;
    }
    let mut acc: u64 = 0;
    let mut i: usize = 0;
    while i < f.len()
        invariant
            i <= f@.len(),
            forall|k: int| 0 <= k < f@.len() ==> #[trigger] digit_value(f@[k]) is Some,
            acc == digits_value(f@, i as int),
            acc <= u32::MAX,
        decreases f.len() - i,
    {
        let d = digit_exec(f[i]).unwrap();
        acc = acc * 10 + d;
        if acc > u32::MAX as u64 {
            proof { lemma_digits_grow(f@, i + 1, f@.len() as int); }
            return None;
        }
        i = i + 1;
    }
    Some(acc as u32)
}

} // verus!

verus! {

/// Compares characters with a one-letter text.
fn is_letter(f: &Vec<char>, c: char) -> (r: bool)
    ensures
        r == (f@ == seq![c]),
{
    if f.len() == 1 && f[0] == c {
        assert(f@ =~= seq![c]);
        true
    } else {
        assert(f@.len() != 1 || f@[0] != c);
        false
    }
}

/// Reads a position from FEN characters.
pub fn parse_fen_chars(s: &Vec<char>) -> (r: Result<Board, FenParseError>)
    ensures
        match r {
            Ok(b) => parse_fen_spec(s@) == Ok::<FenFields, FenParseError>(fields_of(b)) && b.wf()
                && b.position_history@.len() == 1 && b.position_history@[0]@ == fen_text(b),
            Err(e) => parse_fen_spec(s@) == Err::<FenFields, FenParseError>(e),
        },
{
    let fs = split_fields_exec(s);
    let ghost sfs = split_fields(s@);
    if fs.len() < 4 || fs.len() > 6 {
        return Err(FenParseError::Blocks);
    }
    assert(fs@[0]@ == sfs[0] && fs@[1]@ == sfs[1] && fs@[2]@ == sfs[2] && fs@[3]@ == sfs[3]);
    if count_slashes_exec(&fs[0]) != 7 {
        return Err(FenParseError::Ranks);
    }
    let squares = match parse_placement(&fs[0]) {
        Ok(g) => g,
        Err(e) => {
            return Err(e);
        },
    };
    if count_piece_exec(&squares, Piece::King(Color::White)) != 1 {
        return Err(FenParseError::KingCount(Color::White));
    }
    if count_piece_exec(&squares, Piece::King(Color::Black)) != 1 {
        return Err(FenParseError::KingCount(Color::Black));
    }
    let active_color = if is_letter(&fs[1], 'w') {
        Color::White
    } else if is_letter(&fs[1], 'b') {
        Color::Black
    } else {
        return Err(FenParseError::ActiveColor);
    };
    let castle_rights = match parse_castling(&fs[2]) {
        Some(c) => c,
        None => {
            return Err(FenParseError::CastleRights);
        },
    };
    let en_passant_target = match parse_en_passant(&fs[3]) {
        Some(e) => e,
        None => {
            return Err(FenParseError::EnPassant);
        },
    };
    let halfmove_clock: u32 = if fs.len() > 4 {
        assert(fs@[4]@ == sfs[4]);
        match parse_number(&fs[4]) {
            Some(n) => n,
            None => {
                return Err(FenParseError::HalfmoveClock);
            },
        }
    } else {
        0
    };
    let fullmove_number: u32 = if fs.len() > 5 {
        assert(fs@[5]@ == sfs[5]);
        match parse_number(&fs[5]) {
            Some(n) => n,
            None => {
                return Err(FenParseError::FullmoveNumber);
            },
        }
    } else {
        1
    };
    let mut board = Board {
        squares,
        active_color,
        castle_rights,
        en_passant_target,
        halfmove_clock,
        fullmove_number,
        position_history: Vec::new(),
    };
    let fen = board.fen();
    board.position_history.push(fen);
    Ok(board)
}

/// Reads a position from a FEN string.
pub fn parse_fen(fen_str: &str) -> (r: Result<Board, FenParseError>)
    ensures
        match r {
            Ok(b) => parse_fen_spec(fen_str@) == Ok::<FenFields, FenParseError>(fields_of(b)) && b.wf()
                && b.position_history@.len() == 1 && b.position_history@[0]@ == fen_text(b),
            Err(e) => parse_fen_spec(fen_str@) == Err::<FenFields, FenParseError>(e),
        },
{
    let s = crate::text::chars_of(fen_str);
    parse_fen_chars(&s)
}

impl Board {
    /// Creates a board from a FEN string.
    pub fn from_fen(fen_str: &str) -> (r: Result<Board, FenParseError>)
        ensures
            match r {
                Ok(b) => parse_fen_spec(fen_str@) == Ok::<FenFields, FenParseError>(fields_of(b)) && b.wf()
                    && b.position_history@.len() == 1 && b.position_history@[0]@ == fen_text(b),
                Err(e) => parse_fen_spec(fen_str@) == Err::<FenFields, FenParseError>(e),
            },
    {
        parse_fen(fen_str)
    }
}

} // verus!

verus! {

/// The back rank of a color: rook, knight, bishop, queen, king, bishop,
/// knight, rook.
pub open spec fn back_rank(c: Color) -> Seq<Option<Piece>> {
    seq![Some(Piece::Rook(c)), Some(Piece::Knight(c)), Some(Piece::Bishop(c)), Some(Piece::Queen(c)),
        Some(Piece::King(c)), Some(Piece::Bishop(c)), Some(Piece::Knight(c)), Some(Piece::Rook(c))]
}

pub open spec fn pawn_rank(c: Color) -> Seq<Option<Piece>> {
    Seq::new(8, |i: int| Some(Piece::Pawn(c)))
}

pub open spec fn empty_rank() -> Seq<Option<Piece>> {
    Seq::new(8, |i: int| None)
}

/// The squares of the starting position, rank 8 first.
pub open spec fn start_grid() -> Seq<Option<Piece>> {
    back_rank(Color::Black) + pawn_rank(Color::Black) + empty_rank() + empty_rank() + empty_rank()
        + empty_rank() + pawn_rank(Color::White) + back_rank(Color::White)
}

pub open spec fn all_rights() -> CastlingRights {
    CastlingRights { white_kingside: true, white_queenside: true, black_kingside: true, black_queenside: true }
}

impl Board {
    /// Creates a board with the starting position.
    pub fn new() -> (r: Board)
        ensures
            r.squares@ == start_grid(),
            r.active_color == Color::White,
            r.castle_rights == all_rights(),
            r.en_passant_target is None,
            r.halfmove_clock == 0,
            r.fullmove_number == 1,
            r.wf(),
            r.playable(),
            r.position_history@.len() == 1,
            r.position_history@[0]@ == fen_text(r),
    {
        let w = Color::White;
        let b = Color::Black;
        let squares: [Option<Piece>; 64] = [
            Some(Piece::Rook(b)), Some(Piece::Knight(b)), Some(Piece::Bishop(b)), Some(Piece::Queen(b)),
            Some(Piece::King(b)), Some(Piece::Bishop(b)), Some(Piece::Knight(b)), Some(Piece::Rook(b)),
            Some(Piece::Pawn(b)), Some(Piece::Pawn(b)), Some(Piece::Pawn(b)), Some(Piece::Pawn(b)),
            Some(Piece::Pawn(b)), Some(Piece::Pawn(b)), Some(Piece::Pawn(b)), Some(Piece::Pawn(b)),
            None, None, None, None, None, None, None, None,
            None, None, None, None, None, None, None, None,
            None, None, None, None, None, None, None, None,
            None, None, None, None, None, None, None, None,
            Some(Piece::Pawn(w)), Some(Piece::Pawn(w)), Some(Piece::Pawn(w)), Some(Piece::Pawn(w)),
            Some(Piece::Pawn(w)), Some(Piece::Pawn(w)), Some(Piece::Pawn(w)), Some(Piece::Pawn(w)),
            Some(Piece::Rook(w)), Some(Piece::Knight(w)), Some(Piece::Bishop(w)), Some(Piece::Queen(w)),
            Some(Piece::King(w)), Some(Piece::Bishop(w)), Some(Piece::Knight(w)), Some(Piece::Rook(w)),
        ];
        assert(squares@ =~= start_grid());
        let mut board = Board {
            squares,
            active_color: w,
            castle_rights: CastlingRights {
                white_kingside: true,
                white_queenside: true,
                black_kingside: true,
                black_queenside: true,
            },
            en_passant_target: None,
            halfmove_clock: 0,
            fullmove_number: 1,
            position_history: Vec::new(),
        };
        let fen = board.fen();
        board.position_history.push(fen);
        proof { crate::laws::lemma_start_playable(board); }
        board
    }
}

} // verus!
