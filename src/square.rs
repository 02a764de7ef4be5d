//! Board coordinates and their algebraic names.

use vstd::prelude::*;

verus! {

/// A square of the board as (row, column). Row 0 is rank 8 and column 0 is
/// file 'a'.
#[derive(Debug, Clone, Copy, PartialEq, Eq, Structural)]
pub struct SquareCoords(pub usize, pub usize);

/// The file letter of a column in 0..8.
pub open spec fn file_char(col: int) -> char {
    if col == 0 { 'a' }
    else if col == 1 { 'b' }
    else if col == 2 { 'c' }
    else if col == 3 { 'd' }
    else if col == 4 { 'e' }
    else if col == 5 { 'f' }
    else if col == 6 { 'g' }
    else { 'h' }
}

/// The rank digit of a row in 0..8 (row 0 is rank 8).
pub open spec fn rank_char(row: int) -> char {
    if row == 0 { '8' }
    else if row == 1 { '7' }
    else if row == 2 { '6' }
    else if row == 3 { '5' }
    else if row == 4 { '4' }
    else if row == 5 { '3' }
    else if row == 6 { '2' }
    else { '1' }
}

/// The column of a file letter, if it is one of 'a'..='h'.
pub open spec fn file_of(c: char) -> Option<int> {
    if c == 'a' { Some(0) }
    else if c == 'b' { Some(1) }
    else if c == 'c' { Some(2) }
    else if c == 'd' { Some(3) }
    else if c == 'e' { Some(4) }
    else if c == 'f' { Some(5) }
    else if c == 'g' { Some(6) }
    else if c == 'h' { Some(7) }
    else { None }
}

/// The row of a rank digit, if it is one of '1'..='8'.
pub open spec fn row_of(c: char) -> Option<int> {
    if c == '8' { Some(0) }
    else if c == '7' { Some(1) }
    else if c == '6' { Some(2) }
    else if c == '5' { Some(3) }
    else if c == '4' { Some(4) }
    else if c == '3' { Some(5) }
    else if c == '2' { Some(6) }
    else if c == '1' { Some(7) }
    else { None }
}

/// The square named by a file letter and a rank digit.
pub open spec fn square_of_chars(f: char, r: char) -> Option<SquareCoords> {
    if file_of(f) is Some && row_of(r) is Some {
        Some(SquareCoords(row_of(r)->0 as usize, file_of(f)->0 as usize))
    } else {
        None
    }
}

impl SquareCoords {
    pub open spec fn wf(self) -> bool {
        self.0 < 8 && self.1 < 8
    }

    /// Index of the square in a row-major array of 64 squares.
    pub open spec fn index(self) -> int {
        self.0 * 8 + self.1
    }

    /// The two-character algebraic name of the square.
    pub open spec fn name(self) -> Seq<char> {
        seq![file_char(self.1 as int), rank_char(self.0 as int)]
    }

    /// Tries to read an algebraic square name ("e4") from the first two
    /// characters of the text; what follows them is not read.
    pub fn from_san_str(algebraic: &str) -> (r: Option<SquareCoords>)
        ensures
            r == (if algebraic@.len() >= 2 {
                square_of_chars(algebraic@[0], algebraic@[1])
            } else {
                None
            }),
    {
        let n = algebraic.unicode_len();
        if n < 2 {
            return None;
        }
        square_from_chars(algebraic.get_char(0), algebraic.get_char(1))
    }

    /// Returns true if the coordinates lie on the board.
    pub fn inside_board(&self) -> (r: bool)
        ensures
            r == self.wf(),
    {
        self.0 <= 7 && self.1 <= 7
    }

    /// Returns the algebraic name of the square.
    pub fn to_chars(&self) -> (r: Vec<char>)
        requires
            self.wf(),
        ensures
            r@ == self.name(),
    {
        let mut r: Vec<char> = Vec::new();
        r.push(file_to_char(self.1));
        r.push(row_to_char(self.0));
        assert(r@ =~= self.name());
        r
    }
}

/// Reads a file letter.
pub fn char_to_file(c: char) -> (r: Option<usize>)
    ensures
        r == (if file_of(c) is Some { Some(file_of(c)->0 as usize) } else { None::<usize> }),
        r is Some ==> r->0 < 8,
{
    match c {
        'a' => Some(0),
        'b' => Some(1),
        'c' => Some(2),
        'd' => Some(3),
        'e' => Some(4),
        'f' => Some(5),
        'g' => Some(6),
        'h' => Some(7),
        _ => None,
    }
}

/// Reads a rank digit as a row.
pub fn char_to_row(c: char) -> (r: Option<usize>)
    ensures
        r == (if row_of(c) is Some { Some(row_of(c)->0 as usize) } else { None::<usize> }),
        r is Some ==> r->0 < 8,
{
    match c {
        '8' => Some(0),
        '7' => Some(1),
        '6' => Some(2),
        '5' => Some(3),
        '4' => Some(4),
        '3' => Some(5),
        '2' => Some(6),
        '1' => Some(7),
        _ => None,
    }
}

/// The file letter of a column.
pub fn file_to_char(col: usize) -> (r: char)
    requires
        col < 8,
    ensures
        r == file_char(col as int),
        file_of(r) == Some(col as int),
{
    if col == 0 { 'a' }
    else if col == 1 { 'b' }
    else if col == 2 { 'c' }
    else if col == 3 { 'd' }
    else if col == 4 { 'e' }
    else if col == 5 { 'f' }
    else if col == 6 { 'g' }
    else { 'h' }
}

/// The rank digit of a row.
pub fn row_to_char(row: usize) -> (r: char)
    requires
        row < 8,
    ensures
        r == rank_char(row as int),
        row_of(r) == Some(row as int),
{
    if row == 0 { '8' }
    else if row == 1 { '7' }
    else if row == 2 { '6' }
    else if row == 3 { '5' }
    else if row == 4 { '4' }
    else if row == 5 { '3' }
    else if row == 6 { '2' }
    else { '1' }
}

/// Reads a square from its file letter and rank digit.
pub fn square_from_chars(f: char, r: char) -> (s: Option<SquareCoords>)
    ensures
        s == square_of_chars(f, r),
        s is Some ==> s->0.wf(),
{
    match (char_to_file(f), char_to_row(r)) {
        (Some(col), Some(row)) => Some(SquareCoords(row, col)),
        _ => None,
    }
}

/// Reads an algebraic square name ("e4") from the first two characters of
/// the text, as (row, column).
pub fn algebraic_to_coordinates(algebraic: &str) -> (r: Option<(usize, usize)>)
    ensures
        r == (if algebraic@.len() >= 2 && square_of_chars(algebraic@[0], algebraic@[1]) is Some {
            Some(((square_of_chars(algebraic@[0], algebraic@[1])->0).0, (square_of_chars(algebraic@[0], algebraic@[1])->0).1))
        } else {
            None::<(usize, usize)>
        }),
{
    match SquareCoords::from_san_str(algebraic) {
        Some(s) => Some((s.0, s.1)),
        None => None,
    }
}

/// Writes (row, column) as an algebraic square name, if it lies on the board.
pub fn coordinates_to_algebraic(coordinates: (usize, usize)) -> (r: Option<String>)
    ensures
        match r {
            Some(t) => coordinates.0 < 8 && coordinates.1 < 8 && t@ == SquareCoords(coordinates.0, coordinates.1).name(),
            None => !(coordinates.0 < 8 && coordinates.1 < 8),
        },
{
    let (row, column) = coordinates;
    if row > 7 || column > 7 {
        return None;
    }
    let v = SquareCoords(row, column).to_chars();
    Some(crate::text::string_of(&v))
}

/// A square read back from its name is the same square.
pub proof fn lemma_name_round_trip(s: SquareCoords)
    requires
        s.wf(),
    ensures
        square_of_chars(s.name()[0], s.name()[1]) == Some(s),
{
}

} // verus!
