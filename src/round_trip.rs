//! Reading back the FEN text of a position gives the position.

use vstd::prelude::*;
use crate::fen_parse::{fields_from, is_space, split_fields};
use crate::board::at;
use crate::fen::{digit_char, rank_text_from, rank_text, placement_text};
use crate::fen_parse::{decode_placement, run_length, FenParseError, empty_grid};
use crate::piece::{Piece, piece_of_fen};
use crate::board::{Board, CastlingRights};
use crate::color::Color;
use crate::fen::{castling_text, digit_value, en_passant_text, fen_text, nat_text, position_key};
use crate::fen_parse::{count_slashes, eight_ranks, castling_field, castling_from, count_piece, digits_value, en_passant_field,
    fields_of, number_field, parse_fen_spec, FenFields};
use crate::square::{SquareCoords, lemma_name_round_trip};

verus! {

/// No character of the text is whitespace.
pub open spec fn spaceless(a: Seq<char>) -> bool {
    forall|i: int| 0 <= i < a.len() ==> !#[trigger] is_space(a[i])
}

/// Splitting a text that follows a prefix starts as if the prefix were absent.
proof fn lemma_fields_skip(p: Seq<char>, q: Seq<char>, j: int, cur: Seq<char>)
    requires
        0 <= j <= q.len(),
    ensures
        fields_from(p + q, p.len() + j, cur) == fields_from(q, j, cur),
    decreases q.len() - j,
{
    if j < q.len() {
        assert((p + q)[p.len() + j] == q[j]);
        if is_space(q[j]) {
            lemma_fields_skip(p, q, j + 1, Seq::empty());
        } else {
            lemma_fields_skip(p, q, j + 1, cur.push(q[j]));
        }
    }
}

/// Inside a field, splitting only gathers its characters.
proof fn lemma_fields_gather(a: Seq<char>, r: Seq<char>, i: int)
    requires
        0 <= i <= a.len(),
        spaceless(a),
    ensures
        fields_from(a + r, i, a.subrange(0, i)) == fields_from(a + r, a.len() as int, a),
    decreases a.len() - i,
{
    if i < a.len() {
        assert((a + r)[i] == a[i]);
        assert(!is_space(a[i]));
        assert(a.subrange(0, i).push(a[i]) =~= a.subrange(0, i + 1));
        lemma_fields_gather(a, r, i + 1);
    } else {
        assert(a.subrange(0, i) =~= a);
    }
}

/// A spaceless field followed by a space is the first field of the text.
pub proof fn lemma_split_cons(a: Seq<char>, r: Seq<char>)
    requires
        a.len() > 0,
        spaceless(a),
    ensures
        split_fields(a + seq![' '] + r) == seq![a] + split_fields(r),
{
    let s = a + seq![' '] + r;
    assert(s =~= a + (seq![' '] + r));
    lemma_fields_gather(a, seq![' '] + r, 0);
    assert(a.subrange(0, 0) =~= Seq::<char>::empty());
    assert(s[a.len() as int] == ' ');
    lemma_fields_skip(a + seq![' '], r, 0, Seq::empty());
    assert((a + seq![' ']).len() == a.len() + 1);
}

/// A spaceless, non-empty text is one field.
pub proof fn lemma_split_single(a: Seq<char>)
    requires
        a.len() > 0,
        spaceless(a),
    ensures
        split_fields(a) == seq![a],
{
    lemma_fields_gather(a, Seq::empty(), 0);
    assert(a + Seq::<char>::empty() =~= a);
    assert(a.subrange(0, 0) =~= Seq::<char>::empty());
}

} // verus!

verus! {

/// The first `n` squares of `g`, the others empty.
pub open spec fn restrict(g: Seq<Option<Piece>>, n: int) -> Seq<Option<Piece>> {
    Seq::new(64, |i: int| if i < n { g[i] } else { None })
}

/// Decoding a text that follows a prefix goes as if the prefix were absent.
proof fn lemma_decode_skip(p: Seq<char>, q: Seq<char>, j: int, row: int, col: int, g: Seq<Option<Piece>>)
    requires
        0 <= j <= q.len(),
    ensures
        decode_placement(p + q, p.len() + j, row, col, g) == decode_placement(q, j, row, col, g),
    decreases q.len() - j,
{
    if j < q.len() {
        assert((p + q)[p.len() + j] == q[j]);
        let c = q[j];
        if c == '/' {
            lemma_decode_skip(p, q, j + 1, row + 1, 0, g);
        } else if run_length(c) is Some {
            lemma_decode_skip(p, q, j + 1, row, col + run_length(c)->0, g);
        } else if piece_of_fen(c) is Some {
            lemma_decode_skip(p, q, j + 1, row, col + 1, g.update(row * 8 + col, piece_of_fen(c)));
        }
    }
}

proof fn lemma_digit_run(e: int)
    requires
        1 <= e <= 8,
    ensures
        run_length(digit_char(e)) == Some(e),
        digit_char(e) != '/',
{
}

proof fn lemma_piece_letter(p: Piece)
    ensures
        piece_of_fen(p.fen_char()) == Some(p),
        run_length(p.fen_char()) is None,
        p.fen_char() != '/',
{
}

/// Decoding the text of rank `r` from column `c`, with `e` empty squares
/// just passed, fills the squares of the rank from `g`.
proof fn lemma_decode_rank(g: Seq<Option<Piece>>, r: int, c: int, e: int, q: Seq<char>)
    requires
        g.len() == 64,
        0 <= r < 8,
        0 <= e <= c <= 8,
        forall|k: int| c - e <= k < c ==> #[trigger] at(g, r, k) is None,
    ensures
        decode_placement(rank_text_from(g, r, c, e as nat) + q, 0, r, c - e, restrict(g, r * 8 + c - e))
            == decode_placement(q, 0, r, 8, restrict(g, r * 8 + 8)),
    decreases 8 - c,
{
    let text = rank_text_from(g, r, c, e as nat);
    if c >= 8 {
        assert(restrict(g, r * 8 + c - e) =~= restrict(g, r * 8 + 8)) by {
            assert forall|i: int| 0 <= i < 64 implies #[trigger] restrict(g, r * 8 + c - e)[i] == restrict(g, r * 8 + 8)[i] by {
                if r * 8 + c - e <= i < r * 8 + 8 {
                    assert(at(g, r, i - r * 8) is None);
                }
            }
        }
        if e > 0 {
            lemma_digit_run(e);
            assert(text + q =~= seq![digit_char(e)] + q);
            lemma_decode_skip(seq![digit_char(e)], q, 0, r, 8, restrict(g, r * 8 + 8));
        } else {
            assert(text + q =~= q);
        }
    } else if at(g, r, c) is None {
        lemma_decode_rank(g, r, c + 1, e + 1, q);
    } else {
        let p = at(g, r, c)->0;
        let rest = rank_text_from(g, r, c + 1, 0);
        lemma_piece_letter(p);
        let g0 = restrict(g, r * 8 + c - e);
        let g1 = restrict(g, r * 8 + c);
        assert(g0 =~= g1) by {
            assert forall|i: int| 0 <= i < 64 implies #[trigger] g0[i] == g1[i] by {
                if r * 8 + c - e <= i < r * 8 + c {
                    assert(at(g, r, i - r * 8) is None);
                }
            }
        }
        let g2 = restrict(g, r * 8 + c + 1);
        assert(g1.update(r * 8 + c, Some(p)) =~= g2);
        lemma_decode_rank(g, r, c + 1, 0, q);
        let tail = seq![p.fen_char()] + (rest + q);
        lemma_decode_skip(seq![p.fen_char()], rest + q, 0, r, c + 1, g2);
        assert(seq![p.fen_char()] + (rest + q) =~= seq![p.fen_char()] + rest + q);
        if e > 0 {
            lemma_digit_run(e);
            assert(text + q =~= seq![digit_char(e)] + tail);
            lemma_decode_skip(seq![digit_char(e)], tail, 0, r, c, g1);
            assert(tail[0] == p.fen_char());
        } else {
            assert(text + q =~= tail);
        }
    }
}

/// Decoding the placement text from rank `r` on fills the board from `g`.
proof fn lemma_decode_ranks(g: Seq<Option<Piece>>, r: int)
    requires
        g.len() == 64,
        0 <= r < 8,
    ensures
        decode_placement(placement_text(g, r), 0, r, 0, restrict(g, r * 8)) == Ok::<Seq<Option<Piece>>, FenParseError>(restrict(g, 64)),
    decreases 8 - r,
{
    if r >= 7 {
        lemma_decode_rank(g, 7, 0, 0, Seq::empty());
        assert(rank_text(g, 7) + Seq::<char>::empty() =~= rank_text(g, 7));
    } else {
        let rest = placement_text(g, r + 1);
        lemma_decode_rank(g, r, 0, 0, seq!['/'] + rest);
        assert(rank_text(g, r).push('/') + rest =~= rank_text(g, r) + (seq!['/'] + rest));
        lemma_decode_ranks(g, r + 1);
        lemma_decode_skip(seq!['/'], rest, 0, r + 1, 0, restrict(g, r * 8 + 8));
        assert(restrict(g, r * 8 + 8) =~= restrict(g, (r + 1) * 8));
    }
}

/// The placement text of a board decodes to the board.
pub proof fn lemma_placement_round_trip(g: Seq<Option<Piece>>)
    requires
        g.len() == 64,
    ensures
        decode_placement(placement_text(g, 0), 0, 0, 0, empty_grid()) == Ok::<Seq<Option<Piece>>, FenParseError>(g),
{
    lemma_decode_ranks(g, 0);
    assert(restrict(g, 0) =~= empty_grid());
    assert(restrict(g, 64) =~= g);
}

} // verus!

verus! {

proof fn lemma_spaceless_concat(a: Seq<char>, b: Seq<char>)
    requires
        spaceless(a),
        spaceless(b),
    ensures
        spaceless(a + b),
{
    assert forall|i: int| 0 <= i < (a + b).len() implies !#[trigger] is_space((a + b)[i]) by {
        if i < a.len() {
            assert((a + b)[i] == a[i]);
        } else {
            assert((a + b)[i] == b[i - a.len()]);
        }
    }
}

proof fn lemma_rank_spaceless(g: Seq<Option<Piece>>, r: int, c: int, e: nat)
    ensures
        spaceless(rank_text_from(g, r, c, e)),
        c < 8 || e > 0 ==> rank_text_from(g, r, c, e).len() > 0,
    decreases 8 - c,
{
    if c >= 8 {
    } else if at(g, r, c) is None {
        lemma_rank_spaceless(g, r, c + 1, e + 1);
    } else {
        lemma_rank_spaceless(g, r, c + 1, 0);
        let lead: Seq<char> = if e > 0 { seq![digit_char(e as int)] } else { Seq::empty() };
        let p = at(g, r, c)->0;
        assert(spaceless(lead.push(p.fen_char())));
        lemma_spaceless_concat(lead.push(p.fen_char()), rank_text_from(g, r, c + 1, 0));
    }
}

proof fn lemma_rank_no_slash(g: Seq<Option<Piece>>, r: int, c: int, e: nat)
    ensures
        forall|i: int| 0 <= i < rank_text_from(g, r, c, e).len() ==> #[trigger] rank_text_from(g, r, c, e)[i] != '/',
    decreases 8 - c,
{
    assert(digit_char(e as int) != '/');
    if c >= 8 {
        if e > 0 {
            assert(rank_text_from(g, r, c, e) == seq![digit_char(e as int)]);
        } else {
            assert(rank_text_from(g, r, c, e).len() == 0);
        }
    } else if at(g, r, c) is None {
        lemma_rank_no_slash(g, r, c + 1, e + 1);
        assert(rank_text_from(g, r, c, e) == rank_text_from(g, r, c + 1, e + 1));
    } else {
        lemma_rank_no_slash(g, r, c + 1, 0);
        lemma_piece_letter(at(g, r, c)->0);
        let lead: Seq<char> = if e > 0 { seq![digit_char(e as int)] } else { Seq::empty() };
        let p = at(g, r, c)->0;
        let a = lead.push(p.fen_char());
        let b = rank_text_from(g, r, c + 1, 0);
        assert forall|i: int| 0 <= i < (a + b).len() implies #[trigger] (a + b)[i] != '/' by {
            if i >= a.len() {
                assert((a + b)[i] == b[i - a.len()]);
            } else if i < lead.len() {
                assert((a + b)[i] == digit_char(e as int));
            } else {
                assert((a + b)[i] == p.fen_char());
            }
        }
        assert(rank_text_from(g, r, c, e) == a + b);
    }
}

proof fn lemma_count_no_slash(s: Seq<char>, n: int)
    requires
        0 <= n <= s.len(),
        forall|i: int| 0 <= i < s.len() ==> #[trigger] s[i] != '/',
    ensures
        count_slashes(s, n) == 0,
    decreases n,
{
    if n > 0 {
        lemma_count_no_slash(s, n - 1);
    }
}

proof fn lemma_count_concat(a: Seq<char>, b: Seq<char>, n: int)
    requires
        0 <= n <= b.len(),
    ensures
        count_slashes(a + b, a.len() + n) == count_slashes(a, a.len() as int) + count_slashes(b, n),
    decreases n,
{
    if n > 0 {
        lemma_count_concat(a, b, n - 1);
        assert((a + b)[a.len() + n - 1] == b[n - 1]);
    } else {
        lemma_count_prefix(a + b, a, a.len() as int);
    }
}

proof fn lemma_count_prefix(t: Seq<char>, s: Seq<char>, n: int)
    requires
        0 <= n <= s.len(),
        n <= t.len(),
        forall|i: int| 0 <= i < n ==> s[i] == t[i],
    ensures
        count_slashes(t, n) == count_slashes(s, n),
    decreases n,
{
    if n > 0 {
        lemma_count_prefix(t, s, n - 1);
    }
}

/// The placement text from rank `r` on holds `7 - r` slashes.
proof fn lemma_placement_slashes(g: Seq<Option<Piece>>, r: int)
    requires
        0 <= r <= 7,
    ensures
        count_slashes(placement_text(g, r), placement_text(g, r).len() as int) == 7 - r,
    decreases 8 - r,
{
    lemma_rank_no_slash(g, r, 0, 0);
    lemma_count_no_slash(rank_text(g, r), rank_text(g, r).len() as int);
    if r < 7 {
        lemma_placement_slashes(g, r + 1);
        let a = rank_text(g, r).push('/');
        let b = placement_text(g, r + 1);
        assert(a =~= rank_text(g, r) + seq!['/']);
        lemma_count_concat(rank_text(g, r), seq!['/'], 1);
        assert(count_slashes(seq!['/'], 0) == 0);
        assert(count_slashes(seq!['/'], 1) == 1);
        lemma_count_concat(a, b, b.len() as int);
        assert(placement_text(g, r) == a + b);
    }
}

proof fn lemma_placement_spaceless(g: Seq<Option<Piece>>, r: int)
    ensures
        spaceless(placement_text(g, r)),
        placement_text(g, r).len() > 0,
    decreases 8 - r,
{
    lemma_rank_spaceless(g, r, 0, 0);
    lemma_rank_spaceless(g, 7, 0, 0);
    if r < 7 {
        lemma_placement_spaceless(g, r + 1);
        assert(spaceless(rank_text(g, r).push('/')));
        lemma_spaceless_concat(rank_text(g, r).push('/'), placement_text(g, r + 1));
    }
}

proof fn lemma_digit_char(d: int)
    requires
        0 <= d < 10,
    ensures
        digit_value(digit_char(d)) == Some(d),
        !is_space(digit_char(d)),
{
}

proof fn lemma_nat_text(n: nat)
    ensures
        spaceless(nat_text(n)),
        nat_text(n).len() > 0,
        forall|i: int| 0 <= i < nat_text(n).len() ==> #[trigger] digit_value(nat_text(n)[i]) is Some,
        digits_value(nat_text(n), nat_text(n).len() as int) == n,
    decreases n,
{
    lemma_digit_char((n % 10) as int);
    if n < 10 {
        lemma_digit_char(n as int);
        assert(digits_value(nat_text(n), 0) == 0);
    }
    if n >= 10 {
        let s = nat_text(n / 10);
        lemma_nat_text(n / 10);
        let t = s.push(digit_char((n % 10) as int));
        lemma_digits_prefix(t, s, s.len() as int);
        assert(t.len() == s.len() + 1);
        assert(t[s.len() as int] == digit_char((n % 10) as int));
        assert(digits_value(t, s.len() as int) == n / 10);
        assert(digits_value(t, t.len() as int) == digits_value(t, s.len() as int) * 10 + (n % 10));
        assert(n == (n / 10) * 10 + n % 10) by (nonlinear_arith);
    }
}

/// The value of a digit string up to `n` depends on its first `n` characters.
proof fn lemma_digits_prefix(t: Seq<char>, s: Seq<char>, n: int)
    requires
        0 <= n <= s.len(),
        n <= t.len(),
        forall|i: int| 0 <= i < n ==> s[i] == t[i],
    ensures
        digits_value(t, n) == digits_value(s, n),
    decreases n,
{
    if n > 0 {
        lemma_digits_prefix(t, s, n - 1);
    }
}

proof fn lemma_number_round_trip(n: u32)
    ensures
        number_field(nat_text(n as nat)) == Some(n),
        spaceless(nat_text(n as nat)),
        nat_text(n as nat).len() > 0,
{
    lemma_nat_text(n as nat);
}

proof fn lemma_castling_round_trip(c: CastlingRights)
    ensures
        castling_field(castling_text(c)) == Some(c),
        spaceless(castling_text(c)),
        castling_text(c).len() > 0,
{
    reveal_with_fuel(castling_from, 5);
    let t = castling_text(c);
    assert(spaceless(t));
    if !c.white_kingside && !c.white_queenside && !c.black_kingside && !c.black_queenside {
        assert(t == seq!['-']);
    } else {
        assert(t != seq!['-']);
    }
}

proof fn lemma_en_passant_round_trip(ep: Option<SquareCoords>)
    requires
        ep is Some ==> ep->0.wf(),
    ensures
        en_passant_field(en_passant_text(ep)) == Some(ep),
        spaceless(en_passant_text(ep)),
        en_passant_text(ep).len() > 0,
{
    if ep is Some {
        lemma_name_round_trip(ep->0);
        assert(en_passant_text(ep) != seq!['-']);
    }
}

/// Six spaceless, non-empty fields joined by single spaces split back into
/// the six fields.
proof fn lemma_split_six(p: Seq<char>, c: Seq<char>, k: Seq<char>, e: Seq<char>, h: Seq<char>, f: Seq<char>)
    requires
        p.len() > 0 && c.len() > 0 && k.len() > 0 && e.len() > 0 && h.len() > 0 && f.len() > 0,
        spaceless(p) && spaceless(c) && spaceless(k) && spaceless(e) && spaceless(h) && spaceless(f),
    ensures
        split_fields(p + seq![' '] + (c + seq![' '] + (k + seq![' '] + (e + seq![' '] + (h + seq![' '] + f)))))
            == seq![p, c, k, e, h, f],
{
    let t4 = h + seq![' '] + f;
    let t3 = e + seq![' '] + t4;
    let t2 = k + seq![' '] + t3;
    let t1 = c + seq![' '] + t2;
    assert(split_fields(t4) =~= seq![h, f]) by {
        lemma_split_single(f);
        lemma_split_cons(h, f);
    }
    assert(split_fields(t3) =~= seq![e, h, f]) by {
        lemma_split_cons(e, t4);
    }
    assert(split_fields(t2) =~= seq![k, e, h, f]) by {
        lemma_split_cons(k, t3);
    }
    assert(split_fields(t1) =~= seq![c, k, e, h, f]) by {
        lemma_split_cons(c, t2);
    }
    assert(split_fields(p + seq![' '] + t1) =~= seq![p, c, k, e, h, f]) by {
        lemma_split_cons(p, t1);
    }
}

/// The FEN text of a position splits into its six fields.
proof fn lemma_fen_fields(b: Board)
    requires
        b.wf(),
    ensures
        split_fields(fen_text(b)) == seq![
            placement_text(b.squares@, 0),
            seq![b.active_color.spec_fen_char()],
            castling_text(b.castle_rights),
            en_passant_text(b.en_passant_target),
            nat_text(b.halfmove_clock as nat),
            nat_text(b.fullmove_number as nat),
        ],
{
    let g = b.squares@;
    let p = placement_text(g, 0);
    let c = seq![b.active_color.spec_fen_char()];
    let k = castling_text(b.castle_rights);
    let e = en_passant_text(b.en_passant_target);
    let h = nat_text(b.halfmove_clock as nat);
    let f = nat_text(b.fullmove_number as nat);
    lemma_placement_spaceless(g, 0);
    lemma_castling_round_trip(b.castle_rights);
    lemma_en_passant_round_trip(b.en_passant_target);
    lemma_number_round_trip(b.halfmove_clock);
    lemma_number_round_trip(b.fullmove_number);
    assert(spaceless(c));
    lemma_fen_text_shape(b);
    lemma_split_six(p, c, k, e, h, f);
}

/// The FEN text of a position is its six fields joined by single spaces.
proof fn lemma_fen_text_shape(b: Board)
    ensures
        fen_text(b) == placement_text(b.squares@, 0) + seq![' '] + (seq![b.active_color.spec_fen_char()]
            + seq![' '] + (castling_text(b.castle_rights) + seq![' '] + (en_passant_text(b.en_passant_target)
            + seq![' '] + (nat_text(b.halfmove_clock as nat) + seq![' '] + nat_text(b.fullmove_number as nat))))),
{
    let p = placement_text(b.squares@, 0);
    let c = seq![b.active_color.spec_fen_char()];
    let k = castling_text(b.castle_rights);
    let e = en_passant_text(b.en_passant_target);
    let h = nat_text(b.halfmove_clock as nat);
    let f = nat_text(b.fullmove_number as nat);
    assert(fen_text(b) =~= p + seq![' '] + (c + seq![' '] + (k + seq![' '] + (e + seq![' '] + (h + seq![' '] + f)))));
}

/// Reading back the FEN text of a position gives the position: its squares,
/// side to move, castling rights, en passant square and both clocks. The
/// position holds exactly one king of each color, as every position reached
/// in play does.
pub proof fn lemma_fen_round_trip(b: Board)
    requires
        b.wf(),
        count_piece(b.squares@, Piece::King(Color::White), 64) == 1,
        count_piece(b.squares@, Piece::King(Color::Black), 64) == 1,
    ensures
        parse_fen_spec(fen_text(b)) == Ok::<FenFields, FenParseError>(fields_of(b)),
{
    let g = b.squares@;
    assert(g.len() == 64);
    lemma_fen_fields(b);
    lemma_placement_slashes(g, 0);
    assert(eight_ranks(placement_text(g, 0)));
    lemma_placement_round_trip(g);
    lemma_castling_round_trip(b.castle_rights);
    lemma_en_passant_round_trip(b.en_passant_target);
    lemma_number_round_trip(b.halfmove_clock);
    lemma_number_round_trip(b.fullmove_number);
    let fs = split_fields(fen_text(b));
    let c = seq![b.active_color.spec_fen_char()];
    assert(fs.len() == 6);
    assert(fs[1] == c);
    if b.active_color == Color::White {
        assert(c =~= seq!['w']);
    } else {
        assert(c =~= seq!['b']);
        assert(c[0] != seq!['w'][0]);
    }
}

} // verus!

verus! {

/// The parts of a position key: placement, castling and en passant fields,
/// each spaceless and non-empty.
pub proof fn lemma_position_key_parts(b: Board) -> (r: (Seq<char>, Seq<char>, Seq<char>))
    requires
        b.wf(),
    ensures
        r.0 == placement_text(b.squares@, 0),
        r.1 == castling_text(b.castle_rights),
        r.2 == en_passant_text(b.en_passant_target),
        spaceless(r.0) && spaceless(r.1) && spaceless(r.2),
        position_key(b) == r.0 + seq![' ', b.active_color.spec_fen_char(), ' '] + r.1 + seq![' '] + r.2,
{
    lemma_placement_spaceless(b.squares@, 0);
    lemma_castling_round_trip(b.castle_rights);
    lemma_en_passant_round_trip(b.en_passant_target);
    (placement_text(b.squares@, 0), castling_text(b.castle_rights), en_passant_text(b.en_passant_target))
}

} // verus!
