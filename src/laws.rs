//! Properties of games: castling rights, disambiguation, repetition, and
//! that play keeps one king of each color.

use vstd::prelude::*;
use crate::board::{Board, at, attacked_by, attacks, color_at, king_attacked, on_board, reaches, step_fuel};
use crate::castle::CastleKind;
use crate::color::Color;
use crate::fen_parse::{start_grid, count_piece, fields_of, parse_fen_spec, FenFields, FenParseError};
use crate::piece::Piece;
use crate::rules::{back_row, castled_grid, is_promotion_piece, sq_at};
use crate::chess_move::Move;
use crate::san::san_pattern;
use crate::fen::{fen_text, nat_text, position_key};
use crate::fen_parse::is_space;
use crate::round_trip::lemma_position_key_parts;
use crate::status::{count_key, fen_key, history_keys, key_end, repeated_thrice};

verus! {

/// A move never grants a castling right: every right held after it was held
/// before it.
pub proof fn lemma_move_keeps_or_revokes_rights(b: Board, m: Move, after: Board)
    requires
        b.moved_to(m, after),
    ensures
        after.castle_rights.subset_of(b.castle_rights),
{
}

/// Castling rights only shrink along a game: once a right is gone, no
/// sequence of further moves brings it back. `boards[i + 1]` is `boards[i]`
/// with `moves[i]` made.
pub proof fn lemma_rights_never_return(boards: Seq<Board>, moves: Seq<Move>)
    requires
        boards.len() == moves.len() + 1,
        forall|i: int| 0 <= i < moves.len() ==> #[trigger] boards[i].moved_to(moves[i], boards[i + 1]),
    ensures
        forall|i: int, j: int| 0 <= i <= j < boards.len() ==>
            #[trigger] boards[j].castle_rights.subset_of(#[trigger] boards[i].castle_rights),
    decreases moves.len(),
{
    if moves.len() > 0 {
        let n = moves.len() - 1;
        let bs = boards.subrange(0, n + 1);
        let ms = moves.subrange(0, n);
        assert forall|i: int| 0 <= i < ms.len() implies #[trigger] bs[i].moved_to(ms[i], bs[i + 1]) by {
            assert(boards[i].moved_to(moves[i], boards[i + 1]));
        }
        lemma_rights_never_return(bs, ms);
        assert(boards[n].moved_to(moves[n], boards[n + 1]));
        assert forall|i: int, j: int| 0 <= i <= j < boards.len() implies
            #[trigger] boards[j].castle_rights.subset_of(#[trigger] boards[i].castle_rights) by {
            if j == n + 1 {
                if i <= n {
                    assert(bs[i] == boards[i] && bs[n] == boards[n]);
                    assert(bs[n].castle_rights.subset_of(bs[i].castle_rights));
                }
            } else {
                assert(bs[i] == boards[i] && bs[j] == boards[j]);
                assert(bs[j].castle_rights.subset_of(bs[i].castle_rights));
            }
        }
    }
}

/// When two different legal moves fit a SAN text, the text names no move:
/// the undisambiguated form of a move that two pieces can make is rejected.
pub proof fn lemma_two_candidates_name_no_move(b: Board, s: Seq<char>, m1: Move, m2: Move)
    requires
        san_pattern(s) is Some,
        m1 != m2,
        b.san_candidate(san_pattern(s)->0, m1),
        b.san_candidate(san_pattern(s)->0, m2),
    ensures
        forall|m: Move| !#[trigger] b.san_resolves_to(s, m),
{
}

/// When exactly one legal move fits a SAN text, the text names that move;
/// a piece whose move would leave its king attacked is no candidate.
pub proof fn lemma_single_candidate_resolves(b: Board, s: Seq<char>, m: Move)
    requires
        san_pattern(s) is Some,
        b.san_candidate(san_pattern(s)->0, m),
        forall|m2: Move| #[trigger] b.san_candidate(san_pattern(s)->0, m2) ==> m2 == m,
    ensures
        b.san_resolves_to(s, m),
        b.is_legal(m),
        m.castle is None ==> b.leaves_king_safe(m),
{
}

} // verus!

verus! {

/// Walking over a spaceless stretch does not change where the key ends.
proof fn lemma_key_end_skip(s: Seq<char>, o: int, n: int, k: nat)
    requires
        0 <= o,
        0 <= n,
        o + n <= s.len(),
        forall|t: int| o <= t < o + n ==> !#[trigger] is_space(s[t]),
    ensures
        key_end(s, o, k) == key_end(s, o + n, k),
    decreases n,
{
    if n > 0 {
        assert(!is_space(s[o]));
        lemma_key_end_skip(s, o + 1, n - 1, k);
    }
}

/// The repetition key of a position's FEN text is its first four fields.
pub proof fn lemma_key_of_fen(b: Board)
    requires
        b.wf(),
    ensures
        fen_key(fen_text(b)) == position_key(b),
{
    let (p, k, e) = lemma_position_key_parts(b);
    let c = b.active_color.spec_fen_char();
    let s = fen_text(b);
    let rest = seq![' '] + nat_text(b.halfmove_clock as nat) + seq![' '] + nat_text(b.fullmove_number as nat);
    assert(s =~= p + seq![' ', c, ' '] + k + seq![' '] + e + rest);
    let o1 = p.len() as int;
    let o2 = o1 + 3 + k.len();
    let o3 = o2 + 1 + e.len();
    assert forall|t: int| 0 <= t < o1 implies !#[trigger] is_space(s[t]) by { assert(s[t] == p[t]); }
    lemma_key_end_skip(s, 0, o1, 3);
    assert(s[o1] == ' ' && s[o1 + 1] == c && s[o1 + 2] == ' ');
    assert(!is_space(c));
    assert(key_end(s, o1, 3) == key_end(s, o1 + 1, 2));
    assert(key_end(s, o1 + 1, 2) == key_end(s, o1 + 2, 2));
    assert(key_end(s, o1 + 2, 2) == key_end(s, o1 + 3, 1));
    assert forall|t: int| o1 + 3 <= t < o2 implies !#[trigger] is_space(s[t]) by { assert(s[t] == k[t - o1 - 3]); }
    lemma_key_end_skip(s, o1 + 3, k.len() as int, 1);
    assert(s[o2] == ' ');
    assert(key_end(s, o2, 1) == key_end(s, o2 + 1, 0));
    assert forall|t: int| o2 + 1 <= t < o3 implies !#[trigger] is_space(s[t]) by { assert(s[t] == e[t - o2 - 1]); }
    lemma_key_end_skip(s, o2 + 1, e.len() as int, 0);
    assert(s[o3] == ' ');
    assert(key_end(s, o3, 0) == o3);
    assert(key_end(s, 0, 3) == o3);
    assert(s.subrange(0, o3) =~= position_key(b));
}

/// Three equal keys below `n` are counted at least three times.
proof fn lemma_count_three(keys: Seq<Seq<char>>, key: Seq<char>, i: int, j: int, l: int, n: int)
    requires
        0 <= i < j < l < keys.len(),
        0 <= n <= keys.len(),
        keys[i] == key,
        keys[j] == key,
        keys[l] == key,
    ensures
        count_key(keys, key, n) >= (if i < n { 1int } else { 0 }) + (if j < n { 1int } else { 0 })
            + (if l < n { 1int } else { 0 }),
    decreases n,
{
    if n > 0 {
        lemma_count_three(keys, key, i, j, l, n - 1);
    }
}

/// Along a game, each position's FEN text follows the history of the first
/// position.
proof fn lemma_history_records(boards: Seq<Board>, moves: Seq<Move>, t: int)
    requires
        boards.len() == moves.len() + 1,
        forall|i: int| #![trigger moves[i]] 0 <= i < moves.len() ==> boards[i].moved_to(moves[i], boards[i + 1]),
        boards[0].position_history@.len() >= 1,
        boards[0].position_history@.last()@ == fen_text(boards[0]),
        0 <= t < boards.len(),
    ensures
        boards[t].position_history@.len() == boards[0].position_history@.len() + t,
        forall|u: int| 0 <= u <= t ==> #[trigger] boards[t].position_history@[boards[0].position_history@.len() - 1 + u]@
            == fen_text(boards[u]),
    decreases t,
{
    if t > 0 {
        lemma_history_records(boards, moves, t - 1);
        let mv = moves[t - 1];
        assert(boards[t - 1].moved_to(mv, boards[t]));
        let h0 = boards[0].position_history@.len() - 1;
        let prev = boards[t - 1].position_history@;
        let cur = boards[t].position_history@;
        assert forall|u: int| 0 <= u <= t implies #[trigger] cur[h0 + u]@ == fen_text(boards[u]) by {
            if u < t {
                assert(cur.subrange(0, prev.len() as int)[h0 + u] == cur[h0 + u]);
                assert(prev[h0 + u]@ == fen_text(boards[u]));
            }
        }
    }
}

/// Reaching a position a third time makes the game a threefold repetition.
/// `boards[i + 1]` is `boards[i]` with `moves[i]` made; the history of the
/// first board ends with its own FEN text; positions `i`, `j` and `l` agree
/// in placement, side to move, castling rights and en passant square.
pub proof fn lemma_third_occurrence(boards: Seq<Board>, moves: Seq<Move>, i: int, j: int, l: int)
    requires
        boards.len() == moves.len() + 1,
        forall|t: int| #![trigger moves[t]] 0 <= t < moves.len() ==> boards[t].moved_to(moves[t], boards[t + 1]),
        forall|t: int| 0 <= t < boards.len() ==> #[trigger] boards[t].wf(),
        boards[0].position_history@.len() >= 1,
        boards[0].position_history@.last()@ == fen_text(boards[0]),
        0 <= i < j < l < boards.len(),
        position_key(boards[i]) == position_key(boards[j]),
        position_key(boards[i]) == position_key(boards[l]),
    ensures
        repeated_thrice(boards.last().position_history@),
{
    let n = boards.len() - 1;
    lemma_history_records(boards, moves, n);
    let h = boards[n].position_history@;
    let h0 = boards[0].position_history@.len() - 1;
    let keys = history_keys(h);
    assert(boards.last() == boards[n]);
    assert(boards[i].wf() && boards[j].wf() && boards[l].wf());
    lemma_key_of_fen(boards[i]);
    lemma_key_of_fen(boards[j]);
    lemma_key_of_fen(boards[l]);
    assert(h[h0 + i]@ == fen_text(boards[i]));
    assert(h[h0 + j]@ == fen_text(boards[j]));
    assert(h[h0 + l]@ == fen_text(boards[l]));
    assert(keys[h0 + i] == position_key(boards[i]));
    assert(keys[h0 + j] == position_key(boards[i]));
    assert(keys[h0 + l] == position_key(boards[i]));
    lemma_count_three(keys, keys[h0 + i], h0 + i, h0 + j, h0 + l, keys.len() as int);
}

} // verus!

verus! {

/// Changing one square changes the count of a piece by what left and what
/// came.
pub proof fn lemma_count_update(g: Seq<Option<Piece>>, p: Piece, i: int, v: Option<Piece>, n: int)
    requires
        0 <= i < g.len(),
        0 <= n <= g.len(),
    ensures
        count_piece(g.update(i, v), p, n) as int == count_piece(g, p, n) as int
            - (if i < n && g[i] == Some(p) { 1int } else { 0int })
            + (if i < n && v == Some(p) { 1int } else { 0int }),
    decreases n,
{
    if n > 0 {
        lemma_count_update(g, p, i, v, n - 1);
    }
}

/// The piece on `s` of the mover attacks `d`: a move to an enemy king
/// would capture a king that stands in check.
proof fn lemma_capture_is_attack(b: Board, m: Move)
    requires
        b.pseudo_legal(m),
        sq_at(b.grid(), m.dst_square->0) is Some,
    ensures
        attacked_by(b.grid(), m.dst_row(), m.dst_col(), b.active_color),
{
    let g = b.grid();
    let p = m.piece->0;
    let s = m.src_square->0;
    assert(color_at(g, s.0 as int, s.1 as int, b.active_color));
    assert(at(g, s.0 as int, s.1 as int)->0 == p);
    assert(attacks(g, p, s.0 as int, s.1 as int, m.dst_row(), m.dst_col()));
}

/// A legal move from a position that play can reach leads to one: both
/// kings stay on the board, and the mover's king is not left in check.
pub proof fn lemma_legal_move_keeps_play(b: Board, m: Move, a: Board)
    requires
        b.playable(),
        b.is_legal(m),
        b.moved_to(m, a),
    ensures
        a.playable(),
        a.wf(),
{
    let g = b.grid();
    let c = b.active_color;
    let o = c.spec_invert();
    let wk = Piece::King(Color::White);
    let bk = Piece::King(Color::Black);
    assert(a.grid() == b.grid_after(m));
    assert(a.active_color.spec_invert() == c);
    assert(g.len() == 64);
    if m.castle is Some {
        let k = m.castle->0;
        let row = back_row(c);
        assert(b.can_castle(k));
        let (i1, i2, i3, i4) = match k {
            CastleKind::Kingside => (row * 8 + 4, row * 8 + 7, row * 8 + 6, row * 8 + 5),
            CastleKind::Queenside => (row * 8 + 4, row * 8 + 0, row * 8 + 2, row * 8 + 3),
        };
        let r4 = Some(Piece::Rook(c));
        let g1 = g.update(i1, None);
        let g2 = g1.update(i2, None);
        let g3 = g2.update(i3, Some(Piece::King(c)));
        let g4 = g3.update(i4, r4);
        assert(castled_grid(g, c, k) == g4);
        lemma_count_update(g, wk, i1, None, 64);
        lemma_count_update(g1, wk, i2, None, 64);
        lemma_count_update(g2, wk, i3, Some(Piece::King(c)), 64);
        lemma_count_update(g3, wk, i4, r4, 64);
        lemma_count_update(g, bk, i1, None, 64);
        lemma_count_update(g1, bk, i2, None, 64);
        lemma_count_update(g2, bk, i3, Some(Piece::King(c)), 64);
        lemma_count_update(g3, bk, i4, r4, 64);
    } else {
        assert(b.pseudo_legal(m));
        let p = m.piece->0;
        let s = m.src_square->0;
        let d = m.dst_square->0;
        if sq_at(g, d) == Some(Piece::King(o)) {
            lemma_capture_is_attack(b, m);
            assert(at(g, m.dst_row(), m.dst_col()) == Some(Piece::King(o)));
            assert(king_attacked(g, o));
        }
        let ep = b.is_en_passant(p, s, d);
        let ei = s.0 * 8 + d.1;
        let g1 = if ep { g.update(ei, None) } else { g };
        let placed = if m.promotion is Some { m.promotion } else { m.piece };
        let g2 = g1.update(d.index(), placed);
        let g3 = g2.update(s.index(), None);
        assert(b.grid_after(m) == g3);
        if ep {
            lemma_count_update(g, wk, ei, None, 64);
            lemma_count_update(g, bk, ei, None, 64);
            assert(ei != d.index());
            assert(ei != s.index());
        }
        assert(g1[d.index()] == g[d.index()]);
        assert(g2[s.index()] == g[s.index()]);
        assert(m.promotion is Some ==> is_promotion_piece(m.promotion->0, c));
        lemma_count_update(g1, wk, d.index(), placed, 64);
        lemma_count_update(g1, bk, d.index(), placed, 64);
        lemma_count_update(g2, wk, s.index(), None, 64);
        lemma_count_update(g2, bk, s.index(), None, 64);
    }
}

} // verus!

verus! {

/// Every position of a game played by legal moves from a position that play
/// can reach is one too. `boards[i + 1]` is `boards[i]` with the legal move
/// `moves[i]` made.
pub proof fn lemma_game_stays_playable(boards: Seq<Board>, moves: Seq<Move>)
    requires
        boards.len() == moves.len() + 1,
        boards[0].playable(),
        boards[0].wf(),
        forall|i: int| #![trigger moves[i]] 0 <= i < moves.len() ==> boards[i].is_legal(moves[i])
            && boards[i].moved_to(moves[i], boards[i + 1]),
    ensures
        forall|i: int| #![trigger boards[i]] 0 <= i < boards.len() ==> boards[i].playable() && boards[i].wf(),
    decreases moves.len(),
{
    if moves.len() > 0 {
        let n = moves.len() - 1;
        let bs = boards.subrange(0, n + 1);
        let ms = moves.subrange(0, n);
        assert forall|i: int| #![trigger ms[i]] 0 <= i < ms.len() implies bs[i].is_legal(ms[i])
            && bs[i].moved_to(ms[i], bs[i + 1]) by {
            let mv = moves[i];
        }
        lemma_game_stays_playable(bs, ms);
        let mv = moves[n];
        assert(bs[n] == boards[n]);
        lemma_legal_move_keeps_play(boards[n], mv, boards[n + 1]);
        assert forall|i: int| #![trigger boards[i]] 0 <= i < boards.len() implies boards[i].playable() && boards[i].wf() by {
            if i <= n {
                assert(bs[i] == boards[i]);
            }
        }
    }
}

/// Reading back the FEN text of any position of a game played by legal
/// moves from a position that play can reach gives that position.
pub proof fn lemma_fen_round_trip_in_play(boards: Seq<Board>, moves: Seq<Move>)
    requires
        boards.len() == moves.len() + 1,
        boards[0].playable(),
        boards[0].wf(),
        forall|i: int| #![trigger moves[i]] 0 <= i < moves.len() ==> boards[i].is_legal(moves[i])
            && boards[i].moved_to(moves[i], boards[i + 1]),
    ensures
        forall|i: int| 0 <= i < boards.len() ==> parse_fen_spec(fen_text(#[trigger] boards[i]))
            == Ok::<FenFields, FenParseError>(fields_of(boards[i])),
{
    lemma_game_stays_playable(boards, moves);
    assert forall|i: int| 0 <= i < boards.len() implies parse_fen_spec(fen_text(#[trigger] boards[i]))
        == Ok::<FenFields, FenParseError>(fields_of(boards[i])) by {
        assert(boards[i].playable() && boards[i].wf());
        crate::round_trip::lemma_fen_round_trip(boards[i]);
    }
}

} // verus!

verus! {

/// The squares of the starting position: rows 0 and 1 hold black pieces,
/// rows 2 to 5 are empty, rows 6 and 7 hold white pieces.
proof fn lemma_start_squares()
    ensures
        start_grid().len() == 64,
        forall|i: int| 0 <= i < 16 ==> #[trigger] start_grid()[i] is Some && start_grid()[i]->0.spec_color() == Color::Black,
        forall|i: int| 16 <= i < 48 ==> #[trigger] start_grid()[i] is None,
        forall|i: int| 48 <= i < 64 ==> #[trigger] start_grid()[i] is Some && start_grid()[i]->0.spec_color() == Color::White,
        forall|i: int| 48 <= i < 64 && #[trigger] start_grid()[i] is Some && start_grid()[i]->0.slides() ==> i >= 56,
        start_grid()[60] == Some(Piece::King(Color::White)),
        forall|i: int| 0 <= i < 64 && i != 60 ==> #[trigger] start_grid()[i] != Some(Piece::King(Color::White)),
        start_grid()[4] == Some(Piece::King(Color::Black)),
        forall|i: int| 0 <= i < 64 && i != 4 ==> #[trigger] start_grid()[i] != Some(Piece::King(Color::Black)),
{
    let g = start_grid();
    assert(g.len() == 64);
    assert forall|i: int| 0 <= i < 64 implies #[trigger] g[i] == (if i < 8 {
        crate::fen_parse::back_rank(Color::Black)[i]
    } else if i < 16 {
        Some(Piece::Pawn(Color::Black))
    } else if i < 48 {
        None
    } else if i < 56 {
        Some(Piece::Pawn(Color::White))
    } else {
        crate::fen_parse::back_rank(Color::White)[i - 56]
    }) by {
    }
}

/// No count of a piece grows over a stretch that does not hold it.
proof fn lemma_count_skip(g: Seq<Option<Piece>>, p: Piece, a: int, n: int)
    requires
        0 <= a <= n <= g.len(),
        forall|i: int| a <= i < n ==> g[i] != Some(p),
    ensures
        count_piece(g, p, n) == count_piece(g, p, a),
    decreases n - a,
{
    if n > a {
        lemma_count_skip(g, p, a, n - 1);
    }
}

/// In the starting position no white piece reaches the first two rows.
proof fn lemma_start_no_reach(r: int, c: int, dr: int, dc: int, tr: int, tc: int, fuel: nat)
    requires
        6 <= r <= 7,
        0 <= c < 8,
        -2 <= dr <= 2,
        0 <= tr <= 1,
        fuel > 0 ==> r == 7 && -1 <= dr <= 1 && -1 <= dc <= 1,
    ensures
        !reaches(start_grid(), r, c, dr, dc, tr, tc, fuel),
{
    lemma_start_squares();
    if fuel > 0 && on_board(r + dr, c + dc) {
        assert(start_grid()[(r + dr) * 8 + c + dc] is Some);
    }
}

/// In the starting position no white piece attacks the first two rows.
proof fn lemma_start_no_attack(tr: int, tc: int)
    requires
        0 <= tr <= 1,
    ensures
        !attacked_by(start_grid(), tr, tc, Color::White),
{
    let g = start_grid();
    lemma_start_squares();
    assert forall|r: int, c: int| on_board(r, c) && color_at(g, r, c, Color::White)
        implies !#[trigger] attacks(g, at(g, r, c)->0, r, c, tr, tc) by {
        let p = at(g, r, c)->0;
        assert(r * 8 + c >= 48);
        if !(p is Pawn) {
            let dirs = p.spec_directions();
            assert forall|j: int| 0 <= j < dirs.len() implies !#[trigger] reaches(g, r, c,
                dirs[j].0 as int, dirs[j].1 as int, tr, tc, step_fuel(p)) by {
                if p.slides() {
                    assert(r * 8 + c >= 56);
                }
                lemma_start_no_reach(r, c, dirs[j].0 as int, dirs[j].1 as int, tr, tc, step_fuel(p));
            }
        }
    }
}

/// The starting position is one that play can reach.
pub proof fn lemma_start_playable(b: Board)
    requires
        b.squares@ == start_grid(),
        b.active_color == Color::White,
    ensures
        b.playable(),
{
    let g = start_grid();
    lemma_start_squares();
    lemma_count_skip(g, Piece::King(Color::White), 61, 64);
    lemma_count_skip(g, Piece::King(Color::White), 0, 60);
    lemma_count_skip(g, Piece::King(Color::Black), 5, 64);
    lemma_count_skip(g, Piece::King(Color::Black), 0, 4);
    assert(count_piece(g, Piece::King(Color::White), 0) == 0);
    assert(count_piece(g, Piece::King(Color::Black), 0) == 0);
    assert forall|r: int, c: int| on_board(r, c) && #[trigger] at(g, r, c) == Some(Piece::King(Color::Black))
        implies !attacked_by(g, r, c, Color::White) by {
        assert(r * 8 + c == 4);
        lemma_start_no_attack(r, c);
    }
}

} // verus!
