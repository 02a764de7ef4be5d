use chessr::{parse_fen, Board, CastleKind, CastleRights, Color, FenParseError, Move, Piece};
use chessr::{PieceKind, SanError, SquareCoords};

const START: &str = "rnbqkbnr/pppppppp/8/8/8/8/PPPPPPPP/RNBQKBNR w KQkq - 0 1";

#[test]
fn starting_position_fen_and_moves() {
    let board = Board::new();
    assert_eq!(board.fen(), START);
    assert_eq!(board.legal_moves().len(), 20);
    assert_eq!(board.position_history.len(), 1);
}

#[test]
fn fen_round_trip_samples() {
    for fen in [
        START,
        "rnbqkbnr/1pp1pppp/p7/3pP3/8/8/PPPP1PPP/RNBQKBNR w KQkq d6 0 3",
        "r3k2r/ppp2ppp/2n1b3/3p2B1/3P4/2N5/PPP2PPP/R3K2R b Kq - 1 1",
        "8/8/8/8/8/2k5/2p5/2K5 w - - 0 1",
        "Q7/5P2/8/2kN4/2p5/1p6/1P2K1B1/8 w - - 1 63",
    ] {
        let board = Board::from_fen(fen).unwrap();
        assert_eq!(board.fen(), fen);
        let again = Board::from_fen(&board.fen()).unwrap();
        assert_eq!(again.squares, board.squares);
        assert_eq!(again.fen(), fen);
    }
}

#[test]
fn fen_optional_clocks_default() {
    let board = Board::from_fen("8/8/8/8/8/2k5/2p5/2K5 w -  -").unwrap();
    assert_eq!(board.halfmove_clock, 0);
    assert_eq!(board.fullmove_number, 1);
    assert_eq!(board.fen(), "8/8/8/8/8/2k5/2p5/2K5 w - - 0 1");
}

#[test]
fn fen_errors() {
    assert_eq!(parse_fen("8/8/8 w").err(), Some(FenParseError::Blocks));
    assert_eq!(parse_fen("a b c d e f g").err(), Some(FenParseError::Blocks));
    assert_eq!(parse_fen("8/8/8/8/8/8/8 w - - 0 1").err(), Some(FenParseError::Ranks));
    assert_eq!(parse_fen("8/8/8/8/8/8/8/8/8 w - - 0 1").err(), Some(FenParseError::Ranks));
    assert_eq!(parse_fen("7/8/8/8/8/8/8/8 w - - 0 1").err(), Some(FenParseError::RankSquares));
    // seven ranks, the first one short: the rank count is reported first
    assert_eq!(parse_fen("7/8/8/8/8/8/8 w - - 0 1").err(), Some(FenParseError::Ranks));
    assert_eq!(parse_fen("k9/8/8/8/8/8/8/K7 w - - 0 1").err(), Some(FenParseError::RankSquares));
    assert_eq!(parse_fen("k8/8/8/8/8/8/8/K7 w - - 0 1").err(), Some(FenParseError::RankSquares));
    assert_eq!(parse_fen("k6x/8/8/8/8/8/8/K7 w - - 0 1").err(), Some(FenParseError::PieceChar));
    assert_eq!(
        parse_fen("k7/8/8/8/8/8/8/8 w - - 0 1").err(),
        Some(FenParseError::KingCount(Color::White))
    );
    assert_eq!(
        parse_fen("kk6/8/8/8/8/8/8/K7 w - - 0 1").err(),
        Some(FenParseError::KingCount(Color::Black))
    );
    assert_eq!(parse_fen("k7/8/8/8/8/8/8/K7 x - - 0 1").err(), Some(FenParseError::ActiveColor));
    assert_eq!(parse_fen("k7/8/8/8/8/8/8/K7 w KX - 0 1").err(), Some(FenParseError::CastleRights));
    assert_eq!(parse_fen("k7/8/8/8/8/8/8/K7 w - e9 0 1").err(), Some(FenParseError::EnPassant));
    assert_eq!(parse_fen("k7/8/8/8/8/8/8/K7 w - - x 1").err(), Some(FenParseError::HalfmoveClock));
    assert_eq!(
        parse_fen("k7/8/8/8/8/8/8/K7 w - - 0 99999999999").err(),
        Some(FenParseError::FullmoveNumber)
    );
}

#[test]
fn checkmate_sample() {
    let board =
        Board::from_fen("rnb1kbnr/pppp1ppp/4p3/8/5PPq/8/PPPPP2P/RNBQKBNR w KQkq - 1 3").unwrap();
    assert!(board.check());
    assert!(board.checkmate());
    assert!(!board.stalemate());
    assert_eq!(board.legal_moves().len(), 0);
    let checkers = board.checkers();
    assert_eq!(checkers.len(), 1);
    assert_eq!(checkers[0].0, Piece::Queen(Color::Black));
    assert_eq!(checkers[0].1, SquareCoords(4, 7));
}

#[test]
fn checkers_of_bishop_check() {
    let board =
        Board::from_fen("rnbqk1nr/ppp2ppp/4p3/3p4/1bPP4/5N2/PP2PPPP/RNBQKB1R w KQkq - 2 4").unwrap();
    assert!(board.check());
    let checkers = board.checkers();
    assert_eq!(checkers.len(), 1);
    assert_eq!(checkers[0].0.to_fen_char(), 'b');
    assert_eq!(checkers[0].1, SquareCoords(4, 1));
}

#[test]
fn stalemate_sample() {
    let board = Board::from_fen("8/8/8/8/8/2k5/2p5/2K5 w - - 0 1").unwrap();
    assert!(board.stalemate());
    assert!(!board.checkmate());
    assert!(board.draw());
}

#[test]
fn insufficient_material_samples() {
    let same_color_bishops = Board::from_fen("2k5/4b3/8/8/8/8/8/2K1B1B1 w - - 0 1").unwrap();
    assert!(same_color_bishops.insufficient_material());
    assert!(same_color_bishops.draw());
    let kings_only = Board::from_fen("8/8/1k6/5K2/8/8/8/8 b - - 0 2").unwrap();
    assert!(kings_only.insufficient_material());
    let knight = Board::from_fen("8/8/1k6/5K2/8/8/4N3/8 b - - 0 2").unwrap();
    assert!(knight.insufficient_material());
    assert!(knight.draw());
    let two_knights = Board::from_fen("8/8/1k6/5K2/8/8/4N1N1/8 b - - 0 2").unwrap();
    assert!(!two_knights.insufficient_material());
    let opposite_bishops = Board::from_fen("2k5/8/8/8/8/8/8/2K1BB2 w - - 0 1").unwrap();
    assert!(!opposite_bishops.insufficient_material());
    let rook = Board::from_fen("2k5/8/8/8/8/8/8/2K1R3 w - - 0 1").unwrap();
    assert!(!rook.insufficient_material());
    assert!(!Board::new().insufficient_material());
}

#[test]
fn fifty_move_rule_counts_half_moves() {
    let board = Board::from_fen("2k5/8/8/8/8/8/8/2K1R3 w - - 99 80").unwrap();
    assert!(!board.fifty_move_rule());
    let board = Board::from_fen("2k5/8/8/8/8/8/8/2K1R3 w - - 100 80").unwrap();
    assert!(board.fifty_move_rule());
    assert!(board.draw());
    let mut board = Board::from_fen("2k5/8/8/8/8/8/8/2K1R3 w - - 99 80").unwrap();
    assert!(board.make_move("Re2").is_some());
    assert_eq!(board.halfmove_clock, 100);
    assert!(board.fifty_move_rule());
}

#[test]
fn en_passant_capture_removes_passed_pawn() {
    let mut board =
        Board::from_fen("rnbqkbnr/1pp1pppp/p7/3pP3/8/8/PPPP1PPP/RNBQKBNR w KQkq d6 0 3").unwrap();
    assert_eq!(chessr::pawn_legal_moves(SquareCoords(3, 4), &board).len(), 2);
    let m = board.make_move("exd6").unwrap();
    assert!(m.capture);
    assert_eq!(board.squares[3 * 8 + 3], None);
    assert_eq!(board.squares[2 * 8 + 3], Some(Piece::Pawn(Color::White)));
    assert_eq!(board.fen(), "rnbqkbnr/1pp1pppp/p2P4/8/8/8/PPPP1PPP/RNBQKBNR b KQkq - 0 3");
}

#[test]
fn en_passant_target_set_only_when_capturable() {
    let mut board = Board::new();
    board.make_move("e4").unwrap();
    assert_eq!(board.en_passant_target, None);
    assert_eq!(board.fen(), "rnbqkbnr/pppppppp/8/8/4P3/8/PPPP1PPP/RNBQKBNR b KQkq - 0 1");
    let mut board =
        Board::from_fen("rnbqkbnr/ppp1pppp/8/8/3pP3/8/PPPP1PPP/RNBQKBNR w KQkq - 0 3").unwrap();
    board.make_move("c4").unwrap();
    assert_eq!(board.en_passant_target, Some(SquareCoords(5, 2)));
    assert!(board.make_move("dxc3").is_some());
    assert_eq!(board.squares[4 * 8 + 2], None);
}

#[test]
fn rejected_move_leaves_position_unchanged() {
    let mut board = Board::new();
    let before = board.fen();
    assert_eq!(board.make_move("e5"), None);
    assert_eq!(board.make_move("e2e5"), None);
    assert_eq!(board.make_move("O-O"), None);
    assert_eq!(board.make_move("Qh5"), None);
    assert_eq!(board.make_move("zz"), None);
    assert_eq!(board.make_uci_move("e1e2"), None);
    assert_eq!(board.make_san_move("Ke2"), None);
    assert_eq!(board.fen(), before);
    assert_eq!(board.position_history.len(), 1);
}

#[test]
fn moving_into_check_is_rejected() {
    let mut board = Board::from_fen("4k3/8/8/8/8/8/4r3/4K3 w - - 0 1").unwrap();
    let before = board.fen();
    assert_eq!(board.make_move("Kd2"), None);
    assert_eq!(board.fen(), before);
    assert!(board.make_move("Kxe2").is_some());
}

#[test]
fn disambiguation_needed_and_resolved() {
    let board = Board::from_fen("4k3/8/8/8/8/2N3N1/7K/8 w - - 0 1").unwrap();
    assert_eq!(board.resolve_san("Ne4"), Err(SanError::Ambiguous));
    assert_eq!(Move::from_san("Ne4", &board), None);
    let mut b1 = board.clone();
    assert_eq!(b1.make_move("Ne4"), None);
    assert_eq!(b1.fen(), board.fen());
    let m = b1.make_move("Nce4").unwrap();
    assert_eq!(m.src_square, Some(SquareCoords(5, 2)));
    let mut b2 = board.clone();
    let m = b2.make_move("Nge4").unwrap();
    assert_eq!(m.src_square, Some(SquareCoords(5, 6)));
    // both knights stand on the third rank: the rank does not tell them apart
    let mut b3 = board.clone();
    assert_eq!(b3.make_move("N3e4"), None);
}

#[test]
fn disambiguation_by_king_safety() {
    // the knight on g3 is pinned against the king on h2
    let board = Board::from_fen("4k3/8/8/4b3/8/2N3N1/7K/8 w - - 0 1").unwrap();
    let m = board.resolve_san("Ne4").unwrap();
    assert_eq!(m.src_square, Some(SquareCoords(5, 2)));
    assert_eq!(board.resolve_san("Nge4"), Err(SanError::NoMove));
    assert_eq!(board.resolve_san("Nq4"), Err(SanError::Malformed));
}

#[test]
fn castling_rights_never_come_back() {
    let mut board = Board::new();
    for m in ["e4", "e5", "Ke2", "Ke7", "Ke1", "Ke8"] {
        assert!(board.make_move(m).is_some(), "{}", m);
    }
    assert_eq!(board.fen(), "rnbqkbnr/pppp1ppp/8/4p3/4P3/8/PPPP1PPP/RNBQKBNR w - - 4 4");
    let mut board =
        Board::from_fen("r3k2r/pppppppp/8/8/8/8/PPPPPPPP/R3K2R w KQkq - 0 1").unwrap();
    for m in ["Rb1", "Rb8", "Ra1", "Ra8"] {
        assert!(board.make_move(m).is_some(), "{}", m);
    }
    assert_eq!(board.fen(), "r3k2r/pppppppp/8/8/8/8/PPPPPPPP/R3K2R w Kk - 4 3");
    assert!(!board.castle_rights.has(CastleRights::WhiteQueenside));
    assert!(board.castle_rights.has(CastleRights::WhiteKingside));
}

#[test]
fn rook_capture_revokes_right() {
    let mut board = Board::from_fen("r3k2r/8/8/8/8/8/6b1/R3K2R b KQkq - 0 1").unwrap();
    assert!(board.make_move("Bxh1").is_some());
    assert_eq!(board.fen(), "r3k2r/8/8/8/8/8/8/R3K2b w Qkq - 0 2");
}

#[test]
fn castling_moves_king_and_rook() {
    let mut board =
        Board::from_fen("r1bqk1nr/pppp1ppp/2n5/2b1p3/2B1P3/5N2/PPPP1PPP/RNBQK2R w KQkq - 4 4")
            .unwrap();
    let m = board.make_move("O-O").unwrap();
    assert_eq!(m.castle, Some(CastleKind::Kingside));
    assert_eq!(board.fen(), "r1bqk1nr/pppp1ppp/2n5/2b1p3/2B1P3/5N2/PPPP1PPP/RNBQ1RK1 b kq - 5 4");
    let mut board = Board::from_fen("r3k2r/8/8/8/8/8/8/R3K2R b KQkq - 0 1").unwrap();
    assert!(board.make_move("0-0-0+").is_some());
    assert_eq!(board.fen(), "2kr3r/8/8/8/8/8/8/R3K2R w KQ - 1 2");
}

#[test]
fn no_castling_out_of_or_through_check() {
    let board = Board::from_fen("4k3/8/8/8/8/8/8/R3K2R w KQ - 0 1").unwrap();
    assert_eq!(chessr::castle_legal_moves(&board).len(), 2);
    let in_check = Board::from_fen("4r1k1/8/8/8/8/8/8/R3K2R w KQ - 0 1").unwrap();
    assert_eq!(chessr::castle_legal_moves(&in_check).len(), 0);
    let through = Board::from_fen("5rk1/8/8/8/8/8/8/R3K2R w KQ - 0 1").unwrap();
    let moves = chessr::castle_legal_moves(&through);
    assert_eq!(moves.len(), 1);
    assert_eq!(moves[0].castle, Some(CastleKind::Queenside));
}

#[test]
fn threefold_repetition_by_knight_shuffle() {
    let mut board = Board::new();
    for (i, m) in ["Nf3", "Nf6", "Ng1", "Ng8", "Nf3", "Nf6", "Ng1"].iter().enumerate() {
        assert!(board.make_move(m).is_some(), "move {}", i);
        assert!(!board.threefold_repetition());
    }
    assert!(board.make_move("Ng8").is_some());
    assert!(board.threefold_repetition());
    assert!(board.draw());
}

#[test]
fn threefold_repetition_after_pawn_moves() {
    let mut board = Board::new();
    for m in ["e4", "e5", "Nf3", "Nf6", "Ng1", "Ng8", "Nf3", "Nf6", "Ng1", "Ng8"] {
        assert!(board.make_move(m).is_some());
    }
    assert!(board.threefold_repetition());
}

#[test]
fn fullmove_number_grows_after_black() {
    let mut board = Board::new();
    board.make_move("e2e4").unwrap();
    assert_eq!(board.fullmove_number, 1);
    assert_eq!(board.active_color, Color::Black);
    board.make_move("e7-e5").unwrap();
    assert_eq!(board.fullmove_number, 2);
    board.make_move("f1-c4").unwrap();
    assert_eq!(board.fen(), "rnbqkbnr/pppp1ppp/8/4p3/2B1P3/8/PPPP1PPP/RNBQK1NR b KQkq - 1 2");
}

#[test]
fn promotion_in_both_notations() {
    let fen = "r1bq2nr/1pp1Pppp/p1np2k1/2b5/2B5/3N4/PPPP1PPP/RNBQK2R w KQ - 0 9";
    let mut board = Board::from_fen(fen).unwrap();
    let m = board.make_move("e8=N").unwrap();
    assert_eq!(m.promotion, Some(Piece::Knight(Color::White)));
    assert_eq!(board.squares[4], Some(Piece::Knight(Color::White)));
    let mut board = Board::from_fen(fen).unwrap();
    assert!(board.make_move("e7e8").is_none());
    let m = board.make_move("e7d8q").unwrap();
    assert!(m.capture);
    assert_eq!(board.squares[3], Some(Piece::Queen(Color::White)));
    let mut board = Board::from_fen(fen).unwrap();
    assert!(board.make_move("exd8=R+").is_some());
    assert_eq!(board.squares[3], Some(Piece::Rook(Color::White)));
}

#[test]
fn uci_text_of_moves() {
    let board = Board::new();
    let m = Move::from_uci("g1f3", &board).unwrap();
    assert_eq!(m.to_uci_str(), "g1-f3");
    let fen = "r1bq2nr/1pp1Pppp/p1np2k1/2b5/2B5/3N4/PPPP1PPP/RNBQK2R w KQ - 0 9";
    let board = Board::from_fen(fen).unwrap();
    assert_eq!(Move::from_uci("e7-e8q", &board).unwrap().to_uci_str(), "e7-e8q");
    assert_eq!(Move::from_uci("e1g1", &board).unwrap().to_uci_str(), "e1g1");
    assert_eq!(CastleKind::Queenside.to_uci_str(&Color::Black), "e8c8");
    assert_eq!(CastleKind::Kingside.to_san_str(), "O-O");
    assert_eq!(Move::from_uci("e2e9", &board), None);
    assert_eq!(Move::from_uci("e3e4", &board), None);
    assert_eq!(Move::from_uci("e7e8x", &board), None);
}

#[test]
fn codecs() {
    assert_eq!(SquareCoords::from_san_str("e4"), Some(SquareCoords(4, 4)));
    assert_eq!(SquareCoords::from_san_str("a8"), Some(SquareCoords(0, 0)));
    assert_eq!(SquareCoords::from_san_str("i1"), None);
    assert_eq!(SquareCoords::from_san_str("e4x"), Some(SquareCoords(4, 4)));
    assert_eq!(SquareCoords::from_san_str("e"), None);
    assert!(SquareCoords(7, 7).inside_board());
    assert!(!SquareCoords(8, 0).inside_board());
    assert_eq!(Piece::from_fen_char('n'), Some(Piece::Knight(Color::Black)));
    assert_eq!(Piece::from_fen_char('x'), None);
    assert_eq!(Piece::from_san_char('Q', Color::White), Some(Piece::Queen(Color::White)));
    assert_eq!(Piece::from_uci_char('r', Color::Black), Some(Piece::Rook(Color::Black)));
    assert_eq!(Piece::King(Color::White).to_fen_char(), 'K');
    assert_eq!(Piece::Bishop(Color::Black).to_san_char(), 'B');
    assert_eq!(Piece::Knight(Color::White).to_uci_char(), 'n');
    assert_eq!(Piece::Rook(Color::Black).color(), Color::Black);
    assert_eq!(Piece::Rook(Color::Black).kind(), PieceKind::Rook);
    assert_eq!(Piece::Pawn(Color::White).directions(), vec![(-1, 0), (-2, 0), (-1, -1), (-1, 1)]);
    assert_eq!(Piece::Knight(Color::White).directions().len(), 8);
    assert_eq!(Color::White.invert(), Color::Black);
    assert_eq!(Color::Black.to_fen_char(), 'b');
    assert_eq!(CastleRights::from_fen_char('q'), Some(CastleRights::BlackQueenside));
    assert_eq!(CastleRights::WhiteKingside.to_fen_char(), 'K');
    assert_eq!(CastleKind::from_san_str("o-o-o"), Some(CastleKind::Queenside));
    assert_eq!(CastleKind::from_san_str("0-0"), Some(CastleKind::Kingside));
    assert_eq!(CastleKind::from_san_str("O-0"), None);
    assert_eq!(CastleKind::from_uci_str("e8-g8"), Some(CastleKind::Kingside));
    assert_eq!(CastleKind::from_uci_str("e2e4"), None);
}

#[test]
fn backward_resolution_helpers() {
    let board = Board::new();
    let m = chessr::pawn_move((4, 4), &board).unwrap();
    assert_eq!(m.src_square, Some(SquareCoords(6, 4)));
    assert_eq!(chessr::pawn_move((3, 4), &board), None);
    let m = chessr::piece_move(Piece::Knight(Color::White), (5, 5), None, None, &board).unwrap();
    assert_eq!(m.src_square, Some(SquareCoords(7, 6)));
    assert_eq!(chessr::piece_move(Piece::Bishop(Color::White), (5, 5), None, None, &board), None);

    let two_knights = Board::from_fen("4k3/8/8/8/8/2N3N1/7K/8 w - - 0 1").unwrap();
    assert_eq!(chessr::piece_move(Piece::Knight(Color::White), (4, 4), None, None, &two_knights), None);
    let m = chessr::piece_move(Piece::Knight(Color::White), (4, 4), None, Some(6), &two_knights).unwrap();
    assert_eq!(m.src_square, Some(SquareCoords(5, 6)));

    let capture =
        Board::from_fen("rnbqkbnr/ppp1pppp/8/3p4/4P3/8/PPPP1PPP/RNBQKBNR w KQkq - 0 2").unwrap();
    let m = chessr::pawn_capture((3, 3), 4, &capture).unwrap();
    assert!(m.capture);
    assert_eq!(m.src_square, Some(SquareCoords(4, 4)));
    assert_eq!(chessr::pawn_capture((3, 3), 2, &capture), None);
}

#[test]
fn attackers_of_a_square() {
    // the queen on d8 down the file and the bishop on b6 along the diagonal
    let board =
        Board::from_fen("3qk3/8/1b6/8/8/8/8/4K3 w - - 0 1").unwrap();
    let attackers = board.square_attackers(SquareCoords(4, 3));
    assert_eq!(attackers.len(), 2);
    assert!(attackers.contains(&(Piece::Queen(Color::Black), SquareCoords(0, 3))));
    assert!(attackers.contains(&(Piece::Bishop(Color::Black), SquareCoords(2, 1))));
    assert_eq!(board.square_attackers(SquareCoords(7, 0)).len(), 0);
    let pawn = Board::from_fen("4k3/8/8/3p4/8/8/8/4K3 w - - 0 1").unwrap();
    let attackers = pawn.square_attackers(SquareCoords(4, 2));
    assert_eq!(attackers, vec![(Piece::Pawn(Color::Black), SquareCoords(3, 3))]);
    assert_eq!(pawn.square_attackers(SquareCoords(4, 3)).len(), 0);
}

#[test]
fn square_name_conversions() {
    assert_eq!(chessr::algebraic_to_coordinates("e4"), Some((4, 4)));
    assert_eq!(chessr::algebraic_to_coordinates("h1"), Some((7, 7)));
    assert_eq!(chessr::algebraic_to_coordinates("e"), None);
    assert_eq!(chessr::algebraic_to_coordinates("e4x"), Some((4, 4)));
    assert_eq!(chessr::coordinates_to_algebraic((0, 0)), Some("a8".to_string()));
    assert_eq!(chessr::coordinates_to_algebraic((6, 4)), Some("e2".to_string()));
    assert_eq!(chessr::coordinates_to_algebraic((8, 4)), None);
}

#[test]
fn largest_clock_values() {
    let mut board = Board::from_fen("2k5/8/8/8/8/8/8/2K1R3 w - - 4294967295 4294967295").unwrap();
    assert_eq!(board.halfmove_clock, u32::MAX);
    assert!(board.make_move("Re2").is_some());
    assert_eq!(board.halfmove_clock, u32::MAX);
    assert_eq!(board.fullmove_number, u32::MAX);
    assert_eq!(
        parse_fen("2k5/8/8/8/8/8/8/2K1R3 w - - 4294967296 1").err(),
        Some(FenParseError::HalfmoveClock)
    );
}

#[test]
fn castling_field_text() {
    assert_eq!(Board::new().castle_rights.fen(), "KQkq");
    let board = Board::from_fen("r3k2r/8/8/8/8/8/8/R3K2R w Qk - 0 1").unwrap();
    assert_eq!(board.castle_rights.fen(), "Qk");
    let board = Board::from_fen("4k3/8/8/8/8/8/8/4K3 w - - 0 1").unwrap();
    assert_eq!(board.castle_rights.fen(), "-");
}

#[test]
fn move_lists_have_no_duplicates() {
    let board =
        Board::from_fen("r2qkbnr/pPppppp1/b1n4p/8/8/8/PP1PPPPP/RNBQKBNR w KQkq - 0 5").unwrap();
    let moves = chessr::pawn_legal_moves(SquareCoords(1, 1), &board);
    for (i, a) in moves.iter().enumerate() {
        for b in moves.iter().skip(i + 1) {
            assert_ne!(a, b);
        }
    }
    let all = board.legal_moves();
    for (i, a) in all.iter().enumerate() {
        for b in all.iter().skip(i + 1) {
            assert_ne!(a, b);
        }
    }
}

#[test]
fn en_passant_needs_a_pawn_to_take() {
    // the target square is named, but no black pawn stands on e5
    let board = Board::from_fen("4k3/8/8/3P4/8/8/8/4K3 w - e6 0 1").unwrap();
    assert_eq!(chessr::pawn_legal_moves(SquareCoords(3, 3), &board).len(), 1);
    let board = Board::from_fen("4k3/8/8/3Pp3/8/8/8/4K3 w - e6 0 1").unwrap();
    assert_eq!(chessr::pawn_legal_moves(SquareCoords(3, 3), &board).len(), 2);
}
