use chessr::{castle_legal_moves, pawn_legal_moves, piece_legal_moves};
use chessr::{Board, CastleKind, Color, Move, Piece, SquareCoords};

#[test]
fn movegen_test_legal_moves() {
    // initial position
    let mut board =
        Board::from_fen("rnbqkbnr/pppppppp/8/8/8/8/PPPPPPPP/RNBQKBNR w KQkq - 0 1").unwrap();
    assert_eq!(board.legal_moves().len(), 20);

    // checkmate
    board = Board::from_fen("8/5pk1/6p1/8/5P1Q/1b6/q7/K7 w - - 12 50").unwrap();
    assert_eq!(board.legal_moves().len(), 0);

    // stalemate
    board = Board::from_fen("8/7p/8/8/1p6/5k2/5p2/5K2 w - - 4 56").unwrap();
    assert_eq!(board.legal_moves().len(), 0);

    // check
    board = Board::from_fen("4R1k1/ppp2ppp/2b5/8/3P1B2/P4N2/2P2PPP/6K1 b - - 0 20").unwrap();
    assert_eq!(board.legal_moves().len(), 1);

    // promotion
    board = Board::from_fen("Q7/5P2/8/2kN4/2p5/1p6/1P2K1B1/8 w - - 1 63").unwrap();
    assert_eq!(board.legal_moves().len(), 40);

    board = Board::from_fen("rnb2rk1/ppp2ppp/3p1n2/8/3PP3/P1P2N2/2P2PPP/R1B1KB1R b KQ - 0 9")
        .unwrap();
    assert_eq!(board.legal_moves().len(), 28);

    board =
        Board::from_fen("rnb1kbnr/p1pp1ppp/1p6/4p1q1/2B1P3/P7/1PPP1PPP/RNBQK1NR w KQkq - 2 4")
            .unwrap();
    assert_eq!(board.legal_moves().len(), 33);
}

#[test]
fn movegen_test_pawn_legal_moves() {
    // frontal pinned pawn
    let mut board =
        Board::from_fen("rnb1kbnr/ppp1pppp/4q3/3p4/P3P3/8/1PPP1PPP/RNBQKBNR w KQkq - 1 4").unwrap();
    assert_eq!(pawn_legal_moves(SquareCoords(4, 4), &board).len(), 1);
    assert_eq!(
        pawn_legal_moves(SquareCoords(4, 4), &board)[0],
        Move {
            piece: Some(Piece::Pawn(Color::White)),
            color: Color::White,
            src_square: Some(SquareCoords(4, 4)),
            dst_square: Some(SquareCoords(3, 4)),
            castle: None,
            promotion: None,
            capture: false,
        }
    );

    // diagonal pinned pawn
    board =
        Board::from_fen("rnb1kbnr/ppp1pppp/8/q2p4/4P3/8/1PPP1PPP/RNBQKBNR w KQkq - 0 5").unwrap();
    assert_eq!(pawn_legal_moves(SquareCoords(6, 3), &board).len(), 0);

    // en passant
    board =
        Board::from_fen("rnbqkbnr/1pp1pppp/p7/3pP3/8/8/PPPP1PPP/RNBQKBNR w KQkq d6 0 3").unwrap();
    assert_eq!(pawn_legal_moves(SquareCoords(3, 4), &board).len(), 2);

    // blocking pawn (one square move)
    board = Board::from_fen("rnbqkbnr/1ppppppp/8/p7/P7/8/1PPPPPPP/RNBQKBNR w KQkq - 0 2").unwrap();
    assert_eq!(pawn_legal_moves(SquareCoords(4, 0), &board).len(), 0);

    // blocking pawn (two square move)
    board = Board::from_fen("rnbqkbnr/1ppppppp/p7/8/P7/8/1PPPPPPP/RNBQKBNR w KQkq - 0 2").unwrap();
    assert_eq!(pawn_legal_moves(SquareCoords(4, 0), &board).len(), 1);
    assert_eq!(
        pawn_legal_moves(SquareCoords(4, 0), &board)[0],
        Move {
            piece: Some(Piece::Pawn(Color::White)),
            color: Color::White,
            src_square: Some(SquareCoords(4, 0)),
            dst_square: Some(SquareCoords(3, 0)),
            castle: None,
            promotion: None,
            capture: false,
        }
    );

    // capture
    board =
        Board::from_fen("rn2kbnr/pppqp1pp/8/3p1p2/4P3/5N2/PPPP1PPP/RNBQK2R w KQkq - 0 5").unwrap();
    assert_eq!(pawn_legal_moves(SquareCoords(4, 4), &board).len(), 3);

    // promotion
    board = Board::from_fen("r2qkbnr/pPppppp1/b1n4p/8/8/8/PP1PPPPP/RNBQKBNR w KQkq - 0 5").unwrap();
    assert_eq!(pawn_legal_moves(SquareCoords(1, 1), &board).len(), 8);

    // promotion pinned
    board = Board::from_fen("r2qkbnr/pPppppp1/b1n4p/8/8/8/PP1PPPPP/RNBQKBNR w KQkq - 0 5").unwrap();
    assert_eq!(pawn_legal_moves(SquareCoords(1, 3), &board).len(), 4);
}

#[test]
fn movegen_test_piece_legal_moves() {
    // king can't move
    let mut board = Board::from_fen("R7/2p5/8/2k3p1/1r6/K1P5/PP6/8 w - - 6 43").unwrap();
    assert_eq!(
        piece_legal_moves(&Piece::King(Color::White), SquareCoords(5, 0), &board).len(),
        0
    );

    // king under check
    board = Board::from_fen("5R2/2p5/8/2k3p1/r7/K1P5/PP6/8 w - - 8 44").unwrap();
    assert_eq!(
        piece_legal_moves(&Piece::King(Color::White), SquareCoords(5, 0), &board).len(),
        2
    );

    // pinned piece
    board =
        Board::from_fen("rnbqk1nr/1pppbppp/p7/8/4QB2/P7/1PP1PPPP/RN2KBNR b KQkq - 3 5").unwrap();
    assert_eq!(
        piece_legal_moves(&Piece::Bishop(Color::Black), SquareCoords(1, 4), &board).len(),
        0
    );
}

#[test]
fn test_castle_legal_moves() {
    // white kingside and queenside
    let mut board =
        Board::from_fen("r3k2r/ppp2ppp/2n1b3/3p4/3P4/2N1B3/PPP2PPP/R3K2R w KQkq - 0 1").unwrap();
    assert_eq!(castle_legal_moves(&board).len(), 2);
    assert_eq!(castle_legal_moves(&board)[0].castle, Some(CastleKind::Kingside));
    assert_eq!(castle_legal_moves(&board)[1].castle, Some(CastleKind::Queenside));

    // black kingside
    board =
        Board::from_fen("r3k2r/ppp2ppp/2n1b3/3p2B1/3P4/2N5/PPP2PPP/R3K2R b KQkq - 1 1").unwrap();
    assert_eq!(castle_legal_moves(&board).len(), 1);
    assert_eq!(castle_legal_moves(&board)[0].castle, Some(CastleKind::Kingside));

    // white kingside
    board =
        Board::from_fen("r1bqk1nr/pppp1ppp/2n5/2b1p3/2B1P3/5N2/PPPP1PPP/RNBQK2R w KQkq - 4 4")
            .unwrap();
    assert_eq!(castle_legal_moves(&board).len(), 1);
    assert_eq!(castle_legal_moves(&board)[0].castle, Some(CastleKind::Kingside));

    // black queenside
    board =
        Board::from_fen("r3kbnr/ppp1pppp/2nq4/3p4/3P2b1/P4N2/1PP1PPPP/RNBQKB1R b KQkq - 0 5")
            .unwrap();
    assert_eq!(castle_legal_moves(&board).len(), 1);
    assert_eq!(castle_legal_moves(&board)[0].castle, Some(CastleKind::Queenside));
}

#[test]
fn test_move_from_uci_notation() {
    // normal pawn move
    let board = Board::new();
    let mv = Move::from_uci("e2e4", &board);
    assert_eq!(
        mv,
        Some(Move {
            piece: Some(Piece::Pawn(Color::White)),
            color: Color::White,
            src_square: Some(SquareCoords(6, 4)),
            dst_square: Some(SquareCoords(4, 4)),
            promotion: None,
            castle: None,
            capture: false,
        })
    );

    // white kingside castle
    let board =
        Board::from_fen("r1bqk1nr/pppp1ppp/2n5/2b1p3/2B1P3/5N2/PPPP1PPP/RNBQK2R w KQkq - 4 4")
            .unwrap();
    let mv = Move::from_uci("e1g1", &board);
    assert_eq!(
        mv,
        Some(Move {
            piece: None,
            color: Color::White,
            src_square: None,
            dst_square: None,
            promotion: None,
            castle: Some(CastleKind::Kingside),
            capture: false,
        })
    );

    // promotion
    let board =
        Board::from_fen("r1bq2nr/1pp1Pppp/p1np2k1/2b5/2B5/3N4/PPPP1PPP/RNBQK2R w KQ - 0 9")
            .unwrap();
    let mv = Move::from_uci("e7e8q", &board);
    assert_eq!(
        mv,
        Some(Move {
            piece: Some(Piece::Pawn(Color::White)),
            color: Color::White,
            src_square: Some(SquareCoords(1, 4)),
            dst_square: Some(SquareCoords(0, 4)),
            promotion: Some(Piece::Queen(Color::White)),
            castle: None,
            capture: false,
        })
    );
}
