//! A chess rules engine: board positions, attack detection, legal move
//! generation, move application and the FEN / UCI / SAN notations.

pub mod text;
pub mod color;
pub mod square;
pub mod piece;
pub mod castle;
pub mod board;
pub mod chess_move;
pub mod rules;
pub mod movegen;
pub mod play;
pub mod status;
pub mod fen;
pub mod fen_parse;
pub mod san;
pub mod notation;
pub mod round_trip;
pub mod laws;

pub use board::{Board, CastlingRights};
pub use castle::{CastleKind, CastleRights};
pub use chess_move::Move;
pub use color::Color;
pub use fen_parse::{FenParseError, parse_fen};
pub use movegen::{castle, castle_legal_moves, generate_legal_moves, pawn_legal_moves, piece_legal_moves};
pub use notation::{SanError, pawn_capture, pawn_move, piece_move};
pub use piece::{Piece, PieceKind};
pub use square::{SquareCoords, algebraic_to_coordinates, coordinates_to_algebraic};
