//! Core rule engine for a two-player chess variant: board state, legal-move
//! enumeration per piece (castling, en passant, double advance, promotion and
//! the rook "push" rule), turn management, and snapshot-based undo.

pub mod board;
pub mod laws;
pub mod logic;
pub mod piece;
pub mod pos;

pub use board::Board;
pub use piece::BChange;
pub use piece::Piece;
pub use piece::PieceType;
pub use piece::Side;
pub use pos::BoardPos;
pub use pos::ConstructionError;
pub use pos::Dir;
pub use pos::BOARD_HEIGHT;
pub use pos::BOARD_WIDTH;
