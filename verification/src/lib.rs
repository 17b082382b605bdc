//! A chess position representation and move-application engine.
//!
//! A [`board::BoardConfig`] holds the full state of a game: twelve piece
//! bitboards, the active color, the en-passant target, castle rights, the
//! half-move clock and full-move number, and an undo log. `apply_move`
//! applies a classified move and records exactly the delta needed to reverse
//! it; `undo` pops that record and restores the prior state bit for bit.

pub mod bitboard;
pub mod board;
pub mod castle;
pub mod fen;
pub mod moves;
pub mod piece;
pub mod square;
mod text;
