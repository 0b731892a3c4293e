//! Position representation and move execution for a bitboard chess engine.
//!
//! Squares are numbered `0..64` from a1 (0) to h8 (63), rank by rank.
pub mod consts;
pub mod attacks;
pub mod zobrist;
pub mod eval;
pub mod position;
pub mod moves;
pub mod setup;
pub mod movegen;
pub mod uci;
pub mod consistency;
