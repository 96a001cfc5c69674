//! A chess rules engine: board model, per-piece capabilities, move legality
//! with check and checkmate resolution, castling, en passant, and a resolver
//! for algebraic move text.
pub mod board;
pub mod engine;
pub mod game;
pub mod laws;
pub mod moves;
pub mod notation;
pub mod pieces;
