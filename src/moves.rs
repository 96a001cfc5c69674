use vstd::prelude::*;

use crate::pieces::PieceType;

verus! {

/// What a committed move led to.
#[derive(Debug, Clone, Copy, PartialEq, Eq, Structural)]
pub enum MoveOutcome {
    Continue,
    Checkmate,
    Draw,
}

/// Why a move was refused; a refused move leaves the board as it was.
#[derive(Debug, Clone, Copy, PartialEq, Eq, Structural)]
pub enum MoveError {
    InvalidNotation,
    InvalidMove,
    MoveIntoCheck,
    AmbiguousMove,
    InvalidCapture,
    InvalidCheck,
    InvalidPromotion,
}

/// What move text claims about the move's effect on the opposing king.
#[derive(Debug, Clone, Copy, PartialEq, Eq, Structural)]
pub enum CheckMark {
    Unmarked,
    Check,
    Mate,
}

/// A move of one piece from a source square to a destination square.
#[derive(Debug, Clone, Copy, PartialEq, Eq, Structural)]
pub struct PieceMove {
    pub piece_type: PieceType,
    pub src_file: i8,
    pub src_rank: i8,
    pub dst_file: i8,
    pub dst_rank: i8,
}

} // verus!
