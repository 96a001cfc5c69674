use vstd::prelude::*;

use crate::board::Board;
use crate::game::Player;
use crate::moves::PieceMove;
use crate::pieces::{PieceType, Piece, Square};

verus! {

/// The occupant of an empty square: it belongs to nobody and goes nowhere.
#[derive(Debug, Clone, Copy)]
pub struct Empty {}

impl Piece for Empty {
    open spec fn as_square(&self) -> Square {
        Square::Empty(*self)
    }

    fn get_player(&self) -> (r: Option<Player>) {
        None
    }

    fn get_type(&self) -> (r: PieceType) {
        PieceType::Empty
    }

    fn can_attack(&self, board: &Board, file: i8, rank: i8) -> (r: bool) {
        false
    }

    fn can_move(&self, board: &Board, file: i8, rank: i8) -> (r: bool) {
        false
    }

    fn get_last_move(&self) -> (r: Option<(i32, PieceMove)>) {
        None
    }

    fn set_last_move(&mut self, turn: i32, mv: PieceMove) {
    }
}

} // verus!
