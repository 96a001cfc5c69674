use vstd::prelude::*;

use crate::board::Board;
use crate::game::Player;
use crate::moves::PieceMove;
use crate::pieces::{slide_attack, PieceData, PieceType, Piece, Square};

verus! {

#[derive(Debug, Clone, Copy)]
pub struct Bishop {
    pub data: PieceData,
}

impl Bishop {
    pub fn new(data: PieceData) -> (r: Self)
        ensures
            r.data == data,
    {
        Bishop { data }
    }
}

impl Piece for Bishop {
    open spec fn as_square(&self) -> Square {
        Square::Bishop(*self)
    }

    fn get_player(&self) -> (r: Option<Player>) {
        Some(self.data.player)
    }

    fn get_type(&self) -> (r: PieceType) {
        PieceType::Bishop
    }

    fn can_attack(&self, board: &Board, file: i8, rank: i8) -> (r: bool) {
        slide_attack(board, &self.data, file, rank, true, false)
    }

    fn can_move(&self, board: &Board, file: i8, rank: i8) -> (r: bool) {
        self.can_attack(board, file, rank)
    }

    fn get_last_move(&self) -> (r: Option<(i32, PieceMove)>) {
        self.data.last_move
    }

    fn set_last_move(&mut self, turn: i32, mv: PieceMove) {
        self.data.last_move = Some((turn, mv));
    }
}

} // verus!
