use vstd::prelude::*;

use crate::board::Board;
use crate::game::Player;
use crate::moves::PieceMove;
use crate::pieces::{abs_i8, held_by_own_side, PieceData, PieceType, Piece, Square};

verus! {

#[derive(Debug, Clone, Copy)]
pub struct Knight {
    pub data: PieceData,
}

impl Knight {
    pub fn new(data: PieceData) -> (r: Self)
        ensures
            r.data == data,
    {
        Knight { data }
    }
}

impl Piece for Knight {
    open spec fn as_square(&self) -> Square {
        Square::Knight(*self)
    }

    fn get_player(&self) -> (r: Option<Player>) {
        Some(self.data.player)
    }

    fn get_type(&self) -> (r: PieceType) {
        PieceType::Knight
    }

    fn can_attack(&self, board: &Board, file: i8, rank: i8) -> (r: bool) {
        let dy = abs_i8(rank - self.data.rank);
        let dx = abs_i8(file - self.data.file);
        (dy == 2 && dx == 1) || (dy == 1 && dx == 2)
    }

    fn can_move(&self, board: &Board, file: i8, rank: i8) -> (r: bool) {
        if held_by_own_side(board, &self.data, file, rank) {
            return false;
        }
        self.can_attack(board, file, rank)
    }

    fn get_last_move(&self) -> (r: Option<(i32, PieceMove)>) {
        self.data.last_move
    }

    fn set_last_move(&mut self, turn: i32, mv: PieceMove) {
        self.data.last_move = Some((turn, mv));
    }
}

} // verus!
