use vstd::prelude::*;

use crate::board::Board;
use crate::game::Player;
use crate::moves::PieceMove;
use crate::pieces::{abs_i8, held_by_own_side, PieceData, PieceType, Piece, Square};

verus! {

#[derive(Debug, Clone, Copy)]
pub struct King {
    pub data: PieceData,
}

impl King {
    pub fn new(data: PieceData) -> (r: Self)
        ensures
            r.data == data,
    {
        King { data }
    }
}

impl Piece for King {
    open spec fn as_square(&self) -> Square {
        Square::King(*self)
    }

    fn get_player(&self) -> (r: Option<Player>) {
        Some(self.data.player)
    }

    fn get_type(&self) -> (r: PieceType) {
        PieceType::King
    }

    fn can_attack(&self, board: &Board, file: i8, rank: i8) -> (r: bool) {
        let dy = abs_i8(rank - self.data.rank);
        let dx = abs_i8(file - self.data.file);
        dy <= 1 && dx <= 1 && !(dx == 0 && dy == 0)
    }

    fn can_move(&self, board: &Board, file: i8, rank: i8) -> (r: bool) {
        if held_by_own_side(board, &self.data, file, rank) {
            return false;
        }
        if !self.can_attack(board, file, rank) {
            return false;
        }
        let mv = PieceMove {
            piece_type: PieceType::King,
            src_file: self.data.file,
            src_rank: self.data.rank,
            dst_file: file,
            dst_rank: rank,
        };
        board.king_safe_after(self.data.player, mv)
    }

    fn get_last_move(&self) -> (r: Option<(i32, PieceMove)>) {
        self.data.last_move
    }

    fn set_last_move(&mut self, turn: i32, mv: PieceMove) {
        self.data.last_move = Some((turn, mv));
    }
}

} // verus!
