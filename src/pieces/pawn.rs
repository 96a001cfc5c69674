use vstd::prelude::*;

use crate::board::{convert_position_1d, Board};
use crate::game::Player;
use crate::moves::PieceMove;
use crate::pieces::{forward, held_by_own_side, PieceData, PieceType, Piece, Square};

verus! {

#[derive(Debug, Clone, Copy)]
pub struct Pawn {
    pub data: PieceData,
}

impl Pawn {
    pub fn new(data: PieceData) -> (r: Self)
        ensures
            r.data == data,
    {
        Pawn { data }
    }

    fn get_direction_coeff(&self) -> (r: i8)
        ensures
            r == forward(self.data.player),
    {
        match self.data.player {
            Player::White => 1,
            Player::Black => -1,
        }
    }
}

impl Piece for Pawn {
    open spec fn as_square(&self) -> Square {
        Square::Pawn(*self)
    }

    fn get_player(&self) -> (r: Option<Player>) {
        Some(self.data.player)
    }

    fn get_type(&self) -> (r: PieceType) {
        PieceType::Pawn
    }

    fn can_attack(&self, board: &Board, file: i8, rank: i8) -> (r: bool) {
        let reach = self.data.rank + self.get_direction_coeff();
        (file == self.data.file - 1 || file == self.data.file + 1) && rank == reach
    }

    fn can_move(&self, board: &Board, file: i8, rank: i8) -> (r: bool) {
        if held_by_own_side(board, &self.data, file, rank) {
            return false;
        }
        let target_is_empty = matches!(board.squares[convert_position_1d(file, rank)], Square::Empty(_));
        if file == self.data.file {
            // a straight advance never captures
            if !target_is_empty {
                return false;
            }
            let advance: i8 = match self.data.player {
                Player::White => rank - self.data.rank,
                Player::Black => self.data.rank - rank,
            };
            if advance == 1 {
                return true;
            }
            if advance == 2 && self.data.last_move.is_none() {
                let middle = self.data.rank + self.get_direction_coeff();
                return matches!(board.squares[convert_position_1d(file, middle)], Square::Empty(_));
            }
            false
        } else if self.can_attack(board, file, rank) {
            if !target_is_empty {
                return true;
            }
            // en passant: the pawn beside, which just advanced two ranks
            match board.squares[convert_position_1d(file, self.data.rank)] {
                Square::Pawn(p) => p.data.player != self.data.player && match p.data.last_move {
                    Some((t, m)) => {
                        let span: i16 = m.src_rank as i16 - m.dst_rank as i16;
                        t as i64 == board.turn as i64 - 1 && (span == 2 || span == -2)
                    },
                    None => false,
                },
                _ => false,
            }
        } else {
            false
        }
    }

    fn get_last_move(&self) -> (r: Option<(i32, PieceMove)>) {
        self.data.last_move
    }

    fn set_last_move(&mut self, turn: i32, mv: PieceMove) {
        self.data.last_move = Some((turn, mv));
    }
}

} // verus!
