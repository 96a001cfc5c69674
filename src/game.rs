use vstd::prelude::*;

use crate::moves::MoveOutcome;

verus! {

/// The two sides of a game.
#[derive(Debug, Clone, Copy, PartialEq, Eq, Structural)]
pub enum Player {
    White,
    Black,
}

/// Where a game stands: `Playing` is the only state from which moves are made.
#[derive(Debug, Clone, Copy, PartialEq, Eq, Structural)]
pub enum GameState {
    Playing(Player),
    Won(Player),
    Draw,
}

/// The side opposing `p`.
pub open spec fn opponent(p: Player) -> Player {
    match p {
        Player::White => Player::Black,
        Player::Black => Player::White,
    }
}

pub fn other_player(p: Player) -> (r: Player)
    ensures
        r == opponent(p),
        r != p,
{
    match p {
        Player::White => Player::Black,
        Player::Black => Player::White,
    }
}

impl GameState {
    pub open spec fn is_terminal(self) -> bool {
        !(self is Playing)
    }

    /// The state after the side to move resigns: its opponent wins. A
    /// finished game stays as it is.
    pub fn after_resignation(self) -> (r: GameState)
        ensures
            r == match self {
                GameState::Playing(p) => GameState::Won(opponent(p)),
                _ => self,
            },
    {
        match self {
            GameState::Playing(p) => GameState::Won(other_player(p)),
            _ => self,
        }
    }

    /// The state after both sides agree to a draw. A finished game stays as it is.
    pub fn after_draw_agreement(self) -> (r: GameState)
        ensures
            r == match self {
                GameState::Playing(_) => GameState::Draw,
                _ => self,
            },
    {
        match self {
            GameState::Playing(_) => GameState::Draw,
            _ => self,
        }
    }
}

/// The state after `mover` completes a move with `outcome`.
pub open spec fn state_after(mover: Player, outcome: MoveOutcome) -> GameState {
    match outcome {
        MoveOutcome::Continue => GameState::Playing(opponent(mover)),
        MoveOutcome::Checkmate => GameState::Won(mover),
        MoveOutcome::Draw => GameState::Draw,
    }
}

/// The state after `mover` completes a move with `outcome`: the opponent
/// plays on, the mover wins by checkmate, or the game is drawn.
pub fn state_after_move(mover: Player, outcome: MoveOutcome) -> (r: GameState)
    ensures
        r == state_after(mover, outcome),
{
    match outcome {
        MoveOutcome::Continue => GameState::Playing(other_player(mover)),
        MoveOutcome::Checkmate => GameState::Won(mover),
        MoveOutcome::Draw => GameState::Draw,
    }
}

} // verus!
