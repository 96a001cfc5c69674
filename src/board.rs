use vstd::prelude::*;

use crate::game::{GameState, Player};
use crate::pieces::{make_square, PieceData, PieceType, Square};

verus! {

/// A chess board: 64 squares, the ply counter, the game state, and where
/// each side's king stands.
pub struct Board {
    pub turn: i32,
    pub state: GameState,
    pub squares: [Square; 64],
    pub white_king: (i8, i8),
    pub black_king: (i8, i8),
}

/// The mathematical model of a board.
pub struct BoardView {
    pub squares: Seq<Square>,
    pub turn: int,
    pub state: GameState,
    pub white_king: (int, int),
    pub black_king: (int, int),
}

impl View for Board {
    type V = BoardView;

    open spec fn view(&self) -> BoardView {
        BoardView {
            squares: self.squares@,
            turn: self.turn as int,
            state: self.state,
            white_king: (self.white_king.0 as int, self.white_king.1 as int),
            black_king: (self.black_king.0 as int, self.black_king.1 as int),
        }
    }
}

pub open spec fn on_board(f: int, r: int) -> bool {
    0 <= f < 8 && 0 <= r < 8
}

/// Squares are stored rank 8 first, each rank from file a to file h.
pub open spec fn index_of(f: int, r: int) -> int {
    8 * (7 - r) + f
}

pub open spec fn square_at(s: Seq<Square>, f: int, r: int) -> Square {
    s[index_of(f, r)]
}

/// A piece on a square knows that square as its own.
pub open spec fn sits_at(sq: Square, f: int, r: int) -> bool {
    match sq.occupant() {
        Some(d) => d.file == f && d.rank == r,
        None => true,
    }
}

/// (f1, r1) comes before (f2, r2) when the board is scanned file by file.
pub open spec fn scanned_before(a: (i8, i8), b: (i8, i8)) -> bool {
    a.0 < b.0 || (a.0 == b.0 && a.1 < b.1)
}

/// A piece of `player` that has never moved, standing on (f, r).
pub open spec fn fresh_piece(player: Player, f: int, r: int) -> PieceData {
    PieceData { player, file: f as i8, rank: r as i8, last_move: None }
}

/// The pieces of the back rank, from file a to file h.
pub open spec fn back_rank_kind(f: int) -> PieceType {
    if f == 0 || f == 7 {
        PieceType::Rook
    } else if f == 1 || f == 6 {
        PieceType::Knight
    } else if f == 2 || f == 5 {
        PieceType::Bishop
    } else if f == 3 {
        PieceType::Queen
    } else {
        PieceType::King
    }
}

/// The contents of (f, r) in the standard starting position.
pub open spec fn home_square(f: int, r: int) -> Square {
    if r == 0 {
        make_square(back_rank_kind(f), fresh_piece(Player::White, f, r))
    } else if r == 1 {
        make_square(PieceType::Pawn, fresh_piece(Player::White, f, r))
    } else if r == 6 {
        make_square(PieceType::Pawn, fresh_piece(Player::Black, f, r))
    } else if r == 7 {
        make_square(back_rank_kind(f), fresh_piece(Player::Black, f, r))
    } else {
        make_square(PieceType::Empty, fresh_piece(Player::White, f, r))
    }
}

/// Writing one square of the board changes what is seen there and nowhere else.
pub proof fn lemma_square_at_update(s: Seq<Square>, f: int, r: int, x: Square)
    requires
        s.len() == 64,
        on_board(f, r),
    ensures
        forall|ff: int, rr: int|
            on_board(ff, rr) ==> #[trigger] square_at(s.update(index_of(f, r), x), ff, rr) == if ff
                == f && rr == r {
                x
            } else {
                square_at(s, ff, rr)
            },
{
}

impl BoardView {
    pub open spec fn king_of(self, p: Player) -> (int, int) {
        match p {
            Player::White => self.white_king,
            Player::Black => self.black_king,
        }
    }

    /// Well-formed: 64 squares, a ply count that can be held, kings cached
    /// on the board, and every piece standing where it believes it stands.
    pub open spec fn wf(self) -> bool {
        &&& self.squares.len() == 64
        &&& 0 <= self.turn <= i32::MAX
        &&& on_board(self.white_king.0, self.white_king.1)
        &&& on_board(self.black_king.0, self.black_king.1)
        &&& forall|f: int, r: int|
            on_board(f, r) ==> sits_at(#[trigger] square_at(self.squares, f, r), f, r)
    }
}

impl Board {
    pub open spec fn wf(&self) -> bool {
        self@.wf()
    }
}

/// Relies on array_init::array_init: element `i` of the array it builds is
/// what the initializer returns for `i`.
#[verifier::external_body]
fn empty_squares() -> (r: [Square; 64])
    ensures
        forall|i: int| 0 <= i < 64 ==> (#[trigger] r@[i]).is_vacant(),
{
    array_init::array_init(|_| Square::vacant())
}

/// The index of (file, rank) among the 64 stored squares.
pub fn convert_position_1d(file: i8, rank: i8) -> (r: usize)
    requires
        on_board(file as int, rank as int),
    ensures
        r as int == index_of(file as int, rank as int),
        r < 64,
{
    (8 * (7 - rank) + file) as usize
}

/// A new piece of `piece_type` for `player` on (file, rank), with no move
/// recorded; `PieceType::Empty` gives an empty square.
pub fn new_boxed_piece(player: Player, piece_type: PieceType, file: i8, rank: i8) -> (r: Square)
    ensures
        r == make_square(piece_type, PieceData { player, file, rank, last_move: None }),
{
    let data = PieceData { player, file, rank, last_move: None };
    match piece_type {
        PieceType::Empty => Square::vacant(),
        PieceType::King => Square::King(crate::pieces::king::King::new(data)),
        PieceType::Queen => Square::Queen(crate::pieces::queen::Queen::new(data)),
        PieceType::Rook => Square::Rook(crate::pieces::rook::Rook::new(data)),
        PieceType::Bishop => Square::Bishop(crate::pieces::bishop::Bishop::new(data)),
        PieceType::Knight => Square::Knight(crate::pieces::knight::Knight::new(data)),
        PieceType::Pawn => Square::Pawn(crate::pieces::pawn::Pawn::new(data)),
    }
}

impl Board {
    /// An empty board: no pieces, ply 0, White to play.
    pub fn new() -> (r: Board)
        ensures
            r.wf(),
            r.turn == 0,
            r.state == GameState::Playing(Player::White),
            forall|f: int, rk: int| on_board(f, rk) ==> (#[trigger] square_at(r@.squares, f, rk)).is_vacant(),
    {
        let b = Board {
            turn: 0,
            state: GameState::Playing(Player::White),
            squares: empty_squares(),
            white_king: (0, 0),
            black_king: (0, 0),
        };
        assert forall|f: int, rk: int| on_board(f, rk) implies (#[trigger] square_at(b@.squares, f, rk)).is_vacant() by {
            assert(b.squares@[index_of(f, rk)].is_vacant());
        }
        b
    }

    /// A full copy of the board, move records included.
    pub fn clone(&self) -> (r: Board)
        ensures
            r == *self,
            r@ == self@,
    {
        Board {
            turn: self.turn,
            state: self.state,
            squares: self.squares,
            white_king: self.white_king,
            black_king: self.black_king,
        }
    }

    pub fn get_turn(&self) -> (r: i32)
        ensures
            r == self.turn,
    {
        self.turn
    }

    pub fn get_state(&self) -> (r: &GameState)
        ensures
            *r == self.state,
    {
        &self.state
    }

    pub fn set_state(&mut self, state: GameState)
        ensures
            final(self)@ == (BoardView { state, ..old(self)@ }),
            *final(self) == (Board { state, ..*old(self) }),
    {
        self.state = state;
    }

    /// The contents of (file, rank).
    pub fn square(&self, file: i8, rank: i8) -> (r: Square)
        requires
            self.wf(),
            on_board(file as int, rank as int),
        ensures
            r == square_at(self@.squares, file as int, rank as int),
            sits_at(r, file as int, rank as int),
            r.placed(),
    {
        let r = self.squares[convert_position_1d(file, rank)];
        assert(sits_at(square_at(self@.squares, file as int, rank as int), file as int, rank as int));
        r
    }

    /// Sets up the standard starting position, with both kings cached on
    /// their home squares; the ply counter and the game state are kept.
    pub fn reset_board(&mut self)
        ensures
            forall|f: int, r: int| on_board(f, r) ==> #[trigger] square_at(final(self)@.squares, f, r) == home_square(f, r),
            final(self).white_king == (4i8, 0i8),
            final(self).black_king == (4i8, 7i8),
            final(self).turn == old(self).turn,
            final(self).state == old(self).state,
            old(self).turn >= 0 ==> final(self).wf(),
    {
        let mut f: i8 = 0;
        while f < 8
            invariant
                0 <= f <= 8,
                self.turn == old(self).turn,
                self.state == old(self).state,
                self.squares@.len() == 64,
                forall|ff: int, rr: int| 0 <= ff < f && 0 <= rr < 8 ==> #[trigger] square_at(self@.squares, ff, rr) == home_square(ff, rr),
            decreases 8 - f,
        {
            let mut r: i8 = 0;
            while r < 8
                invariant
                    0 <= f < 8,
                    0 <= r <= 8,
                    self.turn == old(self).turn,
                    self.state == old(self).state,
                    self.squares@.len() == 64,
                    forall|ff: int, rr: int| 0 <= ff < 8 && 0 <= rr < 8 && (ff < f || (ff == f && rr < r)) ==> #[trigger] square_at(self@.squares, ff, rr) == home_square(ff, rr),
                decreases 8 - r,
            {
                let sq = if r == 0 {
                    new_boxed_piece(Player::White, home_rank_kind(f), f, r)
                } else if r == 1 {
                    new_boxed_piece(Player::White, PieceType::Pawn, f, r)
                } else if r == 6 {
                    new_boxed_piece(Player::Black, PieceType::Pawn, f, r)
                } else if r == 7 {
                    new_boxed_piece(Player::Black, home_rank_kind(f), f, r)
                } else {
                    new_boxed_piece(Player::White, PieceType::Empty, f, r)
                };
                proof {
                    lemma_square_at_update(self@.squares, f as int, r as int, sq);
                }
                self.squares[convert_position_1d(f, r)] = sq;
                r = r + 1;
            }
            f = f + 1;
        }
        let ghost placed = self@.squares;
        self.white_king = (4, 0);
        self.black_king = (4, 7);
        assert(self@.squares == placed);
    }

    /// Puts a new piece on (file, rank), whatever stood there, with no move
    /// recorded. A king placed this way becomes its side's cached king.
    pub fn place_piece(&mut self, player: Player, piece_type: PieceType, file: i8, rank: i8)
        requires
            on_board(file as int, rank as int),
        ensures
            final(self)@ == (BoardView {
                squares: old(self)@.squares.update(
                    index_of(file as int, rank as int),
                    make_square(piece_type, PieceData { player, file, rank, last_move: None }),
                ),
                white_king: if piece_type == PieceType::King && player == Player::White {
                    (file as int, rank as int)
                } else {
                    old(self)@.white_king
                },
                black_king: if piece_type == PieceType::King && player == Player::Black {
                    (file as int, rank as int)
                } else {
                    old(self)@.black_king
                },
                ..old(self)@
            }),
            old(self).wf() ==> final(self).wf(),
    {
        let index = convert_position_1d(file, rank);
        let piece = new_boxed_piece(player, piece_type, file, rank);
        proof {
            lemma_square_at_update(self@.squares, file as int, rank as int, piece);
        }
        self.squares[index] = piece;
        if piece_type == PieceType::King {
            match player {
                Player::White => self.white_king = (file, rank),
                Player::Black => self.black_king = (file, rank),
            }
        }
    }

    /// Empties (file, rank).
    pub fn clear_square(&mut self, file: i8, rank: i8)
        requires
            on_board(file as int, rank as int),
        ensures
            final(self)@ == (BoardView {
                squares: old(self)@.squares.update(
                    index_of(file as int, rank as int),
                    Square::Empty(crate::pieces::empty::Empty {  }),
                ),
                ..old(self)@
            }),
            old(self).wf() ==> final(self).wf(),
    {
        let index = convert_position_1d(file, rank);
        let empty = Square::vacant();
        proof {
            lemma_square_at_update(self@.squares, file as int, rank as int, empty);
        }
        self.squares[index] = empty;
    }
}

/// The back-rank piece on `file`.
fn home_rank_kind(file: i8) -> (r: PieceType)
    ensures
        r == back_rank_kind(file as int),
{
    if file == 0 || file == 7 {
        PieceType::Rook
    } else if file == 1 || file == 6 {
        PieceType::Knight
    } else if file == 2 || file == 5 {
        PieceType::Bishop
    } else if file == 3 {
        PieceType::Queen
    } else {
        PieceType::King
    }
}

} // verus!
