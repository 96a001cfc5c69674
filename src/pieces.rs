use vstd::prelude::*;

use crate::board::{on_board, square_at, Board, BoardView};
use crate::engine::{apply, in_check};
use crate::game::{opponent, Player};
use crate::moves::{MoveError, PieceMove};

pub mod bishop;
pub mod empty;
pub mod king;
pub mod knight;
pub mod pawn;
pub mod queen;
pub mod rook;

use bishop::Bishop;
use empty::Empty;
use king::King;
use knight::Knight;
use pawn::Pawn;
use queen::Queen;
use rook::Rook;

verus! {

/// The kinds of piece, with `Empty` for a square that holds none.
#[derive(Debug, Clone, Copy, PartialEq, Eq, Structural)]
pub enum PieceType {
    Empty,
    King,
    Queen,
    Rook,
    Bishop,
    Knight,
    Pawn,
}

/// The kind named by a piece letter of move text; any other character names a pawn.
pub open spec fn letter_kind(c: char) -> PieceType {
    if c == 'K' {
        PieceType::King
    } else if c == 'Q' {
        PieceType::Queen
    } else if c == 'R' {
        PieceType::Rook
    } else if c == 'B' {
        PieceType::Bishop
    } else if c == 'N' {
        PieceType::Knight
    } else {
        PieceType::Pawn
    }
}

impl PieceType {
    pub fn from_char(c: char) -> (r: Result<PieceType, MoveError>)
        ensures
            r == Ok::<PieceType, MoveError>(letter_kind(c)),
    {
        match c {
            'K' => Ok(PieceType::King),
            'Q' => Ok(PieceType::Queen),
            'R' => Ok(PieceType::Rook),
            'B' => Ok(PieceType::Bishop),
            'N' => Ok(PieceType::Knight),
            _ => Ok(PieceType::Pawn),
        }
    }
}

/// What every piece carries: its owner, its square, and the last move that
/// brought it there (as the ply it was made on and the move itself).
#[derive(Debug, Clone, Copy)]
pub struct PieceData {
    pub player: Player,
    pub file: i8,
    pub rank: i8,
    pub last_move: Option<(i32, PieceMove)>,
}

/// The contents of one square: empty, or one piece of a given kind.
#[derive(Debug, Clone, Copy)]
pub enum Square {
    Empty(Empty),
    King(King),
    Queen(Queen),
    Rook(Rook),
    Bishop(Bishop),
    Knight(Knight),
    Pawn(Pawn),
}

/// The square holding a piece of `kind` with `data`; `PieceType::Empty` gives an empty square.
pub open spec fn make_square(kind: PieceType, data: PieceData) -> Square {
    match kind {
        PieceType::Empty => Square::Empty(Empty {  }),
        PieceType::King => Square::King(King { data }),
        PieceType::Queen => Square::Queen(Queen { data }),
        PieceType::Rook => Square::Rook(Rook { data }),
        PieceType::Bishop => Square::Bishop(Bishop { data }),
        PieceType::Knight => Square::Knight(Knight { data }),
        PieceType::Pawn => Square::Pawn(Pawn { data }),
    }
}

impl Square {
    pub open spec fn kind(self) -> PieceType {
        match self {
            Square::Empty(_) => PieceType::Empty,
            Square::King(_) => PieceType::King,
            Square::Queen(_) => PieceType::Queen,
            Square::Rook(_) => PieceType::Rook,
            Square::Bishop(_) => PieceType::Bishop,
            Square::Knight(_) => PieceType::Knight,
            Square::Pawn(_) => PieceType::Pawn,
        }
    }

    pub open spec fn occupant(self) -> Option<PieceData> {
        match self {
            Square::Empty(_) => None,
            Square::King(p) => Some(p.data),
            Square::Queen(p) => Some(p.data),
            Square::Rook(p) => Some(p.data),
            Square::Bishop(p) => Some(p.data),
            Square::Knight(p) => Some(p.data),
            Square::Pawn(p) => Some(p.data),
        }
    }

    pub open spec fn owner(self) -> Option<Player> {
        match self.occupant() {
            Some(d) => Some(d.player),
            None => None,
        }
    }

    pub open spec fn is_vacant(self) -> bool {
        self is Empty
    }

    pub open spec fn last_move(self) -> Option<(i32, PieceMove)> {
        match self.occupant() {
            Some(d) => d.last_move,
            None => None,
        }
    }

    /// The piece's own square lies on the board.
    pub open spec fn placed(self) -> bool {
        match self.occupant() {
            Some(d) => on_board(d.file as int, d.rank as int),
            None => true,
        }
    }

    /// The same square with its piece's last move recorded as `(turn, mv)`.
    pub open spec fn stamped(self, turn: i32, mv: PieceMove) -> Square {
        match self.occupant() {
            Some(d) => make_square(self.kind(), PieceData { last_move: Some((turn, mv)), ..d }),
            None => self,
        }
    }

    /// An empty square.
    pub fn vacant() -> (r: Square)
        ensures
            r.is_vacant(),
    {
        Square::Empty(Empty {  })
    }
}

pub open spec fn abs(x: int) -> int {
    if x < 0 {
        -x
    } else {
        x
    }
}

/// One step in any direction, the king's reach.
pub open spec fn king_reach(d: PieceData, f: int, r: int) -> bool {
    abs(f - d.file) <= 1 && abs(r - d.rank) <= 1 && !(f == d.file && r == d.rank)
}

/// The knight's jump: two squares one way and one the other.
pub open spec fn knight_reach(d: PieceData, f: int, r: int) -> bool {
    let dx = abs(f - d.file);
    let dy = abs(r - d.rank);
    (dx == 1 && dy == 2) || (dx == 2 && dy == 1)
}

/// The rank direction in which a side's pawns advance.
pub open spec fn forward(p: Player) -> int {
    match p {
        Player::White => 1,
        Player::Black => -1,
    }
}

/// How many ranks forward, from `p`'s side, a pawn goes from rank `from` to rank `to`.
pub open spec fn advance(p: Player, from: int, to: int) -> int {
    match p {
        Player::White => to - from,
        Player::Black => from - to,
    }
}

/// A pawn strikes one square diagonally forward.
pub open spec fn pawn_reach(d: PieceData, f: int, r: int) -> bool {
    abs(f - d.file) == 1 && r == d.rank + forward(d.player)
}

/// The coordinate reached after `k` unit steps from `from` toward `to`.
pub open spec fn step_toward(from: int, to: int, k: int) -> int {
    if to > from {
        from + k
    } else if to < from {
        from - k
    } else {
        from
    }
}

/// The number of king steps between two squares.
pub open spec fn distance(sf: int, sr: int, df: int, dr: int) -> int {
    if abs(df - sf) >= abs(dr - sr) {
        abs(df - sf)
    } else {
        abs(dr - sr)
    }
}

pub open spec fn on_diagonal(sf: int, sr: int, df: int, dr: int) -> bool {
    abs(df - sf) == abs(dr - sr)
}

pub open spec fn on_straight(sf: int, sr: int, df: int, dr: int) -> bool {
    df == sf || dr == sr
}

/// The `k`-th square on the way from (sf, sr) to (df, dr).
pub open spec fn ray_square(s: Seq<Square>, sf: int, sr: int, df: int, dr: int, k: int) -> Square {
    square_at(s, step_toward(sf, df, k), step_toward(sr, dr, k))
}

/// Every square strictly between the two ends of a line is empty.
pub open spec fn clear_between(s: Seq<Square>, sf: int, sr: int, df: int, dr: int) -> bool {
    forall|k: int|
        1 <= k < distance(sf, sr, df, dr) ==> (#[trigger] ray_square(s, sf, sr, df, dr, k)).is_vacant()
}

/// A sliding piece reaches (f, r) along an open diagonal or straight line,
/// and no piece of its own side stands there.
pub open spec fn slides_to(
    s: Seq<Square>,
    d: PieceData,
    f: int,
    r: int,
    diagonal: bool,
    straight: bool,
) -> bool {
    square_at(s, f, r).owner() != Some(d.player) && ((diagonal && on_diagonal(
        d.file as int,
        d.rank as int,
        f,
        r,
    )) || (straight && on_straight(d.file as int, d.rank as int, f, r))) && clear_between(
        s,
        d.file as int,
        d.rank as int,
        f,
        r,
    )
}

/// The piece on `sq` attacks (f, r): it could capture there, whatever the
/// turn, and whether or not its own king would then stand in check.
pub open spec fn attacks(s: Seq<Square>, sq: Square, f: int, r: int) -> bool {
    match sq {
        Square::Empty(_) => false,
        Square::King(p) => king_reach(p.data, f, r),
        Square::Knight(p) => knight_reach(p.data, f, r),
        Square::Pawn(p) => pawn_reach(p.data, f, r),
        Square::Bishop(p) => slides_to(s, p.data, f, r, true, false),
        Square::Rook(p) => slides_to(s, p.data, f, r, false, true),
        Square::Queen(p) => slides_to(s, p.data, f, r, true, true),
    }
}

/// The pawn beside a capturing pawn that may be taken en passant: an enemy
/// pawn whose last move, made on the ply just before, advanced it two ranks.
pub open spec fn passed_pawn(v: BoardView, capturer: Player, f: int, r: int) -> bool {
    let e = square_at(v.squares, f, r);
    &&& e is Pawn
    &&& e.owner() == Some(opponent(capturer))
    &&& match e.last_move() {
        Some((t, m)) => t == v.turn - 1 && abs(m.src_rank - m.dst_rank) == 2,
        None => false,
    }
}

/// Where a pawn may go: one step forward onto an empty square, two from a
/// pawn that has not moved over an empty square, or diagonally forward onto
/// an enemy piece or en passant.
pub open spec fn pawn_moves_to(v: BoardView, d: PieceData, f: int, r: int) -> bool {
    let target = square_at(v.squares, f, r);
    let advance = advance(d.player, d.rank as int, r);
    if f == d.file {
        target.is_vacant() && (advance == 1 || (advance == 2 && d.last_move is None && square_at(
            v.squares,
            f,
            d.rank + forward(d.player),
        ).is_vacant()))
    } else if pawn_reach(d, f, r) {
        !target.is_vacant() || passed_pawn(v, d.player, f, d.rank as int)
    } else {
        false
    }
}

/// The move of the piece at its own square to (f, r).
pub open spec fn move_of(d: PieceData, kind: PieceType, f: int, r: int) -> PieceMove {
    PieceMove {
        piece_type: kind,
        src_file: d.file,
        src_rank: d.rank,
        dst_file: f as i8,
        dst_rank: r as i8,
    }
}

/// The piece on `sq` may move to (f, r) by its own rules; the king also
/// may not step into check.
pub open spec fn can_move_to(v: BoardView, sq: Square, f: int, r: int) -> bool {
    match sq.occupant() {
        None => false,
        Some(d) => square_at(v.squares, f, r).owner() != Some(d.player) && match sq {
            Square::King(_) => king_reach(d, f, r) && !in_check(
                apply(v, move_of(d, PieceType::King, f, r), None),
                d.player,
            ),
            Square::Pawn(_) => pawn_moves_to(v, d, f, r),
            _ => attacks(v.squares, sq, f, r),
        },
    }
}

/// What each piece can do where it stands on a board.
pub trait Piece {
    /// The square contents that this piece is.
    spec fn as_square(&self) -> Square;

    fn get_player(&self) -> (r: Option<Player>)
        ensures
            r == self.as_square().owner(),
    ;

    fn get_type(&self) -> (r: PieceType)
        ensures
            r == self.as_square().kind(),
    ;

    fn can_attack(&self, board: &Board, file: i8, rank: i8) -> (r: bool)
        requires
            board.wf(),
            on_board(file as int, rank as int),
            self.as_square().placed(),
        ensures
            r == attacks(board@.squares, self.as_square(), file as int, rank as int),
    ;

    fn can_move(&self, board: &Board, file: i8, rank: i8) -> (r: bool)
        requires
            board.wf(),
            on_board(file as int, rank as int),
            self.as_square().placed(),
        ensures
            r == can_move_to(board@, self.as_square(), file as int, rank as int),
    ;

    fn get_last_move(&self) -> (r: Option<(i32, PieceMove)>)
        ensures
            r == self.as_square().last_move(),
    ;

    fn set_last_move(&mut self, turn: i32, mv: PieceMove)
        ensures
            final(self).as_square() == old(self).as_square().stamped(turn, mv),
    ;
}

impl Piece for Square {
    open spec fn as_square(&self) -> Square {
        *self
    }

    fn get_player(&self) -> (r: Option<Player>) {
        match self {
            Square::Empty(p) => p.get_player(),
            Square::King(p) => p.get_player(),
            Square::Queen(p) => p.get_player(),
            Square::Rook(p) => p.get_player(),
            Square::Bishop(p) => p.get_player(),
            Square::Knight(p) => p.get_player(),
            Square::Pawn(p) => p.get_player(),
        }
    }

    fn get_type(&self) -> (r: PieceType) {
        match self {
            Square::Empty(p) => p.get_type(),
            Square::King(p) => p.get_type(),
            Square::Queen(p) => p.get_type(),
            Square::Rook(p) => p.get_type(),
            Square::Bishop(p) => p.get_type(),
            Square::Knight(p) => p.get_type(),
            Square::Pawn(p) => p.get_type(),
        }
    }

    fn can_attack(&self, board: &Board, file: i8, rank: i8) -> (r: bool) {
        match self {
            Square::Empty(p) => p.can_attack(board, file, rank),
            Square::King(p) => p.can_attack(board, file, rank),
            Square::Queen(p) => p.can_attack(board, file, rank),
            Square::Rook(p) => p.can_attack(board, file, rank),
            Square::Bishop(p) => p.can_attack(board, file, rank),
            Square::Knight(p) => p.can_attack(board, file, rank),
            Square::Pawn(p) => p.can_attack(board, file, rank),
        }
    }

    fn can_move(&self, board: &Board, file: i8, rank: i8) -> (r: bool) {
        match self {
            Square::Empty(p) => p.can_move(board, file, rank),
            Square::King(p) => p.can_move(board, file, rank),
            Square::Queen(p) => p.can_move(board, file, rank),
            Square::Rook(p) => p.can_move(board, file, rank),
            Square::Bishop(p) => p.can_move(board, file, rank),
            Square::Knight(p) => p.can_move(board, file, rank),
            Square::Pawn(p) => p.can_move(board, file, rank),
        }
    }

    fn get_last_move(&self) -> (r: Option<(i32, PieceMove)>) {
        match self {
            Square::Empty(p) => p.get_last_move(),
            Square::King(p) => p.get_last_move(),
            Square::Queen(p) => p.get_last_move(),
            Square::Rook(p) => p.get_last_move(),
            Square::Bishop(p) => p.get_last_move(),
            Square::Knight(p) => p.get_last_move(),
            Square::Pawn(p) => p.get_last_move(),
        }
    }

    fn set_last_move(&mut self, turn: i32, mv: PieceMove) {
        match self {
            Square::Empty(p) => p.set_last_move(turn, mv),
            Square::King(p) => p.set_last_move(turn, mv),
            Square::Queen(p) => p.set_last_move(turn, mv),
            Square::Rook(p) => p.set_last_move(turn, mv),
            Square::Bishop(p) => p.set_last_move(turn, mv),
            Square::Knight(p) => p.set_last_move(turn, mv),
            Square::Pawn(p) => p.set_last_move(turn, mv),
        }
    }
}

/// Whether a piece of `d`'s side standing on (file, rank) blocks it from going there.
pub fn held_by_own_side(board: &Board, d: &PieceData, file: i8, rank: i8) -> (r: bool)
    requires
        board.wf(),
        on_board(file as int, rank as int),
    ensures
        r == (square_at(board@.squares, file as int, rank as int).owner() == Some(d.player)),
{
    match board.squares[crate::board::convert_position_1d(file, rank)].get_player() {
        Some(p) => p == d.player,
        None => false,
    }
}

/// Whether every square strictly between two squares on one line is empty.
pub fn path_is_clear(board: &Board, sf: i8, sr: i8, df: i8, dr: i8) -> (r: bool)
    requires
        board.wf(),
        on_board(sf as int, sr as int),
        on_board(df as int, dr as int),
        on_diagonal(sf as int, sr as int, df as int, dr as int) || on_straight(
            sf as int,
            sr as int,
            df as int,
            dr as int,
        ),
    ensures
        r == clear_between(board@.squares, sf as int, sr as int, df as int, dr as int),
{
    let ghost s = board@.squares;
    let n: i8 = if abs_i8(df - sf) >= abs_i8(dr - sr) {
        abs_i8(df - sf)
    } else {
        abs_i8(dr - sr)
    };
    let mut f: i8 = sf;
    let mut r: i8 = sr;
    let mut k: i8 = 0;
    while k + 1 < n
        invariant
            board.wf(),
            s == board@.squares,
            n == distance(sf as int, sr as int, df as int, dr as int),
            0 <= n <= 7,
            on_diagonal(sf as int, sr as int, df as int, dr as int) || on_straight(
                sf as int,
                sr as int,
                df as int,
                dr as int,
            ),
            on_board(sf as int, sr as int),
            on_board(df as int, dr as int),
            0 <= k,
            k <= n,
            f == step_toward(sf as int, df as int, k as int),
            r == step_toward(sr as int, dr as int, k as int),
            forall|j: int| 1 <= j <= k ==> (#[trigger] ray_square(s, sf as int, sr as int, df as int, dr as int, j)).is_vacant(),
        decreases n - k,
    {
        k = k + 1;
        if f < df {
            f = f + 1;
        } else if f > df {
            f = f - 1;
        }
        if r < dr {
            r = r + 1;
        } else if r > dr {
            r = r - 1;
        }
        let occupant = board.squares[crate::board::convert_position_1d(f, r)];
        if !matches!(occupant, Square::Empty(_)) {
            assert(ray_square(s, sf as int, sr as int, df as int, dr as int, k as int) == occupant);
            return false;
        }
    }
    true
}

pub fn abs_i8(x: i8) -> (r: i8)
    requires
        x > i8::MIN,
    ensures
        r == abs(x as int),
{
    if x < 0 {
        -x
    } else {
        x
    }
}

/// Whether the sliding piece `d` reaches (file, rank), along diagonals,
/// straight lines, or both.
pub fn slide_attack(
    board: &Board,
    d: &PieceData,
    file: i8,
    rank: i8,
    diagonal: bool,
    straight: bool,
) -> (r: bool)
    requires
        board.wf(),
        on_board(file as int, rank as int),
        on_board(d.file as int, d.rank as int),
    ensures
        r == slides_to(board@.squares, *d, file as int, rank as int, diagonal, straight),
{
    if held_by_own_side(board, d, file, rank) {
        return false;
    }
    let dx = abs_i8(file - d.file);
    let dy = abs_i8(rank - d.rank);
    if (diagonal && dx == dy) || (straight && (dx == 0 || dy == 0)) {
        path_is_clear(board, d.file, d.rank, file, rank)
    } else {
        false
    }
}

} // verus!
