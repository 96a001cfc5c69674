use vstd::prelude::*;

use crate::board::{
    convert_position_1d, index_of, lemma_square_at_update, new_boxed_piece, on_board, scanned_before, sits_at,
    square_at, Board, BoardView,
};
use crate::game::{opponent, other_player, state_after, state_after_move, GameState, Player};
use crate::moves::{CheckMark, MoveError, MoveOutcome, PieceMove};
use crate::pieces::empty::Empty;
use crate::pieces::{
    abs_i8, attacks, can_move_to, distance, make_square, on_diagonal, on_straight, passed_pawn, step_toward, Piece,
    PieceData, PieceType, Square,
};

verus! {

broadcast use vstd::seq_lib::lemma_seq_contains_after_push;

/// `mv` is a pawn's diagonal step onto an empty square that takes the
/// passed pawn beside it en passant.
pub open spec fn en_passant_capture(v: BoardView, mv: PieceMove) -> bool {
    let mover = square_at(v.squares, mv.src_file as int, mv.src_rank as int);
    &&& mover is Pawn
    &&& mv.dst_file != mv.src_file
    &&& square_at(v.squares, mv.dst_file as int, mv.dst_rank as int).is_vacant()
    &&& passed_pawn(v, mover->Pawn_0.data.player, mv.dst_file as int, mv.src_rank as int)
}

/// The moving piece as it lands on (f, r): a new piece with no move recorded,
/// of the promoted kind if there is one.
pub open spec fn relocated(mover: Square, f: int, r: int, promotion: Option<PieceType>) -> Square {
    match mover.occupant() {
        None => Square::Empty(Empty {  }),
        Some(d) => make_square(
            match promotion {
                Some(k) => k,
                None => mover.kind(),
            },
            PieceData { player: d.player, file: f as i8, rank: r as i8, last_move: None },
        ),
    }
}

/// The board after the piece on `mv`'s source goes to its destination,
/// taking what stood there (or the pawn passed en passant), with the king
/// cache following a king. Ply, state and move records are not touched.
pub open spec fn apply(v: BoardView, mv: PieceMove, promotion: Option<PieceType>) -> BoardView {
    let src = index_of(mv.src_file as int, mv.src_rank as int);
    let dst = index_of(mv.dst_file as int, mv.dst_rank as int);
    let mover = v.squares[src];
    let lifted = v.squares.update(src, Square::Empty(Empty {  }));
    let taken = if en_passant_capture(v, mv) {
        lifted.update(index_of(mv.dst_file as int, mv.src_rank as int), Square::Empty(Empty {  }))
    } else {
        lifted
    };
    let king_moved = mover is King;
    BoardView {
        squares: taken.update(dst, relocated(mover, mv.dst_file as int, mv.dst_rank as int, promotion)),
        white_king: if king_moved && mover.owner() == Some(Player::White) {
            (mv.dst_file as int, mv.dst_rank as int)
        } else {
            v.white_king
        },
        black_king: if king_moved && mover.owner() == Some(Player::Black) {
            (mv.dst_file as int, mv.dst_rank as int)
        } else {
            v.black_king
        },
        ..v
    }
}

/// Moving a piece keeps the board well-formed.
pub proof fn lemma_apply_wf(v: BoardView, mv: PieceMove, promotion: Option<PieceType>)
    requires
        v.wf(),
        move_on_board(mv),
    ensures
        apply(v, mv, promotion).wf(),
{
    let a = apply(v, mv, promotion);
    assert forall|f: int, r: int| on_board(f, r) implies sits_at(#[trigger] square_at(a.squares, f, r), f, r) by {
        assert(sits_at(square_at(v.squares, f, r), f, r));
    }
}

/// The piece on (f, r) belongs to `victim`'s opponent and attacks `victim`'s king.
pub open spec fn attacks_king_from(v: BoardView, victim: Player, f: int, r: int) -> bool {
    let sq = square_at(v.squares, f, r);
    let king = v.king_of(victim);
    sq.owner() == Some(opponent(victim)) && attacks(v.squares, sq, king.0, king.1)
}

/// `victim`'s king is attacked.
pub open spec fn in_check(v: BoardView, victim: Player) -> bool {
    exists|f: int, r: int| on_board(f, r) && #[trigger] attacks_king_from(v, victim, f, r)
}

pub open spec fn move_on_board(mv: PieceMove) -> bool {
    on_board(mv.src_file as int, mv.src_rank as int) && on_board(mv.dst_file as int, mv.dst_rank as int)
}

/// The pieces that give check, as (file, rank) pairs in the order the board is scanned.
pub open spec fn lists_checking_pieces(v: BoardView, victim: Player, found: Seq<(i8, i8)>) -> bool {
    &&& forall|k: int|
        0 <= k < found.len() ==> on_board(found[k].0 as int, found[k].1 as int)
            && attacks_king_from(v, victim, found[k].0 as int, found[k].1 as int)
    &&& forall|f: int, r: int|
        on_board(f, r) && #[trigger] attacks_king_from(v, victim, f, r) ==> found.contains(
            (f as i8, r as i8),
        )
    &&& forall|i: int, j: int| 0 <= i < j < found.len() ==> scanned_before(found[i], found[j])
    &&& (found.len() == 0 <==> !in_check(v, victim))
}

/// The landing square of a moving piece.
fn relocate(mover: Square, file: i8, rank: i8, promotion: Option<PieceType>) -> (r: Square)
    ensures
        r == relocated(mover, file as int, rank as int, promotion),
{
    match mover.get_player() {
        None => Square::vacant(),
        Some(p) => {
            let kind = match promotion {
                Some(k) => k,
                None => mover.get_type(),
            };
            new_boxed_piece(p, kind, file, rank)
        },
    }
}

impl Board {
    /// Whether `mv` takes a pawn en passant.
    pub(crate) fn is_en_passant(&self, mv: PieceMove) -> (r: bool)
        requires
            self.wf(),
            move_on_board(mv),
        ensures
            r == en_passant_capture(self@, mv),
    {
        let mover = self.square(mv.src_file, mv.src_rank);
        match mover {
            Square::Pawn(p) => {
                if mv.dst_file == mv.src_file {
                    return false;
                }
                if !matches!(self.square(mv.dst_file, mv.dst_rank), Square::Empty(_)) {
                    return false;
                }
                match self.square(mv.dst_file, mv.src_rank) {
                    Square::Pawn(e) => e.data.player != p.data.player && match e.data.last_move {
                        Some((t, m)) => {
                            let span: i16 = m.src_rank as i16 - m.dst_rank as i16;
                            t as i64 == self.turn as i64 - 1 && (span == 2 || span == -2)
                        },
                        None => false,
                    },
                    _ => false,
                }
            },
            _ => false,
        }
    }

    /// Moves the piece on `mv`'s source to its destination as `apply` describes.
    fn apply_move(&mut self, mv: PieceMove, promotion: Option<PieceType>)
        requires
            old(self).wf(),
            move_on_board(mv),
        ensures
            final(self)@ == apply(old(self)@, mv, promotion),
            final(self).wf(),
    {
        let ghost v = self@;
        let src = convert_position_1d(mv.src_file, mv.src_rank);
        let dst = convert_position_1d(mv.dst_file, mv.dst_rank);
        let mover = self.squares[src];
        let en_passant = self.is_en_passant(mv);
        self.squares[src] = Square::vacant();
        if en_passant {
            self.squares[convert_position_1d(mv.dst_file, mv.src_rank)] = Square::vacant();
        }
        self.squares[dst] = relocate(mover, mv.dst_file, mv.dst_rank, promotion);
        if let Square::King(k) = mover {
            match k.data.player {
                Player::White => self.white_king = (mv.dst_file, mv.dst_rank),
                Player::Black => self.black_king = (mv.dst_file, mv.dst_rank),
            }
        }
        assert(self@.squares =~= apply(v, mv, promotion).squares);
        proof {
            lemma_apply_wf(v, mv, promotion);
        }
    }

    /// Whether `player`'s king is safe once `mv` is played on a copy of the board.
    pub fn king_safe_after(&self, player: Player, mv: PieceMove) -> (r: bool)
        requires
            self.wf(),
            move_on_board(mv),
        ensures
            r == !in_check(apply(self@, mv, None), player),
    {
        let mut scratch = self.clone();
        scratch.apply_move(mv, None);
        let (enemies, _) = scratch.get_checking_pieces(player);
        enemies.len() == 0
    }

    /// The pieces checking `defender`'s king, and the pieces of `defender`
    /// checking the opposing king.
    pub fn get_checking_pieces(&self, defender: Player) -> (r: (Vec<(i8, i8)>, Vec<(i8, i8)>))
        requires
            self.wf(),
        ensures
            lists_checking_pieces(self@, defender, r.0@),
            lists_checking_pieces(self@, opponent(defender), r.1@),
    {
        let mut enemies: Vec<(i8, i8)> = Vec::new();
        let mut allies: Vec<(i8, i8)> = Vec::new();
        let (king, enemy_king) = match defender {
            Player::White => (self.white_king, self.black_king),
            Player::Black => (self.black_king, self.white_king),
        };
        let ghost v = self@;
        let mut f: i8 = 0;
        while f < 8
            invariant
                self.wf(),
                v == self@,
                0 <= f <= 8,
                (king.0 as int, king.1 as int) == v.king_of(defender),
                (enemy_king.0 as int, enemy_king.1 as int) == v.king_of(opponent(defender)),
                forall|k: int|
                    0 <= k < enemies.len() ==> on_board(enemies[k].0 as int, enemies[k].1 as int)
                        && attacks_king_from(v, defender, enemies[k].0 as int, enemies[k].1 as int)
                        && enemies[k].0 < f,
                forall|i: int, j: int| 0 <= i < j < enemies.len() ==> scanned_before(enemies[i], enemies[j]),
                forall|k: int|
                    0 <= k < allies.len() ==> on_board(allies[k].0 as int, allies[k].1 as int)
                        && attacks_king_from(v, opponent(defender), allies[k].0 as int, allies[k].1 as int)
                        && allies[k].0 < f,
                forall|i: int, j: int| 0 <= i < j < allies.len() ==> scanned_before(allies[i], allies[j]),
                forall|ff: int, rr: int|
                    0 <= ff < f && 0 <= rr < 8 && #[trigger] attacks_king_from(v, defender, ff, rr)
                        ==> enemies@.contains((ff as i8, rr as i8)),
                forall|ff: int, rr: int|
                    0 <= ff < f && 0 <= rr < 8 && #[trigger] attacks_king_from(v, opponent(defender), ff, rr)
                        ==> allies@.contains((ff as i8, rr as i8)),
            decreases 8 - f,
        {
            let mut r: i8 = 0;
            while r < 8
                invariant
                    self.wf(),
                    v == self@,
                    0 <= f < 8,
                    0 <= r <= 8,
                    (king.0 as int, king.1 as int) == v.king_of(defender),
                    (enemy_king.0 as int, enemy_king.1 as int) == v.king_of(opponent(defender)),
                    forall|k: int|
                        0 <= k < enemies.len() ==> on_board(enemies[k].0 as int, enemies[k].1 as int)
                            && attacks_king_from(v, defender, enemies[k].0 as int, enemies[k].1 as int)
                            && scanned_before(enemies[k], (f, r)),
                    forall|i: int, j: int| 0 <= i < j < enemies.len() ==> scanned_before(enemies[i], enemies[j]),
                    forall|k: int|
                        0 <= k < allies.len() ==> on_board(allies[k].0 as int, allies[k].1 as int)
                            && attacks_king_from(v, opponent(defender), allies[k].0 as int, allies[k].1 as int)
                            && scanned_before(allies[k], (f, r)),
                    forall|i: int, j: int| 0 <= i < j < allies.len() ==> scanned_before(allies[i], allies[j]),
                    forall|ff: int, rr: int|
                        0 <= ff < 8 && 0 <= rr < 8 && (ff < f || (ff == f && rr < r))
                            && #[trigger] attacks_king_from(v, defender, ff, rr)
                            ==> enemies@.contains((ff as i8, rr as i8)),
                    forall|ff: int, rr: int|
                        0 <= ff < 8 && 0 <= rr < 8 && (ff < f || (ff == f && rr < r))
                            && #[trigger] attacks_king_from(v, opponent(defender), ff, rr)
                            ==> allies@.contains((ff as i8, rr as i8)),
                decreases 8 - r,
            {
                let attacker = self.square(f, r);
                if let Some(p) = attacker.get_player() {
                    if p != defender {
                        if attacker.can_attack(self, king.0, king.1) {
                            enemies.push((f, r));
                        }
                    } else {
                        if attacker.can_attack(self, enemy_king.0, enemy_king.1) {
                            allies.push((f, r));
                        }
                    }
                }
                r = r + 1;
            }
            f = f + 1;
        }
        proof {
            if enemies.len() > 0 {
                assert(attacks_king_from(v, defender, enemies[0].0 as int, enemies[0].1 as int));
            }
            if allies.len() > 0 {
                assert(attacks_king_from(v, opponent(defender), allies[0].0 as int, allies[0].1 as int));
            }
        }
        (enemies, allies)
    }
}

} // verus!

verus! {

/// The move of a `kind` piece from (f, r) to (tf, tr).
pub open spec fn move_between(kind: PieceType, f: int, r: int, tf: int, tr: int) -> PieceMove {
    PieceMove {
        piece_type: kind,
        src_file: f as i8,
        src_rank: r as i8,
        dst_file: tf as i8,
        dst_rank: tr as i8,
    }
}

/// `player` may make `mv`: the piece's own rules allow it, and it does not
/// leave `player`'s king in check.
pub open spec fn legal_move(v: BoardView, player: Player, mv: PieceMove) -> bool {
    &&& can_move_to(
        v,
        square_at(v.squares, mv.src_file as int, mv.src_rank as int),
        mv.dst_file as int,
        mv.dst_rank as int,
    )
    &&& !in_check(apply(v, mv, None), player)
}

/// The piece on (f, r), not of side `excluded`, may legally move to (tf, tr).
pub open spec fn can_reach(v: BoardView, excluded: Player, f: int, r: int, tf: int, tr: int) -> bool {
    let sq = square_at(v.squares, f, r);
    match sq.owner() {
        Some(p) => p != excluded && legal_move(v, p, move_between(sq.kind(), f, r, tf, tr)),
        None => false,
    }
}

/// The piece on (f, r) threatens the `k`-th square of the path from (sf, sr) toward (ef, er).
pub open spec fn path_threat(
    v: BoardView,
    defender: Player,
    sf: int,
    sr: int,
    ef: int,
    er: int,
    f: int,
    r: int,
    k: int,
) -> bool {
    can_reach(v, defender, f, r, step_toward(sf, ef, k), step_toward(sr, er, k))
}

/// Some piece opposing `defender` may legally move onto a square of the
/// straight or diagonal path that starts at (sf, sr) and stops just before (ef, er).
pub open spec fn path_under_attack(v: BoardView, defender: Player, sf: int, sr: int, ef: int, er: int) -> bool {
    &&& (on_diagonal(sf, sr, ef, er) || on_straight(sf, sr, ef, er))
    &&& exists|f: int, r: int, k: int|
        on_board(f, r) && 0 <= k < distance(sf, sr, ef, er) && #[trigger] path_threat(
            v,
            defender,
            sf,
            sr,
            ef,
            er,
            f,
            r,
            k,
        )
}

/// The king of `defender` may legally step by (df, dr).
pub open spec fn flight(v: BoardView, defender: Player, df: int, dr: int) -> bool {
    let king = v.king_of(defender);
    &&& -1 <= df <= 1 && -1 <= dr <= 1 && !(df == 0 && dr == 0)
    &&& on_board(king.0 + df, king.1 + dr)
    &&& legal_move(v, defender, move_between(PieceType::King, king.0, king.1, king.0 + df, king.1 + dr))
}

/// The check given by `attacker`'s `kind` piece on (af, ar) can be answered:
/// the king steps away, or (a knight's check) the knight is taken, or (any
/// other) a piece takes the checking piece or steps between it and the king.
pub open spec fn check_stoppable(v: BoardView, attacker: Player, kind: PieceType, af: int, ar: int) -> bool {
    let defender = opponent(attacker);
    let king = v.king_of(defender);
    (exists|df: int, dr: int| #[trigger] flight(v, defender, df, dr)) || if kind == PieceType::Knight {
        exists|f: int, r: int| on_board(f, r) && #[trigger] can_reach(v, attacker, f, r, af, ar)
    } else {
        path_under_attack(v, attacker, af, ar, king.0, king.1)
    }
}

/// `mover` checks the opposing king with a piece whose check cannot be answered.
pub open spec fn delivers_mate(a: BoardView, mover: Player) -> bool {
    exists|f: int, r: int|
        on_board(f, r) && #[trigger] attacks_king_from(a, opponent(mover), f, r) && !check_stoppable(
            a,
            mover,
            square_at(a.squares, f, r).kind(),
            f,
            r,
        )
}

/// The board with `mv` made and recorded: the moved piece records the move
/// and the ply advances; the game state is not yet touched.
pub open spec fn advanced(v: BoardView, mv: PieceMove, promotion: Option<PieceType>) -> BoardView {
    let a = apply(v, mv, promotion);
    let dst = index_of(mv.dst_file as int, mv.dst_rank as int);
    BoardView {
        squares: a.squares.update(dst, a.squares[dst].stamped(v.turn as i32, mv)),
        turn: v.turn + 1,
        ..a
    }
}

/// The result of `player` making `mv` (with an optional promotion, and what
/// the text claimed about check), judged on the board with the move made.
pub open spec fn move_outcome(
    v: BoardView,
    player: Player,
    mv: PieceMove,
    promotion: Option<PieceType>,
    claim: CheckMark,
) -> Result<MoveOutcome, MoveError> {
    let b = advanced(v, mv, promotion);
    if in_check(b, player) {
        Err(MoveError::MoveIntoCheck)
    } else {
        judged(b, player, claim)
    }
}

/// How a move of `player` that led to board `b` ends: refused if the text
/// claimed a check or mate that `b` does not show, a checkmate if the
/// opposing king has no answer, and otherwise play goes on.
pub open spec fn judged(b: BoardView, player: Player, claim: CheckMark) -> Result<MoveOutcome, MoveError> {
    if claim == CheckMark::Check && !in_check(b, opponent(player)) {
        Err(MoveError::InvalidCheck)
    } else if claim == CheckMark::Mate && !delivers_mate(b, player) {
        Err(MoveError::InvalidCheck)
    } else if delivers_mate(b, player) {
        Ok(MoveOutcome::Checkmate)
    } else {
        Ok(MoveOutcome::Continue)
    }
}

/// The board once a move that led to `outcome` stands: the move is made and
/// recorded, and the state follows the outcome.
pub open spec fn committed(
    v: BoardView,
    player: Player,
    mv: PieceMove,
    promotion: Option<PieceType>,
    outcome: MoveOutcome,
) -> BoardView {
    BoardView { state: state_after(player, outcome), ..advanced(v, mv, promotion) }
}

/// The rank on which `p`'s pieces start.
pub open spec fn home_rank(p: Player) -> int {
    match p {
        Player::White => 0,
        Player::Black => 7,
    }
}

/// The king and the rook of `side` stand on their starting squares of
/// `rank` and have never moved.
pub open spec fn castle_pieces_unmoved(v: BoardView, side: Player, rank: int, rook_file: int) -> bool {
    let king = square_at(v.squares, 4, rank);
    let rook = square_at(v.squares, rook_file, rank);
    &&& king is King
    &&& king.owner() == Some(side)
    &&& king.last_move() is None
    &&& rook is Rook
    &&& rook.owner() == Some(side)
    &&& rook.last_move() is None
}

/// Every square between the king and the rook is empty.
pub open spec fn castle_lane_clear(v: BoardView, rank: int, rook_file: int) -> bool {
    forall|x: int|
        (if rook_file == 0 {
            1 <= x < 4
        } else {
            5 <= x < 7
        }) ==> #[trigger] square_at(v.squares, x, rank).is_vacant()
}

/// The square just past the king's destination, so that the path from the
/// king's square toward it covers every square the king stands on or crosses.
pub open spec fn king_transit_end(rook_file: int) -> int {
    if rook_file == 0 {
        1
    } else {
        7
    }
}

/// Whether the side whose pieces start on `rank` may castle with the rook
/// on `rook_file`, and if not, why.
pub open spec fn castle_check(v: BoardView, rank: int, rook_file: int) -> Result<(), MoveError> {
    let side = if rank == 0 {
        Player::White
    } else {
        Player::Black
    };
    if rank != 0 && rank != 7 {
        Err(MoveError::InvalidMove)
    } else if !castle_pieces_unmoved(v, side, rank, rook_file) {
        Err(MoveError::InvalidMove)
    } else if !castle_lane_clear(v, rank, rook_file) {
        Err(MoveError::InvalidMove)
    } else if path_under_attack(v, side, 4, rank, king_transit_end(rook_file), rank) {
        Err(MoveError::MoveIntoCheck)
    } else {
        Ok(())
    }
}

/// The board after `player` castles with the rook on `rook_file`: king and
/// rook land beside each other with the castling recorded as their last
/// move and the ply advances; the game state is not yet touched.
pub open spec fn castled(v: BoardView, player: Player, rook_file: int) -> BoardView {
    let rank = home_rank(player);
    let king_to = if rook_file == 0 {
        2int
    } else {
        6int
    };
    let rook_to = if rook_file == 0 {
        3int
    } else {
        5int
    };
    let king_move = move_between(PieceType::King, 4, rank, king_to, rank);
    let rook_move = move_between(PieceType::Rook, rook_file, rank, rook_to, rank);
    let king = make_square(
        PieceType::King,
        PieceData {
            player,
            file: king_to as i8,
            rank: rank as i8,
            last_move: Some((v.turn as i32, king_move)),
        },
    );
    let rook = make_square(
        PieceType::Rook,
        PieceData {
            player,
            file: rook_to as i8,
            rank: rank as i8,
            last_move: Some((v.turn as i32, rook_move)),
        },
    );
    BoardView {
        squares: v.squares.update(index_of(4, rank), Square::Empty(Empty {  })).update(
            index_of(rook_file, rank),
            Square::Empty(Empty {  }),
        ).update(index_of(king_to, rank), king).update(index_of(rook_to, rank), rook),
        turn: v.turn + 1,
        white_king: if player == Player::White {
            (king_to, rank)
        } else {
            v.white_king
        },
        black_king: if player == Player::Black {
            (king_to, rank)
        } else {
            v.black_king
        },
        ..v
    }
}

/// The result of `player` castling with the rook on `rook_file`: refused if
/// castling is not allowed, and otherwise judged on the castled board.
pub open spec fn castle_outcome(v: BoardView, player: Player, rook_file: int, claim: CheckMark) -> Result<
    MoveOutcome,
    MoveError,
> {
    match castle_check(v, home_rank(player), rook_file) {
        Err(e) => Err(e),
        Ok(_) => judged(castled(v, player, rook_file), player, claim),
    }
}

/// The cached square of `p`'s king holds `p`'s king, and no other square does.
pub open spec fn king_cached(v: BoardView, p: Player) -> bool {
    let k = v.king_of(p);
    &&& square_at(v.squares, k.0, k.1) is King
    &&& square_at(v.squares, k.0, k.1).owner() == Some(p)
    &&& forall|f: int, r: int|
        on_board(f, r) && (#[trigger] square_at(v.squares, f, r)) is King && square_at(v.squares, f, r).owner()
            == Some(p) ==> f == k.0 && r == k.1
}

/// Each side has exactly one king, and the board's cache knows where.
pub open spec fn kings_consistent(v: BoardView) -> bool {
    king_cached(v, Player::White) && king_cached(v, Player::Black)
}

impl Board {
    /// Whether `player` may legally make `mv`.
    pub fn piece_can_move(&self, player: Player, mv: PieceMove) -> (r: bool)
        requires
            self.wf(),
            move_on_board(mv),
        ensures
            r == legal_move(self@, player, mv),
    {
        let piece = self.square(mv.src_file, mv.src_rank);
        if piece.can_move(self, mv.dst_file, mv.dst_rank) {
            return self.king_safe_after(player, mv);
        }
        false
    }

    /// Whether a piece opposing `defender` may legally move onto any square
    /// of the straight or diagonal path from (path_start_file, path_start_rank)
    /// up to, and not including, (path_end_file, path_end_rank). Any other
    /// path is never under attack. The board is not changed.
    pub fn is_path_under_attack(
        &mut self,
        defender: Player,
        path_start_file: i8,
        path_start_rank: i8,
        path_end_file: i8,
        path_end_rank: i8,
    ) -> (r: bool)
        requires
            old(self).wf(),
            on_board(path_start_file as int, path_start_rank as int),
            on_board(path_end_file as int, path_end_rank as int),
        ensures
            r == path_under_attack(
                old(self)@,
                defender,
                path_start_file as int,
                path_start_rank as int,
                path_end_file as int,
                path_end_rank as int,
            ),
            *final(self) == *old(self),
    {
        self.path_attacked(defender, path_start_file, path_start_rank, path_end_file, path_end_rank)
    }

    fn path_attacked(&self, defender: Player, sf: i8, sr: i8, ef: i8, er: i8) -> (r: bool)
        requires
            self.wf(),
            on_board(sf as int, sr as int),
            on_board(ef as int, er as int),
        ensures
            r == path_under_attack(self@, defender, sf as int, sr as int, ef as int, er as int),
    {
        let ghost v = self@;
        let diff_y = abs_i8(er - sr);
        let diff_x = abs_i8(ef - sf);
        if !(diff_y == diff_x || diff_y == 0 || diff_x == 0) {
            return false;
        }
        let n: i8 = if diff_x >= diff_y {
            diff_x
        } else {
            diff_y
        };
        let mut f: i8 = 0;
        while f < 8
            invariant
                self.wf(),
                v == self@,
                0 <= f <= 8,
                on_board(sf as int, sr as int),
                on_board(ef as int, er as int),
                on_diagonal(sf as int, sr as int, ef as int, er as int) || on_straight(sf as int, sr as int, ef as int, er as int),
                n == distance(sf as int, sr as int, ef as int, er as int),
                forall|ff: int, rr: int, kk: int|
                    0 <= ff < f && 0 <= rr < 8 && 0 <= kk < n
                        ==> !#[trigger] path_threat(v, defender, sf as int, sr as int, ef as int, er as int, ff, rr, kk),
            decreases 8 - f,
        {
            let mut r: i8 = 0;
            while r < 8
                invariant
                    self.wf(),
                    v == self@,
                        0 <= f < 8,
                    0 <= r <= 8,
                    on_board(sf as int, sr as int),
                    on_board(ef as int, er as int),
                    on_diagonal(sf as int, sr as int, ef as int, er as int) || on_straight(sf as int, sr as int, ef as int, er as int),
                    n == distance(sf as int, sr as int, ef as int, er as int),
                    forall|ff: int, rr: int, kk: int|
                        0 <= ff < 8 && 0 <= rr < 8 && (ff < f || (ff == f && rr < r)) && 0 <= kk < n
                            ==> !#[trigger] path_threat(v, defender, sf as int, sr as int, ef as int, er as int, ff, rr, kk),
                decreases 8 - r,
            {
                let attacker = self.square(f, r);
                let attacker_type = attacker.get_type();
                if let Some(p) = attacker.get_player() {
                    if p != defender {
                        let mut k: i8 = 0;
                        let mut curr_file = sf;
                        let mut curr_rank = sr;
                        while k < n
                            invariant
                                self.wf(),
                                v == self@,
                                                0 <= f < 8,
                                0 <= r < 8,
                                0 <= k <= n,
                                n <= 7,
                                on_board(sf as int, sr as int),
                                on_board(ef as int, er as int),
                                on_diagonal(sf as int, sr as int, ef as int, er as int) || on_straight(sf as int, sr as int, ef as int, er as int),
                                n == distance(sf as int, sr as int, ef as int, er as int),
                                curr_file == step_toward(sf as int, ef as int, k as int),
                                curr_rank == step_toward(sr as int, er as int, k as int),
                                attacker == square_at(v.squares, f as int, r as int),
                                attacker.owner() == Some(p),
                                attacker_type == attacker.kind(),
                                p != defender,
                                forall|kk: int|
                                    0 <= kk < k ==> !#[trigger] path_threat(v, defender, sf as int, sr as int, ef as int, er as int, f as int, r as int, kk),
                            decreases n - k,
                        {
                            let tmp_mv = PieceMove {
                                piece_type: attacker_type,
                                src_file: f,
                                src_rank: r,
                                dst_file: curr_file,
                                dst_rank: curr_rank,
                            };
                            assert(tmp_mv == move_between(attacker_type, f as int, r as int, curr_file as int, curr_rank as int));
                            if self.piece_can_move(p, tmp_mv) {
                                assert(path_threat(v, defender, sf as int, sr as int, ef as int, er as int, f as int, r as int, k as int));
                                return true;
                            }
                            if curr_file > ef {
                                curr_file = curr_file - 1;
                            } else if curr_file < ef {
                                curr_file = curr_file + 1;
                            }
                            if curr_rank > er {
                                curr_rank = curr_rank - 1;
                            } else if curr_rank < er {
                                curr_rank = curr_rank + 1;
                            }
                            k = k + 1;
                        }
                    }
                }
                r = r + 1;
            }
            f = f + 1;
        }
        false
    }

    /// Whether the check given by `attacker`'s `attacker_type` piece on
    /// (attacker_file, attacker_rank) can be answered by the other side.
    fn can_stop_check(
        &self,
        attacker: Player,
        attacker_type: PieceType,
        attacker_file: i8,
        attacker_rank: i8,
    ) -> (r: bool)
        requires
            self.wf(),
            on_board(attacker_file as int, attacker_rank as int),
        ensures
            r == check_stoppable(self@, attacker, attacker_type, attacker_file as int, attacker_rank as int),
    {
        let ghost v = self@;
        let defender = other_player(attacker);
        let king = match defender {
            Player::White => self.white_king,
            Player::Black => self.black_king,
        };
        // can the king step out of check?
        let mut df: i8 = -1;
        while df <= 1
            invariant
                self.wf(),
                v == self@,
                -1 <= df <= 2,
                defender == opponent(attacker),
                (king.0 as int, king.1 as int) == v.king_of(defender),
                forall|ddf: int, ddr: int| -1 <= ddf < df ==> !#[trigger] flight(v, defender, ddf, ddr),
            decreases 2 - df,
        {
            let mut dr: i8 = -1;
            while dr <= 1
                invariant
                    self.wf(),
                    v == self@,
                    -1 <= df <= 1,
                    -1 <= dr <= 2,
                    defender == opponent(attacker),
                    (king.0 as int, king.1 as int) == v.king_of(defender),
                    forall|ddf: int, ddr: int|
                        (-1 <= ddf < df || (ddf == df && ddr < dr)) ==> !#[trigger] flight(v, defender, ddf, ddr),
                decreases 2 - dr,
            {
                let to_file = king.0 + df;
                let to_rank = king.1 + dr;
                if !(df == 0 && dr == 0) && 0 <= to_file && to_file < 8 && 0 <= to_rank && to_rank < 8 {
                    let flight_move = PieceMove {
                        piece_type: PieceType::King,
                        src_file: king.0,
                        src_rank: king.1,
                        dst_file: to_file,
                        dst_rank: to_rank,
                    };
                    assert(flight_move == move_between(PieceType::King, king.0 as int, king.1 as int, to_file as int, to_rank as int));
                    if self.piece_can_move(defender, flight_move) {
                        assert(flight(v, defender, df as int, dr as int));
                        return true;
                    }
                }
                dr = dr + 1;
            }
            df = df + 1;
        }
        assert(!exists|ddf: int, ddr: int| #[trigger] flight(v, defender, ddf, ddr));
        // a knight cannot be blocked: it must be taken
        if attacker_type == PieceType::Knight {
            let mut f: i8 = 0;
            while f < 8
                invariant
                    self.wf(),
                    v == self@,
                    0 <= f <= 8,
                    on_board(attacker_file as int, attacker_rank as int),
                    attacker_type == PieceType::Knight,
                    forall|ff: int, rr: int|
                        0 <= ff < f && 0 <= rr < 8 ==> !#[trigger] can_reach(v, attacker, ff, rr, attacker_file as int, attacker_rank as int),
                decreases 8 - f,
            {
                let mut r: i8 = 0;
                while r < 8
                    invariant
                        self.wf(),
                        v == self@,
                        0 <= f < 8,
                        0 <= r <= 8,
                        on_board(attacker_file as int, attacker_rank as int),
                        attacker_type == PieceType::Knight,
                        forall|ff: int, rr: int|
                            0 <= ff < 8 && 0 <= rr < 8 && (ff < f || (ff == f && rr < r))
                                ==> !#[trigger] can_reach(v, attacker, ff, rr, attacker_file as int, attacker_rank as int),
                    decreases 8 - r,
                {
                    let piece = self.square(f, r);
                    if let Some(p) = piece.get_player() {
                        let tmp_mv = PieceMove {
                            piece_type: piece.get_type(),
                            src_file: f,
                            src_rank: r,
                            dst_file: attacker_file,
                            dst_rank: attacker_rank,
                        };
                        assert(tmp_mv == move_between(piece.kind(), f as int, r as int, attacker_file as int, attacker_rank as int));
                        if p != attacker && self.piece_can_move(p, tmp_mv) {
                            assert(can_reach(v, attacker, f as int, r as int, attacker_file as int, attacker_rank as int));
                            return true;
                        }
                    }
                    r = r + 1;
                }
                f = f + 1;
            }
            return false;
        }
        // the side giving check "defends" the line from its checking piece to the king
        self.path_attacked(attacker, attacker_file, attacker_rank, king.0, king.1)
    }

    /// How a move of `player` that led to this board ends, as `judged` says.
    fn judge_move(&self, player: Player, claim: CheckMark) -> (r: Result<MoveOutcome, MoveError>)
        requires
            self.wf(),
        ensures
            r == judged(self@, player, claim),
    {
        let ghost b = self@;
        let (_, allies) = self.get_checking_pieces(player);
        let mut mate = false;
        let mut i: usize = 0;
        while i < allies.len() && !mate
            invariant
                self.wf(),
                b == self@,
                lists_checking_pieces(b, opponent(player), allies@),
                0 <= i <= allies.len(),
                forall|j: int|
                    0 <= j < i ==> check_stoppable(
                        b,
                        player,
                        square_at(b.squares, allies[j].0 as int, allies[j].1 as int).kind(),
                        allies[j].0 as int,
                        allies[j].1 as int,
                    ),
                mate ==> delivers_mate(b, player),
            decreases allies.len() - i + if mate { 0int } else { 1int },
        {
            let (af, ar) = allies[i];
            let kind = self.square(af, ar).get_type();
            if !self.can_stop_check(player, kind, af, ar) {
                assert(attacks_king_from(b, opponent(player), af as int, ar as int));
                mate = true;
            } else {
                i = i + 1;
            }
        }
        proof {
            if !mate {
                assert forall|f: int, r: int|
                    on_board(f, r) && #[trigger] attacks_king_from(b, opponent(player), f, r) implies check_stoppable(
                        b,
                        player,
                        square_at(b.squares, f, r).kind(),
                        f,
                        r,
                    ) by {
                    assert(allies@.contains((f as i8, r as i8)));
                    let j = choose|j: int| 0 <= j < allies.len() && allies@[j] == (f as i8, r as i8);
                    assert(allies[j].0 as int == f && allies[j].1 as int == r);
                }
            }
        }
        match claim {
            CheckMark::Check => {
                if allies.len() == 0 {
                    return Err(MoveError::InvalidCheck);
                }
            },
            CheckMark::Mate => {
                if !mate {
                    return Err(MoveError::InvalidCheck);
                }
            },
            CheckMark::Unmarked => {},
        }
        if mate {
            Ok(MoveOutcome::Checkmate)
        } else {
            Ok(MoveOutcome::Continue)
        }
    }

    /// Plays `mv` for `player`, landing as `promotion` if given: refused with
    /// the board unchanged if it leaves `player`'s king in check or belies
    /// `claim`; otherwise the move stands, is recorded, and the ply advances.
    pub(crate) fn execute_move(
        &mut self,
        player: Player,
        mv: PieceMove,
        promotion: Option<PieceType>,
        claim: CheckMark,
    ) -> (r: Result<MoveOutcome, MoveError>)
        requires
            old(self).wf(),
            move_on_board(mv),
            old(self).turn < i32::MAX,
        ensures
            r == move_outcome(old(self)@, player, mv, promotion, claim),
            r is Ok ==> final(self)@ == committed(old(self)@, player, mv, promotion, r->Ok_0),
            r is Err ==> *final(self) == *old(self),
            final(self).wf(),
    {
        let ghost v = self@;
        let mut scratch = self.clone();
        scratch.apply_move(mv, promotion);
        let dst = convert_position_1d(mv.dst_file, mv.dst_rank);
        let mut landed = scratch.squares[dst];
        landed.set_last_move(self.turn, mv);
        proof {
            lemma_square_at_update(scratch@.squares, mv.dst_file as int, mv.dst_rank as int, landed);
            assert(sits_at(
                square_at(scratch@.squares, mv.dst_file as int, mv.dst_rank as int),
                mv.dst_file as int,
                mv.dst_rank as int,
            ));
        }
        scratch.squares[dst] = landed;
        scratch.turn = self.turn + 1;
        let ghost b = scratch@;
        assert(b.squares =~= advanced(v, mv, promotion).squares);
        assert(b == advanced(v, mv, promotion));
        let (enemies, _) = scratch.get_checking_pieces(player);
        if enemies.len() > 0 {
            return Err(MoveError::MoveIntoCheck);
        }
        let outcome = match scratch.judge_move(player, claim) {
            Err(err) => {
                return Err(err);
            },
            Ok(o) => o,
        };
        scratch.state = state_after_move(player, outcome);
        *self = scratch;
        Ok(outcome)
    }

    /// Whether the side whose pieces start on `castle_rank` may castle with
    /// the rook on `rook_file`.
    pub fn can_castle(&self, castle_rank: i8, rook_file: i8) -> (r: Result<(), MoveError>)
        requires
            self.wf(),
            rook_file == 0 || rook_file == 7,
        ensures
            r == castle_check(self@, castle_rank as int, rook_file as int),
    {
        if castle_rank != 0 && castle_rank != 7 {
            return Err(MoveError::InvalidMove);
        }
        let defender = if castle_rank == 0 {
            Player::White
        } else {
            Player::Black
        };
        let king = self.square(4, castle_rank);
        let rook = self.square(rook_file, castle_rank);
        let in_place = match (king, rook) {
            (Square::King(k), Square::Rook(q)) => k.data.player == defender && q.data.player == defender
                && k.data.last_move.is_none() && q.data.last_move.is_none(),
            _ => false,
        };
        if !in_place {
            return Err(MoveError::InvalidMove);
        }
        // the squares between king and rook must be empty
        let (first, last) = if rook_file == 0 {
            (1i8, 4i8)
        } else {
            (5i8, 7i8)
        };
        let mut i: i8 = first;
        while i < last
            invariant
                self.wf(),
                castle_rank == 0 || castle_rank == 7,
                defender == (if castle_rank == 0 { Player::White } else { Player::Black }),
                castle_pieces_unmoved(self@, defender, castle_rank as int, rook_file as int),
                first <= i <= last,
                rook_file == 0 ==> first == 1 && last == 4,
                rook_file != 0 ==> first == 5 && last == 7,
                forall|x: int| first <= x < i ==> #[trigger] square_at(self@.squares, x, castle_rank as int).is_vacant(),
            decreases last - i,
        {
            if !matches!(self.square(i, castle_rank), Square::Empty(_)) {
                assert(!square_at(self@.squares, i as int, castle_rank as int).is_vacant());
                assert(!castle_lane_clear(self@, castle_rank as int, rook_file as int));
                return Err(MoveError::InvalidMove);
            }
            i = i + 1;
        }
        // the king may not start on, cross or land on an attacked square
        let transit_end: i8 = if rook_file == 0 {
            1
        } else {
            7
        };
        if self.path_attacked(defender, 4, castle_rank, transit_end, castle_rank) {
            return Err(MoveError::MoveIntoCheck);
        }
        Ok(())
    }

    /// Whether the side whose pieces start on `castle_rank` may castle king side.
    pub fn can_king_castle(&self, castle_rank: i8) -> (r: Result<(), MoveError>)
        requires
            self.wf(),
        ensures
            r == castle_check(self@, castle_rank as int, 7),
    {
        self.can_castle(castle_rank, 7)
    }

    /// Whether the side whose pieces start on `castle_rank` may castle queen side.
    pub fn can_queen_castle(&self, castle_rank: i8) -> (r: Result<(), MoveError>)
        requires
            self.wf(),
        ensures
            r == castle_check(self@, castle_rank as int, 0),
    {
        self.can_castle(castle_rank, 0)
    }

    /// Castles for `player` with the rook on `rook_file` if that is allowed;
    /// otherwise the board is unchanged.
    pub fn castle(&mut self, player: Player, rook_file: i8, claim: CheckMark) -> (r: Result<
        MoveOutcome,
        MoveError,
    >)
        requires
            old(self).wf(),
            old(self).turn < i32::MAX,
            rook_file == 0 || rook_file == 7,
        ensures
            r == castle_outcome(old(self)@, player, rook_file as int, claim),
            r matches Ok(o) ==> final(self)@ == (BoardView {
                state: state_after(player, o),
                ..castled(old(self)@, player, rook_file as int)
            }),
            r is Err ==> *final(self) == *old(self),
            final(self).wf(),
    {
        let ghost v = self@;
        let mut scratch = self.clone();
        let castle_rank: i8 = match player {
            Player::White => 0,
            Player::Black => 7,
        };
        let allowed = if rook_file == 7 {
            scratch.can_king_castle(castle_rank)
        } else {
            scratch.can_queen_castle(castle_rank)
        };
        if let Err(e) = allowed {
            return Err(e);
        }
        let (king_to, rook_to): (i8, i8) = if rook_file == 0 {
            (2, 3)
        } else {
            (6, 5)
        };
        let king_move = PieceMove {
            piece_type: PieceType::King,
            src_file: 4,
            src_rank: castle_rank,
            dst_file: king_to,
            dst_rank: castle_rank,
        };
        let rook_move = PieceMove {
            piece_type: PieceType::Rook,
            src_file: rook_file,
            src_rank: castle_rank,
            dst_file: rook_to,
            dst_rank: castle_rank,
        };
        let mut king = new_boxed_piece(player, PieceType::King, king_to, castle_rank);
        king.set_last_move(self.turn, king_move);
        let mut rook = new_boxed_piece(player, PieceType::Rook, rook_to, castle_rank);
        rook.set_last_move(self.turn, rook_move);
        let empty = Square::vacant();
        proof {
            let s0 = v.squares;
            let s1 = s0.update(index_of(4, castle_rank as int), empty);
            let s2 = s1.update(index_of(rook_file as int, castle_rank as int), empty);
            let s3 = s2.update(index_of(king_to as int, castle_rank as int), king);
            lemma_square_at_update(s0, 4, castle_rank as int, empty);
            lemma_square_at_update(s1, rook_file as int, castle_rank as int, empty);
            lemma_square_at_update(s2, king_to as int, castle_rank as int, king);
            lemma_square_at_update(s3, rook_to as int, castle_rank as int, rook);
        }
        scratch.squares[convert_position_1d(4, castle_rank)] = empty;
        scratch.squares[convert_position_1d(rook_file, castle_rank)] = empty;
        scratch.squares[convert_position_1d(king_to, castle_rank)] = king;
        scratch.squares[convert_position_1d(rook_to, castle_rank)] = rook;
        scratch.turn = self.turn + 1;
        match player {
            Player::White => scratch.white_king = (king_to, castle_rank),
            Player::Black => scratch.black_king = (king_to, castle_rank),
        }
        assert(scratch@.squares =~= castled(v, player, rook_file as int).squares);
        assert forall|f: int, r: int| on_board(f, r) implies sits_at(
            #[trigger] square_at(scratch@.squares, f, r),
            f,
            r,
        ) by {
            assert(sits_at(square_at(v.squares, f, r), f, r));
        }
        assert(scratch@ == castled(v, player, rook_file as int));
        let outcome = match scratch.judge_move(player, claim) {
            Err(err) => {
                return Err(err);
            },
            Ok(o) => o,
        };
        scratch.state = state_after_move(player, outcome);
        *self = scratch;
        Ok(outcome)
    }
}

} // verus!
