use vstd::prelude::*;

use crate::board::{home_square, index_of, lemma_square_at_update, on_board, square_at, BoardView};
use crate::engine::{
    advanced, apply, attacks_king_from, king_cached, kings_consistent, castle_check, castle_lane_clear, castle_pieces_unmoved, castled,
    en_passant_capture, home_rank, in_check, king_transit_end, move_on_board, path_under_attack, relocated,
};
use crate::game::{GameState, Player};
use crate::moves::{CheckMark, PieceMove};
use crate::notation::{actor, candidate_for, castle_text, check_mark, parse_text, play_board, play_result, resolve};
use crate::pieces::empty::Empty;
use crate::pieces::pawn::Pawn;
use crate::pieces::{abs, attacks, can_move_to, passed_pawn, pawn_reach, PieceType, Square};

verus! {

/// A refused move changes nothing: the board after it, squares and king
/// cache included, is the board before it.
pub proof fn lemma_refused_move_changes_nothing(v: BoardView, player: Option<Player>, text: Seq<char>)
    requires
        v.wf(),
    ensures
        play_result(v, player, text) is Err ==> play_board(v, player, text) == v,
{
}

/// The ply counter advances by exactly one on every move that stands and
/// stays where it was on every move that is refused.
pub proof fn lemma_ply_advances_by_one(v: BoardView, player: Option<Player>, text: Seq<char>)
    requires
        v.wf(),
    ensures
        play_result(v, player, text) is Ok ==> play_board(v, player, text).turn == v.turn + 1,
        play_result(v, player, text) is Err ==> play_board(v, player, text).turn == v.turn,
{
}

/// Whether a piece attacks a square, and whether a king stands in check,
/// depends on where the pieces stand and not on the ply count or on whose
/// turn it is.
pub proof fn lemma_attack_ignores_turn(v1: BoardView, v2: BoardView, af: int, ar: int, f: int, r: int, p: Player)
    requires
        v1.squares == v2.squares,
    ensures
        attacks(v1.squares, square_at(v1.squares, af, ar), f, r) == attacks(
            v2.squares,
            square_at(v2.squares, af, ar),
            f,
            r,
        ),
        v1.king_of(p) == v2.king_of(p) ==> in_check(v1, p) == in_check(v2, p),
{
    if v1.king_of(p) == v2.king_of(p) {
        assert forall|ff: int, rr: int| attacks_king_from(v1, p, ff, rr) == attacks_king_from(v2, p, ff, rr) by {
        }
        if in_check(v1, p) {
            let (ff, rr) = choose|ff: int, rr: int| on_board(ff, rr) && #[trigger] attacks_king_from(v1, p, ff, rr);
            assert(attacks_king_from(v2, p, ff, rr));
        }
        if in_check(v2, p) {
            let (ff, rr) = choose|ff: int, rr: int| on_board(ff, rr) && #[trigger] attacks_king_from(v2, p, ff, rr);
            assert(attacks_king_from(v1, p, ff, rr));
        }
    }
}

/// A pawn may step diagonally onto an empty square only to take en passant
/// the enemy pawn beside it, and only on the ply right after that pawn's
/// two-square advance; one ply later the same step is not allowed.
pub proof fn lemma_en_passant_window(v: BoardView, pawn: Pawn, f: int, r: int)
    requires
        v.wf(),
        on_board(f, r),
        f != pawn.data.file,
        square_at(v.squares, f, r).is_vacant(),
    ensures
        can_move_to(v, Square::Pawn(pawn), f, r) <==> pawn_reach(pawn.data, f, r) && passed_pawn(
            v,
            pawn.data.player,
            f,
            pawn.data.rank as int,
        ),
        can_move_to(v, Square::Pawn(pawn), f, r) ==> match square_at(
            v.squares,
            f,
            pawn.data.rank as int,
        ).last_move() {
            Some((t, m)) => t == v.turn - 1 && abs(m.src_rank - m.dst_rank) == 2,
            None => false,
        },
        can_move_to(v, Square::Pawn(pawn), f, r) ==> !can_move_to(
            BoardView { turn: v.turn + 1, ..v },
            Square::Pawn(pawn),
            f,
            r,
        ),
{
}

/// Castling is allowed exactly when the king and the rook have never moved,
/// every square between them is empty, and no square the king starts on,
/// crosses or lands on is attacked; each of these alone can forbid it.
pub proof fn lemma_castling_preconditions(v: BoardView, player: Player, rook_file: int)
    requires
        v.wf(),
        rook_file == 0 || rook_file == 7,
    ensures
        castle_check(v, home_rank(player), rook_file) is Ok <==> {
            &&& castle_pieces_unmoved(v, player, home_rank(player), rook_file)
            &&& castle_lane_clear(v, home_rank(player), rook_file)
            &&& !path_under_attack(
                v,
                player,
                4,
                home_rank(player),
                king_transit_end(rook_file),
                home_rank(player),
            )
        },
        v.state == GameState::Playing(player) ==> (play_result(v, None, seq!['O', '-', 'O']) is Ok
            <==> castle_check(v, home_rank(player), 7) is Ok),
        v.state == GameState::Playing(player) ==> (play_result(v, None, seq!['O', '-', 'O', '-', 'O']) is Ok
            <==> castle_check(v, home_rank(player), 0) is Ok),
{
    let short = seq!['O', '-', 'O'];
    let long = seq!['O', '-', 'O', '-', 'O'];
    assert(check_mark(short) == CheckMark::Unmarked);
    assert(check_mark(long) == CheckMark::Unmarked);
    assert(castle_text(short) == Some((7i8, CheckMark::Unmarked)));
    assert(long != short) by {
        assert(long.len() != short.len());
    }
    assert(castle_text(long) == Some((0i8, CheckMark::Unmarked)));
}

/// A finished game stays finished: every move is refused with the board
/// unchanged, and neither resignation nor a draw agreement changes the state.
pub proof fn lemma_finished_game_stays(v: BoardView, player: Option<Player>, text: Seq<char>)
    requires
        v.wf(),
        v.state.is_terminal(),
    ensures
        play_result(v, player, text) == Err::<crate::moves::MoveOutcome, crate::moves::MoveError>(
            crate::moves::MoveError::InvalidMove,
        ),
        play_board(v, player, text) == v,
{
}

proof fn lemma_apply_keeps_kings(v: BoardView, mv: PieceMove, promotion: Option<PieceType>, p: Player)
    requires
        v.wf(),
        kings_consistent(v),
        move_on_board(mv),
        square_at(v.squares, mv.src_file as int, mv.src_rank as int).owner() == Some(p),
        square_at(v.squares, mv.dst_file as int, mv.dst_rank as int).owner() != Some(p),
        !(square_at(v.squares, mv.dst_file as int, mv.dst_rank as int) is King),
        promotion is Some ==> square_at(v.squares, mv.src_file as int, mv.src_rank as int) is Pawn,
        promotion != Some(PieceType::King),
    ensures
        kings_consistent(apply(v, mv, promotion)),
{
    let src = (mv.src_file as int, mv.src_rank as int);
    let dst = (mv.dst_file as int, mv.dst_rank as int);
    let ep = (mv.dst_file as int, mv.src_rank as int);
    let empty = Square::Empty(Empty {  });
    let mover = square_at(v.squares, src.0, src.1);
    let lifted = v.squares.update(index_of(src.0, src.1), empty);
    let taken = if en_passant_capture(v, mv) {
        lifted.update(index_of(ep.0, ep.1), empty)
    } else {
        lifted
    };
    lemma_square_at_update(v.squares, src.0, src.1, empty);
    lemma_square_at_update(lifted, ep.0, ep.1, empty);
    lemma_square_at_update(taken, dst.0, dst.1, relocated(mover, dst.0, dst.1, promotion));
    let a = apply(v, mv, promotion);
    assert(a.squares == taken.update(index_of(dst.0, dst.1), relocated(mover, dst.0, dst.1, promotion)));
    assert forall|q: Player| #[trigger] king_cached(a, q) by {
        let k = v.king_of(q);
        let k2 = a.king_of(q);
        assert(square_at(v.squares, k.0, k.1) is King);
        if en_passant_capture(v, mv) {
            assert(square_at(v.squares, ep.0, ep.1) is Pawn);
        }
        if mover is King && q == p {
            assert(src == k);
            assert(k2 == dst);
            assert forall|f: int, r: int|
                on_board(f, r) && (#[trigger] square_at(a.squares, f, r)) is King && square_at(a.squares, f, r).owner()
                    == Some(q) implies f == k2.0 && r == k2.1 by {
                if (f, r) != dst && (f, r) != src && !(en_passant_capture(v, mv) && (f, r) == ep) {
                    assert(square_at(a.squares, f, r) == square_at(v.squares, f, r));
                }
            }
        } else {
            assert(k2 == k);
            assert(k != src);
            assert(k != dst);
            assert(square_at(a.squares, k.0, k.1) == square_at(v.squares, k.0, k.1));
            assert forall|f: int, r: int|
                on_board(f, r) && (#[trigger] square_at(a.squares, f, r)) is King && square_at(a.squares, f, r).owner()
                    == Some(q) implies f == k2.0 && r == k2.1 by {
                if (f, r) != dst && (f, r) != src && !(en_passant_capture(v, mv) && (f, r) == ep) {
                    assert(square_at(a.squares, f, r) == square_at(v.squares, f, r));
                }
            }
        }
    }
    assert(king_cached(a, Player::White));
    assert(king_cached(a, Player::Black));
}

proof fn lemma_stamp_keeps_kings(a: BoardView, f: int, r: int, turn: i32, mv: PieceMove)
    requires
        a.wf(),
        kings_consistent(a),
        on_board(f, r),
    ensures
        kings_consistent(
            BoardView {
                squares: a.squares.update(index_of(f, r), a.squares[index_of(f, r)].stamped(turn, mv)),
                ..a
            },
        ),
{
    let sq = a.squares[index_of(f, r)];
    let b = BoardView { squares: a.squares.update(index_of(f, r), sq.stamped(turn, mv)), ..a };
    lemma_square_at_update(a.squares, f, r, sq.stamped(turn, mv));
    assert(sq.stamped(turn, mv).kind() == sq.kind());
    assert(sq.stamped(turn, mv).owner() == sq.owner());
    assert forall|q: Player| #[trigger] king_cached(b, q) by {
        let k = a.king_of(q);
        assert(square_at(a.squares, k.0, k.1) is King);
        assert forall|ff: int, rr: int|
            on_board(ff, rr) && (#[trigger] square_at(b.squares, ff, rr)) is King && square_at(b.squares, ff, rr).owner()
                == Some(q) implies ff == k.0 && rr == k.1 by {
            assert(square_at(a.squares, ff, rr) is King);
        }
    }
    assert(king_cached(b, Player::White));
    assert(king_cached(b, Player::Black));
}

proof fn lemma_castle_keeps_kings(v: BoardView, p: Player, rook_file: int)
    requires
        v.wf(),
        kings_consistent(v),
        rook_file == 0 || rook_file == 7,
        castle_check(v, home_rank(p), rook_file) is Ok,
    ensures
        kings_consistent(castled(v, p, rook_file)),
{
    let rank = home_rank(p);
    let king_to = if rook_file == 0 {
        2int
    } else {
        6int
    };
    let rook_to = if rook_file == 0 {
        3int
    } else {
        5int
    };
    let c = castled(v, p, rook_file);
    let empty = Square::Empty(Empty {  });
    let s1 = v.squares.update(index_of(4, rank), empty);
    let s2 = s1.update(index_of(rook_file, rank), empty);
    let s3 = s2.update(index_of(king_to, rank), c.squares[index_of(king_to, rank)]);
    lemma_square_at_update(v.squares, 4, rank, empty);
    lemma_square_at_update(s1, rook_file, rank, empty);
    lemma_square_at_update(s2, king_to, rank, c.squares[index_of(king_to, rank)]);
    lemma_square_at_update(s3, rook_to, rank, c.squares[index_of(rook_to, rank)]);
    assert(square_at(v.squares, king_to, rank).is_vacant());
    assert(square_at(v.squares, rook_to, rank).is_vacant());
    assert(square_at(v.squares, 4, rank) is King);
    assert(v.king_of(p) == (4int, rank));
    assert forall|q: Player| #[trigger] king_cached(c, q) by {
        let k = v.king_of(q);
        assert(square_at(v.squares, k.0, k.1) is King);
        assert forall|f: int, r: int|
            on_board(f, r) && (#[trigger] square_at(c.squares, f, r)) is King && square_at(c.squares, f, r).owner()
                == Some(q) implies f == c.king_of(q).0 && r == c.king_of(q).1 by {
            if (f, r) != (king_to, rank) && (f, r) != (rook_to, rank) && (f, r) != (4int, rank) && (f, r) != (
            rook_file, rank) {
                assert(square_at(c.squares, f, r) == square_at(v.squares, f, r));
            }
        }
    }
    assert(king_cached(c, Player::White));
    assert(king_cached(c, Player::Black));
}

/// Every move that stands keeps the king cache exact: each side still has
/// exactly one king, on the cached square.
pub proof fn lemma_king_cache_kept(v: BoardView, player: Option<Player>, text: Seq<char>)
    requires
        v.wf(),
        kings_consistent(v),
    ensures
        kings_consistent(play_board(v, player, text)),
{
    if play_result(v, player, text) is Ok {
        let p = actor(v, player)->Some_0;
        match castle_text(text) {
            Some((rook_file, claim)) => {
                lemma_castle_keeps_kings(v, p, rook_file as int);
            },
            None => {
                let n = parse_text(text)->Some_0;
                let mv = resolve(v, p, n)->Ok_0;
                let (f, r) = choose|f: int, r: int| #[trigger] candidate_for(v, p, n, f, r);
                assert(candidate_for(v, p, n, f, r));
                let sq = square_at(v.squares, f, r);
                let target = square_at(v.squares, mv.dst_file as int, mv.dst_rank as int);
                assert(mv.src_file as int == f && mv.src_rank as int == r);
                assert(n.promotion != Some(PieceType::King));
                lemma_apply_keeps_kings(v, mv, n.promotion, p);
                let a = apply(v, mv, n.promotion);
                crate::engine::lemma_apply_wf(v, mv, n.promotion);
                lemma_stamp_keeps_kings(a, mv.dst_file as int, mv.dst_rank as int, v.turn as i32, mv);
            },
        }
    }
}

/// The starting position, as `reset_board` sets it up, has its king cache exact.
pub proof fn lemma_start_kings_consistent(v: BoardView)
    requires
        v.squares.len() == 64,
        forall|f: int, r: int| on_board(f, r) ==> #[trigger] square_at(v.squares, f, r) == home_square(f, r),
        v.white_king == (4int, 0int),
        v.black_king == (4int, 7int),
    ensures
        kings_consistent(v),
{
    assert(square_at(v.squares, 4, 0) == home_square(4, 0));
    assert(square_at(v.squares, 4, 7) == home_square(4, 7));
}

/// A piece move that stands never leaves the mover's own king in check.
pub proof fn lemma_standing_move_leaves_king_safe(v: BoardView, player: Option<Player>, text: Seq<char>)
    requires
        v.wf(),
    ensures
        play_result(v, player, text) is Ok && castle_text(text) is None ==> !in_check(
            play_board(v, player, text),
            actor(v, player)->Some_0,
        ),
{
    if play_result(v, player, text) is Ok && castle_text(text) is None {
        let p = actor(v, player)->Some_0;
        let n = parse_text(text)->Some_0;
        let mv = resolve(v, p, n)->Ok_0;
        let b = advanced(v, mv, n.promotion);
        lemma_attack_ignores_turn(play_board(v, player, text), b, 0, 0, 0, 0, p);
    }
}

} // verus!
