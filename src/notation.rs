use vstd::prelude::*;

use crate::board::{on_board, scanned_before, square_at, Board, BoardView};
use crate::engine::{
    castle_outcome, castled, committed, kings_consistent, en_passant_capture, home_rank, move_on_board, move_outcome,
};
use crate::game::{state_after, GameState, Player};
use crate::moves::{CheckMark, MoveError, MoveOutcome, PieceMove};
use crate::pieces::{can_move_to, letter_kind, Piece, PieceType, Square};

verus! {

broadcast use vstd::seq_lib::lemma_seq_contains_after_push;

/// Move text taken apart: the piece, the optional source file and rank that
/// tell candidates apart, the capture mark, the destination, the optional
/// promotion, and the check or mate mark.
#[derive(Debug, Clone, Copy)]
pub struct Notation {
    pub piece_type: PieceType,
    pub src_file: Option<i8>,
    pub src_rank: Option<i8>,
    pub capture: bool,
    pub dst_file: i8,
    pub dst_rank: i8,
    pub promotion: Option<PieceType>,
    pub check: CheckMark,
}

pub open spec fn is_file_char(c: char) -> bool {
    'a' <= c <= 'h'
}

pub open spec fn is_rank_char(c: char) -> bool {
    '1' <= c <= '8'
}

pub open spec fn is_piece_char(c: char) -> bool {
    c == 'K' || c == 'Q' || c == 'R' || c == 'B' || c == 'N'
}

/// The piece a promotion letter names, in either case.
pub open spec fn promotion_kind(c: char) -> Option<PieceType> {
    if c == 'Q' || c == 'q' {
        Some(PieceType::Queen)
    } else if c == 'R' || c == 'r' {
        Some(PieceType::Rook)
    } else if c == 'B' || c == 'b' {
        Some(PieceType::Bishop)
    } else if c == 'N' || c == 'n' {
        Some(PieceType::Knight)
    } else {
        None
    }
}

/// The file (0 for a) that a file letter names.
pub open spec fn file_value(c: char) -> int {
    c as int - 'a' as int
}

/// The rank (0 for 1) that a rank digit names.
pub open spec fn rank_value(c: char) -> int {
    c as int - '1' as int
}

/// The check or mate mark that `s` ends with.
pub open spec fn check_mark(s: Seq<char>) -> CheckMark {
    if s.len() > 0 && s.last() == '+' {
        CheckMark::Check
    } else if s.len() > 0 && s.last() == '#' {
        CheckMark::Mate
    } else {
        CheckMark::Unmarked
    }
}

/// The promotion `=X` that the first `e` characters of `s` end with.
pub open spec fn promotion_suffix(s: Seq<char>, e: int) -> Option<PieceType> {
    if e >= 2 && s[e - 2] == '=' {
        promotion_kind(s[e - 1])
    } else {
        None
    }
}

/// Move text read from its end: `[+#]`, then `=X`, then the destination
/// file and rank, then `x`, then a source rank, a source file, and a piece
/// letter, each optional but the destination, and nothing before them.
pub open spec fn parse_text(s: Seq<char>) -> Option<Notation> {
    let check = check_mark(s);
    let e1 = if check == CheckMark::Unmarked {
        s.len() as int
    } else {
        s.len() - 1
    };
    let promotion = promotion_suffix(s, e1);
    let e2 = if promotion is Some {
        e1 - 2
    } else {
        e1
    };
    if e2 < 2 || !is_file_char(s[e2 - 2]) || !is_rank_char(s[e2 - 1]) {
        None
    } else {
        let e3 = e2 - 2;
        let capture = e3 > 0 && s[e3 - 1] == 'x';
        let e4 = if capture {
            e3 - 1
        } else {
            e3
        };
        let has_rank = e4 > 0 && is_rank_char(s[e4 - 1]);
        let e5 = if has_rank {
            e4 - 1
        } else {
            e4
        };
        let has_file = e5 > 0 && is_file_char(s[e5 - 1]);
        let e6 = if has_file {
            e5 - 1
        } else {
            e5
        };
        let has_piece = e6 > 0 && is_piece_char(s[e6 - 1]);
        let e7 = if has_piece {
            e6 - 1
        } else {
            e6
        };
        if e7 != 0 {
            None
        } else {
            Some(
                Notation {
                    piece_type: if has_piece {
                        letter_kind(s[e6 - 1])
                    } else {
                        PieceType::Pawn
                    },
                    src_file: if has_file {
                        Some(file_value(s[e5 - 1]) as i8)
                    } else {
                        None
                    },
                    src_rank: if has_rank {
                        Some(rank_value(s[e4 - 1]) as i8)
                    } else {
                        None
                    },
                    capture,
                    dst_file: file_value(s[e2 - 2]) as i8,
                    dst_rank: rank_value(s[e2 - 1]) as i8,
                    promotion,
                    check,
                },
            )
        }
    }
}

/// The letter of file `f` (a for 0).
pub open spec fn file_char(f: int) -> char {
    ('a' as int + f) as char
}

/// The digit of rank `r` (1 for 0).
pub open spec fn rank_char(r: int) -> char {
    ('1' as int + r) as char
}

/// The letter that names a piece in move text.
pub open spec fn piece_letter(k: PieceType) -> char {
    match k {
        PieceType::King => 'K',
        PieceType::Queen => 'Q',
        PieceType::Rook => 'R',
        PieceType::Bishop => 'B',
        PieceType::Knight => 'N',
        _ => 'P',
    }
}

/// A notation that move text can express: a real piece, coordinates on the
/// board, and a promotion, if any, to a queen, rook, bishop or knight.
pub open spec fn well_formed(n: Notation) -> bool {
    &&& n.piece_type != PieceType::Empty
    &&& (n.src_file matches Some(f) ==> 0 <= f < 8)
    &&& (n.src_rank matches Some(r) ==> 0 <= r < 8)
    &&& on_board(n.dst_file as int, n.dst_rank as int)
    &&& (n.promotion matches Some(k) ==> (k == PieceType::Queen || k == PieceType::Rook || k
        == PieceType::Bishop || k == PieceType::Knight))
}

/// What comes before the destination: piece letter, source file, source rank, capture mark.
pub open spec fn text_head(n: Notation) -> Seq<char> {
    let piece: Seq<char> = if n.piece_type == PieceType::Pawn {
        seq![]
    } else {
        seq![piece_letter(n.piece_type)]
    };
    let from_file: Seq<char> = match n.src_file {
        Some(f) => seq![file_char(f as int)],
        None => seq![],
    };
    let from_rank: Seq<char> = match n.src_rank {
        Some(r) => seq![rank_char(r as int)],
        None => seq![],
    };
    let takes: Seq<char> = if n.capture {
        seq!['x']
    } else {
        seq![]
    };
    piece + from_file + from_rank + takes
}

/// The destination and what follows it: promotion and check or mate mark.
pub open spec fn text_tail(n: Notation) -> Seq<char> {
    let promotion: Seq<char> = match n.promotion {
        Some(k) => seq!['=', piece_letter(k)],
        None => seq![],
    };
    let mark: Seq<char> = match n.check {
        CheckMark::Unmarked => seq![],
        CheckMark::Check => seq!['+'],
        CheckMark::Mate => seq!['#'],
    };
    seq![file_char(n.dst_file as int), rank_char(n.dst_rank as int)] + promotion + mark
}

/// The move text that spells `n`, with the promotion letter in upper case.
pub open spec fn notation_text(n: Notation) -> Seq<char> {
    text_head(n) + text_tail(n)
}

proof fn lemma_tail_reads_back(n: Notation)
    requires
        well_formed(n),
    ensures
        ({
            let t = text_tail(n);
            let e1 = if n.check == CheckMark::Unmarked {
                t.len() as int
            } else {
                t.len() - 1
            };
            &&& check_mark(t) == n.check
            &&& promotion_suffix(t, e1) == n.promotion
            &&& e1 - (if n.promotion is Some {
                2int
            } else {
                0int
            }) == 2
            &&& t[0] == file_char(n.dst_file as int)
            &&& t[1] == rank_char(n.dst_rank as int)
        }),
{
    let to: Seq<char> = seq![file_char(n.dst_file as int), rank_char(n.dst_rank as int)];
    let promotion: Seq<char> = match n.promotion {
        Some(k) => seq!['=', piece_letter(k)],
        None => seq![],
    };
    let mark: Seq<char> = match n.check {
        CheckMark::Unmarked => seq![],
        CheckMark::Check => seq!['+'],
        CheckMark::Mate => seq!['#'],
    };
    let tp = to + promotion;
    let t = tp + mark;
    assert(t == text_tail(n));
    assert(tp[0] == to[0] && tp[1] == to[1]);
    assert(t[0] == tp[0] && t[1] == tp[1]);
    assert(t.last() != '+' || mark.len() > 0);
    if promotion.len() > 0 {
        assert(tp[2] == '=' && tp[3] == promotion[1]);
        assert(t[2] == tp[2] && t[3] == tp[3]);
    }
}

proof fn lemma_head_reads_back(n: Notation)
    requires
        well_formed(n),
    ensures
        ({
            let h = text_head(n);
            let e3 = h.len() as int;
            let capture = e3 > 0 && h[e3 - 1] == 'x';
            let e4 = if capture {
                e3 - 1
            } else {
                e3
            };
            let has_rank = e4 > 0 && is_rank_char(h[e4 - 1]);
            let e5 = if has_rank {
                e4 - 1
            } else {
                e4
            };
            let has_file = e5 > 0 && is_file_char(h[e5 - 1]);
            let e6 = if has_file {
                e5 - 1
            } else {
                e5
            };
            let has_piece = e6 > 0 && is_piece_char(h[e6 - 1]);
            let e7 = if has_piece {
                e6 - 1
            } else {
                e6
            };
            &&& capture == n.capture
            &&& has_rank == n.src_rank is Some
            &&& has_rank ==> Some(rank_value(h[e4 - 1]) as i8) == n.src_rank
            &&& has_file == n.src_file is Some
            &&& has_file ==> Some(file_value(h[e5 - 1]) as i8) == n.src_file
            &&& has_piece == (n.piece_type != PieceType::Pawn)
            &&& has_piece ==> letter_kind(h[e6 - 1]) == n.piece_type
            &&& e7 == 0
        }),
{
    let piece: Seq<char> = if n.piece_type == PieceType::Pawn {
        seq![]
    } else {
        seq![piece_letter(n.piece_type)]
    };
    let from_file: Seq<char> = match n.src_file {
        Some(f) => seq![file_char(f as int)],
        None => seq![],
    };
    let from_rank: Seq<char> = match n.src_rank {
        Some(r) => seq![rank_char(r as int)],
        None => seq![],
    };
    let takes: Seq<char> = if n.capture {
        seq!['x']
    } else {
        seq![]
    };
    let h1 = piece;
    let h2 = h1 + from_file;
    let h3 = h2 + from_rank;
    let h = h3 + takes;
    assert(h == text_head(n));
    if from_file.len() > 0 {
        assert(h2[h1.len() as int] == from_file[0]);
    }
    if piece.len() > 0 {
        assert(h2[0] == piece[0]);
    }
    assert forall|i: int| 0 <= i < h2.len() implies #[trigger] h3[i] == h2[i] by {
    }
    assert forall|i: int| 0 <= i < h3.len() implies #[trigger] h[i] == h3[i] by {
    }
    if from_rank.len() > 0 {
        assert(h3[h2.len() as int] == from_rank[0]);
    }
    if takes.len() > 0 {
        assert(h[h3.len() as int] == 'x');
    }
}

/// Move text reads back as what it spells: every well-formed notation,
/// written out, parses to itself.
pub proof fn lemma_text_reads_back(n: Notation)
    requires
        well_formed(n),
    ensures
        parse_text(notation_text(n)) == Some(n),
{
    lemma_tail_reads_back(n);
    let h = text_head(n);
    let t = text_tail(n);
    let s = notation_text(n);
    assert(s == h + t);
    let hl = h.len() as int;
    assert forall|i: int| 0 <= i < t.len() implies s[hl + i] == #[trigger] t[i] by {
    }
    assert forall|i: int| 0 <= i < h.len() implies #[trigger] s[i] == h[i] by {
    }
    assert(h.len() + t.len() == s.len());
    assert(s[hl + 0] == t[0]);
    assert(s[hl + 1] == t[1]);
    if n.promotion is Some {
        assert(s[hl + 2] == t[2]);
        assert(s[hl + 3] == t[3]);
    }
    lemma_head_reads_back(n);
    assert(s.last() == t.last());
}

/// Whatever the grammar accepts is a well-formed notation, and no text that
/// spells a well-formed notation is refused.
pub proof fn lemma_grammar_refuses_no_spelled_move(s: Seq<char>)
    ensures
        parse_text(s) matches Some(n) ==> well_formed(n),
        parse_text(s) is None ==> forall|n: Notation| well_formed(n) ==> notation_text(n) != s,
{
    assert forall|n: Notation| well_formed(n) && parse_text(s) is None implies notation_text(n) != s by {
        lemma_text_reads_back(n);
    }
}

// convert a file letter (a-h) to its file (0-7)
fn convert_file(c: char) -> (r: i8)
    requires
        is_file_char(c),
    ensures
        r == file_value(c),
{
    (c as u32 - 'a' as u32) as i8
}

fn convert_rank(c: char) -> (r: i8)
    requires
        is_rank_char(c),
    ensures
        r == rank_value(c),
{
    (c as u32 - '1' as u32) as i8
}

fn promotion_letter(c: char) -> (r: Option<PieceType>)
    ensures
        r == promotion_kind(c),
{
    match c {
        'Q' | 'q' => Some(PieceType::Queen),
        'R' | 'r' => Some(PieceType::Rook),
        'B' | 'b' => Some(PieceType::Bishop),
        'N' | 'n' => Some(PieceType::Knight),
        _ => None,
    }
}

/// Takes move text apart, or gives `None` where it does not follow the grammar.
pub fn parse_move_text(text: &str) -> (r: Option<Notation>)
    ensures
        r == parse_text(text@),
{
    let ghost s = text@;
    let len = text.unicode_len();
    let mut end = len;
    let mut check = CheckMark::Unmarked;
    if end > 0 {
        let c = text.get_char(end - 1);
        if c == '+' {
            check = CheckMark::Check;
            end = end - 1;
        } else if c == '#' {
            check = CheckMark::Mate;
            end = end - 1;
        }
    }
    assert(check == check_mark(s));
    let mut promotion = None;
    if end >= 2 && text.get_char(end - 2) == '=' {
        promotion = promotion_letter(text.get_char(end - 1));
        if promotion.is_some() {
            end = end - 2;
        }
    }
    if end < 2 {
        return None;
    }
    let file_char = text.get_char(end - 2);
    let rank_char = text.get_char(end - 1);
    if !('a' <= file_char && file_char <= 'h') || !('1' <= rank_char && rank_char <= '8') {
        return None;
    }
    let dst_file = convert_file(file_char);
    let dst_rank = convert_rank(rank_char);
    end = end - 2;
    let capture = end > 0 && text.get_char(end - 1) == 'x';
    if capture {
        end = end - 1;
    }
    let mut src_rank = None;
    if end > 0 {
        let c = text.get_char(end - 1);
        if '1' <= c && c <= '8' {
            src_rank = Some(convert_rank(c));
            end = end - 1;
        }
    }
    let mut src_file = None;
    if end > 0 {
        let c = text.get_char(end - 1);
        if 'a' <= c && c <= 'h' {
            src_file = Some(convert_file(c));
            end = end - 1;
        }
    }
    let mut piece_type = PieceType::Pawn;
    if end > 0 {
        let c = text.get_char(end - 1);
        if c == 'K' || c == 'Q' || c == 'R' || c == 'B' || c == 'N' {
            piece_type = match PieceType::from_char(c) {
                Ok(k) => k,
                Err(_) => PieceType::Pawn,
            };
            end = end - 1;
        }
    }
    if end != 0 {
        return None;
    }
    Some(Notation { piece_type, src_file, src_rank, capture, dst_file, dst_rank, promotion, check })
}

/// The piece on (f, r) is one the move text may mean: `player`'s, of the
/// named kind, on any source file or rank the text gives, and able to move
/// to the destination.
pub open spec fn is_candidate(
    v: BoardView,
    player: Player,
    kind: PieceType,
    src_file: Option<i8>,
    src_rank: Option<i8>,
    df: int,
    dr: int,
    f: int,
    r: int,
) -> bool {
    let sq = square_at(v.squares, f, r);
    &&& on_board(f, r)
    &&& match src_file {
        Some(x) => x as int == f,
        None => true,
    }
    &&& match src_rank {
        Some(x) => x as int == r,
        None => true,
    }
    &&& sq.owner() == Some(player)
    &&& sq.kind() == kind
    &&& can_move_to(v, sq, df, dr)
}

pub open spec fn candidate_for(v: BoardView, player: Player, n: Notation, f: int, r: int) -> bool {
    is_candidate(v, player, n.piece_type, n.src_file, n.src_rank, n.dst_file as int, n.dst_rank as int, f, r)
}

/// `mv` takes a piece: one stands on its destination, or it is en passant.
pub open spec fn is_capture(v: BoardView, mv: PieceMove) -> bool {
    !square_at(v.squares, mv.dst_file as int, mv.dst_rank as int).is_vacant() || en_passant_capture(v, mv)
}

/// The rank on which `p`'s pawns promote.
pub open spec fn last_rank(p: Player) -> int {
    match p {
        Player::White => 7,
        Player::Black => 0,
    }
}

/// `mv` brings a pawn of `player` to its last rank.
pub open spec fn needs_promotion(v: BoardView, player: Player, mv: PieceMove) -> bool {
    square_at(v.squares, mv.src_file as int, mv.src_rank as int) is Pawn && mv.dst_rank as int == last_rank(player)
}

/// The move that the text means for `player`, or why there is none: no
/// candidate, more than one, a king standing on the destination, a capture
/// mark on a move that takes nothing,
/// or a promotion where none is due or none where one is due.
pub open spec fn resolve(v: BoardView, player: Player, n: Notation) -> Result<PieceMove, MoveError> {
    if !exists|f: int, r: int| #[trigger] candidate_for(v, player, n, f, r) {
        Err(MoveError::InvalidMove)
    } else if exists|f1: int, r1: int, f2: int, r2: int|
        #[trigger] candidate_for(v, player, n, f1, r1) && #[trigger] candidate_for(v, player, n, f2, r2)
            && (f1 != f2 || r1 != r2) {
        Err(MoveError::AmbiguousMove)
    } else {
        let (f, r) = choose|f: int, r: int| #[trigger] candidate_for(v, player, n, f, r);
        let mv = PieceMove {
            piece_type: n.piece_type,
            src_file: f as i8,
            src_rank: r as i8,
            dst_file: n.dst_file,
            dst_rank: n.dst_rank,
        };
        if square_at(v.squares, mv.dst_file as int, mv.dst_rank as int) is King {
            Err(MoveError::InvalidMove)
        } else if n.capture && !is_capture(v, mv) {
            Err(MoveError::InvalidCapture)
        } else if (n.promotion is Some) != needs_promotion(v, player, mv) {
            Err(MoveError::InvalidPromotion)
        } else {
            Ok(mv)
        }
    }
}

/// The squares of every piece that the move text may mean, in scan order.
fn get_piece_candidates(
    board: &Board,
    player: &Player,
    piece_type: &PieceType,
    src_file: Option<i8>,
    src_rank: Option<i8>,
    dst_file: i8,
    dst_rank: i8,
) -> (r: Vec<(i8, i8)>)
    requires
        board.wf(),
        on_board(dst_file as int, dst_rank as int),
    ensures
        forall|k: int|
            0 <= k < r.len() ==> is_candidate(
                board@,
                *player,
                *piece_type,
                src_file,
                src_rank,
                dst_file as int,
                dst_rank as int,
                r[k].0 as int,
                r[k].1 as int,
            ),
        forall|f: int, rk: int|
            #[trigger] is_candidate(board@, *player, *piece_type, src_file, src_rank, dst_file as int, dst_rank as int, f, rk)
                ==> r@.contains((f as i8, rk as i8)),
        forall|i: int, j: int| 0 <= i < j < r.len() ==> scanned_before(r[i], r[j]),
{
    let ghost v = board@;
    let mut candidates: Vec<(i8, i8)> = Vec::new();
    let mut f: i8 = 0;
    while f < 8
        invariant
            board.wf(),
            v == board@,
            0 <= f <= 8,
            on_board(dst_file as int, dst_rank as int),
            forall|k: int|
                0 <= k < candidates.len() ==> is_candidate(
                    v,
                    *player,
                    *piece_type,
                    src_file,
                    src_rank,
                    dst_file as int,
                    dst_rank as int,
                    candidates[k].0 as int,
                    candidates[k].1 as int,
                ) && candidates[k].0 < f,
            forall|ff: int, rk: int|
                ff < f && #[trigger] is_candidate(v, *player, *piece_type, src_file, src_rank, dst_file as int, dst_rank as int, ff, rk)
                    ==> candidates@.contains((ff as i8, rk as i8)),
            forall|i: int, j: int| 0 <= i < j < candidates.len() ==> scanned_before(candidates[i], candidates[j]),
        decreases 8 - f,
    {
        let mut r: i8 = 0;
        while r < 8
            invariant
                board.wf(),
                v == board@,
                0 <= f < 8,
                0 <= r <= 8,
                on_board(dst_file as int, dst_rank as int),
                forall|k: int|
                    0 <= k < candidates.len() ==> is_candidate(
                        v,
                        *player,
                        *piece_type,
                        src_file,
                        src_rank,
                        dst_file as int,
                        dst_rank as int,
                        candidates[k].0 as int,
                        candidates[k].1 as int,
                    ) && scanned_before(candidates[k], (f, r)),
                forall|ff: int, rk: int|
                    (ff < f || (ff == f && rk < r)) && #[trigger] is_candidate(
                        v,
                        *player,
                        *piece_type,
                        src_file,
                        src_rank,
                        dst_file as int,
                        dst_rank as int,
                        ff,
                        rk,
                    ) ==> candidates@.contains((ff as i8, rk as i8)),
                forall|i: int, j: int| 0 <= i < j < candidates.len() ==> scanned_before(candidates[i], candidates[j]),
            decreases 8 - r,
        {
            let wanted_file = match src_file {
                Some(sf) => sf == f,
                None => true,
            };
            let wanted_rank = match src_rank {
                Some(sr) => sr == r,
                None => true,
            };
            if wanted_file && wanted_rank {
                let candidate_square = board.square(f, r);
                if let Some(p) = candidate_square.get_player() {
                    if p == *player && candidate_square.get_type() == *piece_type {
                        if candidate_square.can_move(board, dst_file, dst_rank) {
                            candidates.push((f, r));
                        }
                    }
                }
            }
            assert(is_candidate(v, *player, *piece_type, src_file, src_rank, dst_file as int, dst_rank as int, f as int, r as int)
                ==> candidates@.contains((f, r)));
            r = r + 1;
        }
        f = f + 1;
    }
    candidates
}

/// Whether `mv` takes a piece.
fn captures(board: &Board, mv: PieceMove) -> (r: bool)
    requires
        board.wf(),
        move_on_board(mv),
    ensures
        r == is_capture(board@, mv),
{
    !matches!(board.square(mv.dst_file, mv.dst_rank), Square::Empty(_)) || board.is_en_passant(mv)
}

/// The move that `n` means for `player` on `board`.
#[verifier::rlimit(50)]
pub fn resolve_notation(board: &Board, player: &Player, n: &Notation) -> (r: Result<PieceMove, MoveError>)
    requires
        board.wf(),
        on_board(n.dst_file as int, n.dst_rank as int),
    ensures
        r == resolve(board@, *player, *n),
        r matches Ok(mv) ==> move_on_board(mv),
{
    let ghost v = board@;
    let candidates = get_piece_candidates(
        board,
        player,
        &n.piece_type,
        n.src_file,
        n.src_rank,
        n.dst_file,
        n.dst_rank,
    );
    if candidates.len() == 0 {
        assert forall|f: int, r: int| !#[trigger] candidate_for(v, *player, *n, f, r) by {
            if candidate_for(v, *player, *n, f, r) {
                assert(candidates@.contains((f as i8, r as i8)));
            }
        }
        return Err(MoveError::InvalidMove);
    }
    assert(candidate_for(v, *player, *n, candidates[0].0 as int, candidates[0].1 as int));
    if candidates.len() > 1 {
        assert(scanned_before(candidates[0], candidates[1]));
        assert(candidate_for(v, *player, *n, candidates[1].0 as int, candidates[1].1 as int));
        return Err(MoveError::AmbiguousMove);
    }
    let (f, r) = candidates[0];
    assert forall|f1: int, r1: int, f2: int, r2: int|
        #[trigger] candidate_for(v, *player, *n, f1, r1) && #[trigger] candidate_for(v, *player, *n, f2, r2)
            implies f1 == f2 && r1 == r2 by {
        assert(candidates@.contains((f1 as i8, r1 as i8)));
        assert(candidates@.contains((f2 as i8, r2 as i8)));
    }
    let mv = PieceMove {
        piece_type: n.piece_type,
        src_file: f,
        src_rank: r,
        dst_file: n.dst_file,
        dst_rank: n.dst_rank,
    };
    // a king is never taken: the game ends with checkmate before that
    if matches!(board.square(n.dst_file, n.dst_rank), Square::King(_)) {
        return Err(MoveError::InvalidMove);
    }
    if n.capture && !captures(board, mv) {
        return Err(MoveError::InvalidCapture);
    }
    let promotes = matches!(board.square(f, r), Square::Pawn(_)) && n.dst_rank == match *player {
        Player::White => 7,
        Player::Black => 0,
    };
    if n.promotion.is_some() != promotes {
        return Err(MoveError::InvalidPromotion);
    }
    Ok(mv)
}

/// The move that `notation` means for `player` on `board`, or why there is none.
pub fn parse_notation(board: &Board, player: &Player, notation: &str) -> (r: Result<PieceMove, MoveError>)
    requires
        board.wf(),
    ensures
        r == match parse_text(notation@) {
            None => Err(MoveError::InvalidNotation),
            Some(n) => resolve(board@, *player, n),
        },
{
    match parse_move_text(notation) {
        None => Err(MoveError::InvalidNotation),
        Some(n) => resolve_notation(board, player, &n),
    }
}

/// The castling that `s` spells, as its rook file and check or mate mark:
/// `O-O` king side, `O-O-O` queen side, either followed by `+` or `#`.
pub open spec fn castle_text(s: Seq<char>) -> Option<(i8, CheckMark)> {
    let mark = check_mark(s);
    let body = if mark == CheckMark::Unmarked {
        s
    } else {
        s.drop_last()
    };
    if body == seq!['O', '-', 'O'] {
        Some((7i8, mark))
    } else if body == seq!['O', '-', 'O', '-', 'O'] {
        Some((0i8, mark))
    } else {
        None
    }
}

fn castle_rook_file(text: &str) -> (r: Option<(i8, CheckMark)>)
    ensures
        r == castle_text(text@),
{
    let ghost s = text@;
    let len = text.unicode_len();
    let mut end = len;
    let mut mark = CheckMark::Unmarked;
    if end > 0 {
        let c = text.get_char(end - 1);
        if c == '+' {
            mark = CheckMark::Check;
            end = end - 1;
        } else if c == '#' {
            mark = CheckMark::Mate;
            end = end - 1;
        }
    }
    let ghost body = if mark == CheckMark::Unmarked {
        s
    } else {
        s.drop_last()
    };
    assert(mark == check_mark(s));
    assert(body.len() == end);
    assert(forall|i: int| 0 <= i < end ==> body[i] == s[i]);
    if end == 3 {
        if text.get_char(0) == 'O' && text.get_char(1) == '-' && text.get_char(2) == 'O' {
            assert(body =~= seq!['O', '-', 'O']);
            return Some((7, mark));
        }
        assert(body != seq!['O', '-', 'O']);
    } else if end == 5 {
        if text.get_char(0) == 'O' && text.get_char(1) == '-' && text.get_char(2) == 'O' && text.get_char(3)
            == '-' && text.get_char(4) == 'O' {
            assert(body =~= seq!['O', '-', 'O', '-', 'O']);
            return Some((0, mark));
        }
        assert(body != seq!['O', '-', 'O', '-', 'O']);
    }
    assert(body.len() != 3 || body != seq!['O', '-', 'O']);
    assert(body.len() != 5 || body != seq!['O', '-', 'O', '-', 'O']);
    None
}

/// The side that moves: the side whose turn it is, if the caller names no
/// side or names that one; nobody if another side is named or the game is over.
pub open spec fn actor(v: BoardView, player: Option<Player>) -> Option<Player> {
    match v.state {
        GameState::Playing(p) => match player {
            Some(q) => if q == p {
                Some(p)
            } else {
                None
            },
            None => Some(p),
        },
        _ => None,
    }
}

/// What playing the move text gives.
pub open spec fn play_result(v: BoardView, player: Option<Player>, text: Seq<char>) -> Result<
    MoveOutcome,
    MoveError,
> {
    match actor(v, player) {
        None => Err(MoveError::InvalidMove),
        Some(p) => match castle_text(text) {
            Some((rook_file, claim)) => castle_outcome(v, p, rook_file as int, claim),
            None => match parse_text(text) {
                None => Err(MoveError::InvalidNotation),
                Some(n) => match resolve(v, p, n) {
                    Err(e) => Err(e),
                    Ok(mv) => move_outcome(v, p, mv, n.promotion, n.check),
                },
            },
        },
    }
}

/// The board after playing the move text; unchanged if it was refused.
pub open spec fn play_board(v: BoardView, player: Option<Player>, text: Seq<char>) -> BoardView {
    match play_result(v, player, text) {
        Err(_) => v,
        Ok(outcome) => {
            let p = actor(v, player)->Some_0;
            match castle_text(text) {
                Some((rook_file, _)) => BoardView {
                    state: state_after(p, outcome),
                    ..castled(v, p, rook_file as int)
                },
                None => {
                    let n = parse_text(text)->Some_0;
                    committed(v, p, resolve(v, p, n)->Ok_0, n.promotion, outcome)
                },
            }
        },
    }
}

impl Board {
    /// Plays the move that `notation` describes for the side whose turn it
    /// is; naming another side, or playing on after the game is over, is
    /// refused as an invalid move. A refused move leaves the board exactly as
    /// it was; a move that stands advances the ply counter by one.
    pub fn execute_notation(&mut self, player: Option<Player>, notation: &str) -> (r: Result<
        MoveOutcome,
        MoveError,
    >)
        requires
            old(self).wf(),
            old(self).turn < i32::MAX,
        ensures
            r == play_result(old(self)@, player, notation@),
            final(self)@ == play_board(old(self)@, player, notation@),
            r is Err ==> *final(self) == *old(self),
            r is Ok ==> final(self).turn == old(self).turn + 1,
            final(self).wf(),
            kings_consistent(old(self)@) ==> kings_consistent(final(self)@),
    {
        proof {
            if kings_consistent(self@) {
                crate::laws::lemma_king_cache_kept(self@, player, notation@);
            }
        }
        let player = match self.state {
            GameState::Playing(p) => match player {
                Some(q) => {
                    if q != p {
                        return Err(MoveError::InvalidMove);
                    }
                    p
                },
                None => p,
            },
            _ => {
                return Err(MoveError::InvalidMove);
            },
        };
        if let Some((rook_file, claim)) = castle_rook_file(notation) {
            return self.castle(player, rook_file, claim);
        }
        match parse_move_text(notation) {
            None => Err(MoveError::InvalidNotation),
            Some(n) => match resolve_notation(self, &player, &n) {
                Err(e) => Err(e),
                Ok(mv) => self.execute_move(player, mv, n.promotion, n.check),
            },
        }
    }
}

} // verus!
