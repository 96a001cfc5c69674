use chess::board::{convert_position_1d, new_boxed_piece, Board};
use chess::game::{other_player, state_after_move, GameState, Player};
use chess::moves::{CheckMark, MoveError, MoveOutcome, PieceMove};
use chess::notation::parse_move_text;
use chess::pieces::{Piece, PieceType};

fn start() -> Board {
    let mut board = Board::new();
    board.reset_board();
    board
}

fn snapshot(board: &Board) -> String {
    format!(
        "{:?} {} {:?} {:?} {:?}",
        board.squares, board.turn, board.state, board.white_king, board.black_king
    )
}

fn kind_at(board: &Board, file: i8, rank: i8) -> PieceType {
    board.squares[convert_position_1d(file, rank)].get_type()
}

fn owner_at(board: &Board, file: i8, rank: i8) -> Option<Player> {
    board.squares[convert_position_1d(file, rank)].get_player()
}

#[test]
fn opening_moves_continue() {
    let mut board = start();
    assert_eq!(board.execute_notation(None, "e4"), Ok(MoveOutcome::Continue));
    assert_eq!(board.execute_notation(None, "e5"), Ok(MoveOutcome::Continue));
    assert_eq!(board.execute_notation(None, "Nf3"), Ok(MoveOutcome::Continue));
    assert_eq!(board.get_turn(), 3);
    assert_eq!(*board.get_state(), GameState::Playing(Player::Black));
    assert_eq!(kind_at(&board, 5, 2), PieceType::Knight);
    assert_eq!(kind_at(&board, 6, 0), PieceType::Empty);
}

#[test]
fn pawn_takes_pawn() {
    let mut board = start();
    assert_eq!(board.execute_notation(None, "e4"), Ok(MoveOutcome::Continue));
    assert_eq!(board.execute_notation(None, "d5"), Ok(MoveOutcome::Continue));
    assert_eq!(board.execute_notation(None, "exd5"), Ok(MoveOutcome::Continue));
    assert_eq!(kind_at(&board, 3, 4), PieceType::Pawn);
    assert_eq!(owner_at(&board, 3, 4), Some(Player::White));
    assert_eq!(kind_at(&board, 4, 3), PieceType::Empty);
}

#[test]
fn two_knights_are_ambiguous() {
    let mut board = start();
    board.clear_square(3, 1);
    board.place_piece(Player::White, PieceType::Knight, 3, 1);
    let before = snapshot(&board);
    assert_eq!(board.execute_notation(None, "Nf3"), Err(MoveError::AmbiguousMove));
    assert_eq!(snapshot(&board), before);
    // naming the file settles it
    assert_eq!(board.execute_notation(None, "Ngf3"), Ok(MoveOutcome::Continue));
    assert_eq!(kind_at(&board, 6, 0), PieceType::Empty);
    assert_eq!(kind_at(&board, 3, 1), PieceType::Knight);
}

#[test]
fn fools_mate() {
    let mut board = start();
    assert_eq!(board.execute_notation(None, "f3"), Ok(MoveOutcome::Continue));
    assert_eq!(board.execute_notation(None, "e5"), Ok(MoveOutcome::Continue));
    assert_eq!(board.execute_notation(None, "g4"), Ok(MoveOutcome::Continue));
    assert_eq!(board.execute_notation(None, "Qh4#"), Ok(MoveOutcome::Checkmate));
    assert_eq!(*board.get_state(), GameState::Won(Player::Black));
    assert_eq!(board.get_turn(), 4);
    // nothing more can be played
    assert_eq!(board.execute_notation(None, "a3"), Err(MoveError::InvalidMove));
}

#[test]
fn checkmate_without_mark() {
    let mut board = start();
    for mv in ["f3", "e5", "g4"] {
        assert_eq!(board.execute_notation(None, mv), Ok(MoveOutcome::Continue));
    }
    assert_eq!(board.execute_notation(None, "Qh4"), Ok(MoveOutcome::Checkmate));
}

#[test]
fn scholars_mate() {
    let mut board = start();
    for mv in ["e4", "e5", "Qh5", "Nc6", "Bc4", "Nf6"] {
        assert_eq!(board.execute_notation(None, mv), Ok(MoveOutcome::Continue));
    }
    assert_eq!(board.execute_notation(None, "Qxf7#"), Ok(MoveOutcome::Checkmate));
    assert_eq!(*board.get_state(), GameState::Won(Player::White));
}

#[test]
fn castling_blocked_by_own_pieces() {
    let mut board = start();
    let before = snapshot(&board);
    assert_eq!(board.execute_notation(None, "O-O"), Err(MoveError::InvalidMove));
    assert_eq!(board.execute_notation(None, "O-O-O"), Err(MoveError::InvalidMove));
    assert_eq!(snapshot(&board), before);
}

#[test]
fn castling_king_side() {
    let mut board = start();
    board.clear_square(5, 0);
    board.clear_square(6, 0);
    assert_eq!(board.execute_notation(None, "O-O"), Ok(MoveOutcome::Continue));
    assert_eq!(kind_at(&board, 6, 0), PieceType::King);
    assert_eq!(kind_at(&board, 5, 0), PieceType::Rook);
    assert_eq!(kind_at(&board, 4, 0), PieceType::Empty);
    assert_eq!(kind_at(&board, 7, 0), PieceType::Empty);
    assert_eq!(board.white_king, (6, 0));
    assert_eq!(board.get_turn(), 1);
    assert_eq!(*board.get_state(), GameState::Playing(Player::Black));
    // the castled king has now moved
    assert!(board.squares[convert_position_1d(6, 0)].get_last_move().is_some());
}

#[test]
fn castling_queen_side_for_black() {
    let mut board = start();
    board.clear_square(1, 7);
    board.clear_square(2, 7);
    board.clear_square(3, 7);
    board.set_state(GameState::Playing(Player::Black));
    assert_eq!(board.execute_notation(None, "O-O-O"), Ok(MoveOutcome::Continue));
    assert_eq!(kind_at(&board, 2, 7), PieceType::King);
    assert_eq!(kind_at(&board, 3, 7), PieceType::Rook);
    assert_eq!(board.black_king, (2, 7));
}

#[test]
fn castling_after_king_moved() {
    let mut board = start();
    board.clear_square(5, 0);
    board.clear_square(6, 0);
    board.clear_square(4, 1);
    for mv in ["Ke2", "a6", "Ke1", "a5"] {
        assert_eq!(board.execute_notation(None, mv), Ok(MoveOutcome::Continue));
    }
    assert_eq!(board.execute_notation(None, "O-O"), Err(MoveError::InvalidMove));
}

#[test]
fn castling_after_rook_moved() {
    let mut board = start();
    board.clear_square(5, 0);
    board.clear_square(6, 0);
    for mv in ["Rg1", "a6", "Rh1", "a5"] {
        assert_eq!(board.execute_notation(None, mv), Ok(MoveOutcome::Continue));
    }
    assert_eq!(board.execute_notation(None, "O-O"), Err(MoveError::InvalidMove));
}

#[test]
fn castling_through_attack() {
    let mut board = start();
    board.clear_square(5, 0);
    board.clear_square(6, 0);
    board.clear_square(5, 1);
    board.place_piece(Player::Black, PieceType::Rook, 5, 4);
    let before = snapshot(&board);
    assert_eq!(board.execute_notation(None, "O-O"), Err(MoveError::MoveIntoCheck));
    assert_eq!(snapshot(&board), before);
}

#[test]
fn castling_onto_attacked_square() {
    let mut board = start();
    board.clear_square(5, 0);
    board.clear_square(6, 0);
    board.clear_square(6, 1);
    board.place_piece(Player::Black, PieceType::Rook, 6, 4);
    assert_eq!(board.execute_notation(None, "O-O"), Err(MoveError::MoveIntoCheck));
}

#[test]
fn en_passant_only_right_after_the_advance() {
    let mut board = start();
    for mv in ["e4", "a6", "e5", "d5"] {
        assert_eq!(board.execute_notation(None, mv), Ok(MoveOutcome::Continue));
    }
    let mut later = board.clone();
    assert_eq!(board.execute_notation(None, "exd6"), Ok(MoveOutcome::Continue));
    assert_eq!(kind_at(&board, 3, 4), PieceType::Empty);
    assert_eq!(kind_at(&board, 3, 5), PieceType::Pawn);
    assert_eq!(owner_at(&board, 3, 5), Some(Player::White));

    // one ply later the chance is gone
    assert_eq!(later.execute_notation(None, "h3"), Ok(MoveOutcome::Continue));
    assert_eq!(later.execute_notation(None, "h6"), Ok(MoveOutcome::Continue));
    let pawn = &later.squares[convert_position_1d(4, 4)];
    assert_eq!(pawn.can_move(&later, 3, 5), false);
    assert_eq!(later.execute_notation(None, "exd6"), Err(MoveError::InvalidMove));
}

#[test]
fn attack_ignores_whose_turn_it_is() {
    let mut board = start();
    board.clear_square(3, 1);
    let mut other = board.clone();
    other.turn = 7;
    other.set_state(GameState::Playing(Player::Black));
    for file in 0..8 {
        for rank in 0..8 {
            let a = &board.squares[convert_position_1d(2, 0)];
            let b = &other.squares[convert_position_1d(2, 0)];
            assert_eq!(a.can_attack(&board, file, rank), b.can_attack(&other, file, rank));
            let n = &board.squares[convert_position_1d(6, 7)];
            assert_eq!(n.can_attack(&board, file, rank), n.can_attack(&other, file, rank));
        }
    }
}

#[test]
fn pinned_piece_cannot_move() {
    let mut board = start();
    board.clear_square(4, 1);
    board.clear_square(4, 6);
    board.place_piece(Player::White, PieceType::Knight, 4, 2);
    board.place_piece(Player::Black, PieceType::Rook, 4, 5);
    let before = snapshot(&board);
    assert_eq!(board.execute_notation(None, "Nf5"), Err(MoveError::MoveIntoCheck));
    assert_eq!(snapshot(&board), before);
    assert_eq!(board.get_turn(), 0);
}

#[test]
fn ply_advances_by_one() {
    let mut board = start();
    assert_eq!(board.execute_notation(None, "Nc3"), Ok(MoveOutcome::Continue));
    assert_eq!(board.get_turn(), 1);
    assert_eq!(board.execute_notation(None, "Ke7"), Err(MoveError::InvalidMove));
    assert_eq!(board.get_turn(), 1);
    assert_eq!(board.execute_notation(None, "Nc6"), Ok(MoveOutcome::Continue));
    assert_eq!(board.get_turn(), 2);
}

#[test]
fn bad_notation() {
    let mut board = start();
    assert_eq!(board.execute_notation(None, "Zz9"), Err(MoveError::InvalidNotation));
    assert_eq!(board.execute_notation(None, ""), Err(MoveError::InvalidNotation));
    assert_eq!(board.execute_notation(None, "e4e"), Err(MoveError::InvalidNotation));
    assert_eq!(board.execute_notation(None, "O-O-O-O"), Err(MoveError::InvalidNotation));
    assert_eq!(board.get_turn(), 0);
}

#[test]
fn capture_mark_must_match() {
    let mut board = start();
    assert_eq!(board.execute_notation(None, "Nxf3"), Err(MoveError::InvalidCapture));
    assert_eq!(board.execute_notation(None, "exe3"), Err(MoveError::InvalidCapture));
    assert_eq!(board.get_turn(), 0);
}

#[test]
fn check_mark_must_match() {
    let mut board = start();
    assert_eq!(board.execute_notation(None, "e4+"), Err(MoveError::InvalidCheck));
    assert_eq!(board.execute_notation(None, "e4#"), Err(MoveError::InvalidCheck));
    assert_eq!(board.get_turn(), 0);
    for mv in ["e4", "f5"] {
        assert_eq!(board.execute_notation(None, mv), Ok(MoveOutcome::Continue));
    }
    assert_eq!(board.execute_notation(None, "Qh5#"), Err(MoveError::InvalidCheck));
    assert_eq!(board.execute_notation(None, "Qh5+"), Ok(MoveOutcome::Continue));
}

#[test]
fn promotion_rules() {
    let mut board = Board::new();
    board.place_piece(Player::White, PieceType::King, 4, 0);
    board.place_piece(Player::Black, PieceType::King, 4, 7);
    board.place_piece(Player::White, PieceType::Pawn, 0, 6);
    assert_eq!(board.execute_notation(None, "a8"), Err(MoveError::InvalidPromotion));
    assert_eq!(board.execute_notation(None, "Kd1=Q"), Err(MoveError::InvalidPromotion));
    assert_eq!(board.execute_notation(None, "Kd2"), Ok(MoveOutcome::Continue));
    assert_eq!(board.execute_notation(None, "Kd7"), Ok(MoveOutcome::Continue));
    assert_eq!(board.execute_notation(None, "a8=Q"), Ok(MoveOutcome::Continue));
    assert_eq!(kind_at(&board, 0, 7), PieceType::Queen);
    assert_eq!(owner_at(&board, 0, 7), Some(Player::White));
}

#[test]
fn promotion_where_none_is_due() {
    let mut board = start();
    assert_eq!(board.execute_notation(None, "e4=Q"), Err(MoveError::InvalidPromotion));
}

#[test]
fn move_text_parts() {
    let n = parse_move_text("Nbd7").unwrap();
    assert_eq!(n.piece_type, PieceType::Knight);
    assert_eq!(n.src_file, Some(1));
    assert_eq!(n.src_rank, None);
    assert_eq!((n.dst_file, n.dst_rank), (3, 6));
    assert!(!n.capture);

    let n = parse_move_text("exd8=q#").unwrap();
    assert_eq!(n.piece_type, PieceType::Pawn);
    assert_eq!(n.src_file, Some(4));
    assert!(n.capture);
    assert_eq!((n.dst_file, n.dst_rank), (3, 7));
    assert_eq!(n.promotion, Some(PieceType::Queen));
    assert_eq!(n.check, CheckMark::Mate);

    let n = parse_move_text("R1a3+").unwrap();
    assert_eq!(n.piece_type, PieceType::Rook);
    assert_eq!(n.src_rank, Some(0));
    assert_eq!(n.check, CheckMark::Check);

    assert!(parse_move_text("xe4x").is_none());
    assert!(parse_move_text("e9").is_none());
    assert!(parse_move_text("Pe4").is_none());
}

#[test]
fn empty_board_and_indexing() {
    let board = Board::new();
    for i in 0..64 {
        assert_eq!(board.squares[i].get_type(), PieceType::Empty);
    }
    assert_eq!(board.get_turn(), 0);
    assert_eq!(*board.get_state(), GameState::Playing(Player::White));
    assert_eq!(convert_position_1d(0, 7), 0);
    assert_eq!(convert_position_1d(7, 0), 63);
    assert_eq!(convert_position_1d(4, 0), 60);
    assert_eq!(convert_position_1d(3, 5), 19);
}

#[test]
fn starting_position() {
    let board = start();
    assert_eq!(kind_at(&board, 3, 0), PieceType::Queen);
    assert_eq!(kind_at(&board, 4, 7), PieceType::King);
    assert_eq!(owner_at(&board, 4, 7), Some(Player::Black));
    assert_eq!(kind_at(&board, 6, 6), PieceType::Pawn);
    assert_eq!(kind_at(&board, 4, 4), PieceType::Empty);
    assert_eq!(board.white_king, (4, 0));
    assert_eq!(board.black_king, (4, 7));
}

#[test]
fn pieces_and_players() {
    assert_eq!(other_player(Player::White), Player::Black);
    assert_eq!(other_player(Player::Black), Player::White);
    assert_eq!(PieceType::from_char('N'), Ok(PieceType::Knight));
    assert_eq!(PieceType::from_char('K'), Ok(PieceType::King));
    assert_eq!(PieceType::from_char('x'), Ok(PieceType::Pawn));
    assert_eq!(new_boxed_piece(Player::Black, PieceType::Rook, 2, 3).get_type(), PieceType::Rook);
    assert_eq!(new_boxed_piece(Player::Black, PieceType::Empty, 2, 3).get_player(), None);
    assert_eq!(state_after_move(Player::White, MoveOutcome::Continue), GameState::Playing(Player::Black));
    assert_eq!(state_after_move(Player::White, MoveOutcome::Checkmate), GameState::Won(Player::White));
    assert_eq!(state_after_move(Player::Black, MoveOutcome::Draw), GameState::Draw);
}

#[test]
fn path_attack_queries() {
    let mut board = start();
    // the black pawns guard rank 5 (index 5) but no enemy reaches rank 2
    assert!(board.is_path_under_attack(Player::White, 0, 5, 7, 5));
    assert!(!board.is_path_under_attack(Player::White, 0, 2, 7, 2));
    // not a straight or diagonal path
    assert!(!board.is_path_under_attack(Player::White, 0, 5, 1, 7));
}

#[test]
fn legal_move_query() {
    let board = start();
    let mv = PieceMove { piece_type: PieceType::Knight, src_file: 6, src_rank: 0, dst_file: 5, dst_rank: 2 };
    assert!(board.piece_can_move(Player::White, mv));
    let mv = PieceMove { piece_type: PieceType::Knight, src_file: 6, src_rank: 0, dst_file: 6, dst_rank: 2 };
    assert!(!board.piece_can_move(Player::White, mv));
}

fn recomputed_king(board: &Board, player: Player) -> Option<(i8, i8)> {
    let mut found = None;
    for file in 0..8 {
        for rank in 0..8 {
            let sq = &board.squares[convert_position_1d(file, rank)];
            if sq.get_type() == PieceType::King && sq.get_player() == Some(player) {
                assert!(found.is_none(), "two kings of one side");
                found = Some((file, rank));
            }
        }
    }
    found
}

#[test]
fn king_cache_matches_board() {
    let mut board = start();
    assert_eq!(recomputed_king(&board, Player::White), Some(board.white_king));
    assert_eq!(recomputed_king(&board, Player::Black), Some(board.black_king));
    for mv in ["e4", "e5", "Nf3", "Nc6", "Bc4", "Bc5", "O-O", "Ke7", "Re1", "Kd6", "d4", "Kxd4"] {
        let before = snapshot(&board);
        match board.execute_notation(None, mv) {
            Ok(_) => {}
            Err(_) => assert_eq!(snapshot(&board), before),
        }
        assert_eq!(recomputed_king(&board, Player::White), Some(board.white_king));
        assert_eq!(recomputed_king(&board, Player::Black), Some(board.black_king));
    }
    assert_eq!(board.white_king, (6, 0));
}

#[test]
fn resignation_and_draw() {
    let playing = GameState::Playing(Player::White);
    assert_eq!(playing.after_resignation(), GameState::Won(Player::Black));
    assert_eq!(GameState::Playing(Player::Black).after_resignation(), GameState::Won(Player::White));
    assert_eq!(playing.after_draw_agreement(), GameState::Draw);
    // a finished game stays finished
    assert_eq!(GameState::Won(Player::White).after_resignation(), GameState::Won(Player::White));
    assert_eq!(GameState::Won(Player::Black).after_draw_agreement(), GameState::Won(Player::Black));
    assert_eq!(GameState::Draw.after_resignation(), GameState::Draw);

    let mut board = start();
    board.set_state(GameState::Draw);
    let before = snapshot(&board);
    assert_eq!(board.execute_notation(None, "e4"), Err(MoveError::InvalidMove));
    assert_eq!(board.execute_notation(Some(Player::White), "e4"), Err(MoveError::InvalidMove));
    assert_eq!(snapshot(&board), before);
}

#[test]
fn capture_without_mark_is_played() {
    let mut board = start();
    for mv in ["e4", "d5"] {
        assert_eq!(board.execute_notation(None, mv), Ok(MoveOutcome::Continue));
    }
    assert_eq!(board.execute_notation(None, "ed5"), Ok(MoveOutcome::Continue));
    assert_eq!(owner_at(&board, 3, 4), Some(Player::White));
    for mv in ["Nf6", "c4"] {
        assert_eq!(board.execute_notation(None, mv), Ok(MoveOutcome::Continue));
    }
    assert_eq!(board.execute_notation(None, "Nd5"), Ok(MoveOutcome::Continue));
    assert_eq!(owner_at(&board, 3, 4), Some(Player::Black));
    assert_eq!(kind_at(&board, 3, 4), PieceType::Knight);
}

#[test]
fn moving_out_of_turn_is_refused() {
    let mut board = start();
    let before = snapshot(&board);
    assert_eq!(board.execute_notation(Some(Player::Black), "Zz9"), Err(MoveError::InvalidMove));
    assert_eq!(board.execute_notation(Some(Player::Black), "e5"), Err(MoveError::InvalidMove));
    assert_eq!(snapshot(&board), before);
    assert_eq!(board.execute_notation(Some(Player::White), "e4"), Ok(MoveOutcome::Continue));
    assert_eq!(board.execute_notation(Some(Player::White), "d4"), Err(MoveError::InvalidMove));
    assert_eq!(board.execute_notation(Some(Player::Black), "e5"), Ok(MoveOutcome::Continue));
}

#[test]
fn a_king_is_never_taken() {
    let mut board = Board::new();
    board.place_piece(Player::White, PieceType::King, 0, 0);
    board.place_piece(Player::White, PieceType::Rook, 4, 1);
    board.place_piece(Player::Black, PieceType::King, 4, 7);
    let before = snapshot(&board);
    assert_eq!(board.execute_notation(None, "Rxe8"), Err(MoveError::InvalidMove));
    assert_eq!(board.execute_notation(None, "Re8"), Err(MoveError::InvalidMove));
    assert_eq!(snapshot(&board), before);
}

#[test]
fn castling_that_checks() {
    let mut board = Board::new();
    board.place_piece(Player::White, PieceType::King, 4, 0);
    board.place_piece(Player::White, PieceType::Rook, 7, 0);
    board.place_piece(Player::Black, PieceType::King, 5, 7);
    let mut marked_mate = board.clone();
    assert_eq!(marked_mate.execute_notation(None, "O-O#"), Err(MoveError::InvalidCheck));
    assert_eq!(marked_mate.get_turn(), 0);
    assert_eq!(board.execute_notation(None, "O-O+"), Ok(MoveOutcome::Continue));
    assert_eq!(kind_at(&board, 5, 0), PieceType::Rook);
    assert_eq!(*board.get_state(), GameState::Playing(Player::Black));
}

#[test]
fn castling_that_mates() {
    let mut board = Board::new();
    board.place_piece(Player::White, PieceType::King, 4, 0);
    board.place_piece(Player::White, PieceType::Rook, 7, 0);
    board.place_piece(Player::Black, PieceType::King, 5, 7);
    board.place_piece(Player::Black, PieceType::Rook, 4, 7);
    board.place_piece(Player::Black, PieceType::Pawn, 6, 7);
    board.place_piece(Player::Black, PieceType::Pawn, 4, 6);
    board.place_piece(Player::Black, PieceType::Pawn, 6, 6);
    assert_eq!(board.execute_notation(None, "O-O#"), Ok(MoveOutcome::Checkmate));
    assert_eq!(*board.get_state(), GameState::Won(Player::White));
    assert_eq!(board.get_turn(), 1);
    assert_eq!(board.white_king, (6, 0));
}

#[test]
fn castling_queries() {
    let mut board = start();
    assert_eq!(board.can_king_castle(0), Err(MoveError::InvalidMove));
    board.clear_square(5, 0);
    board.clear_square(6, 0);
    assert_eq!(board.can_king_castle(0), Ok(()));
    assert_eq!(board.can_castle(0, 7), Ok(()));
    assert_eq!(board.can_queen_castle(0), Err(MoveError::InvalidMove));
    assert_eq!(board.can_castle(3, 7), Err(MoveError::InvalidMove));
    board.clear_square(5, 1);
    board.place_piece(Player::Black, PieceType::Queen, 5, 3);
    assert_eq!(board.can_king_castle(0), Err(MoveError::MoveIntoCheck));
    // a king with a move on record may not castle
    let mut king = board.squares[convert_position_1d(4, 0)];
    king.set_last_move(0, PieceMove { piece_type: PieceType::King, src_file: 4, src_rank: 0, dst_file: 4, dst_rank: 0 });
    board.squares[convert_position_1d(4, 0)] = king;
    assert_eq!(board.can_king_castle(0), Err(MoveError::InvalidMove));
}
