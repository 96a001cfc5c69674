use chess::board::{convert_position_1d, Board};
use chess::game::Player;
use chess::pieces::{Piece, PieceType};

fn start() -> Board {
    let mut board = Board::new();
    board.reset_board();
    board
}

// ensure bishop can move freely along diagonal
#[test]
fn bishop_move() {
    let mut board = start();

    board.clear_square(3, 1);
    let bishop = &board.squares[convert_position_1d(2, 0)];
    assert_eq!(bishop.get_type(), PieceType::Bishop);
    assert_eq!(bishop.can_move(&board, 3, 1), true);
    assert_eq!(bishop.can_move(&board, 3, 2), false);
    assert_eq!(bishop.can_move(&board, 4, 2), true);
    assert_eq!(bishop.can_move(&board, 5, 3), true);
    assert_eq!(bishop.can_move(&board, 6, 4), true);
    assert_eq!(bishop.can_move(&board, 6, 5), false);
    assert_eq!(bishop.can_move(&board, 7, 5), true);
}

// ensure bishop cannot move past any piece or into ally occupied square
#[test]
fn bishop_move_blocked() {
    let mut board = start();

    let bishop = &board.squares[convert_position_1d(2, 0)];
    assert_eq!(bishop.get_type(), PieceType::Bishop);
    assert_eq!(bishop.can_move(&board, 3, 1), false);

    board.clear_square(3, 1);
    let bishop = &board.squares[convert_position_1d(2, 0)];
    assert_eq!(bishop.get_type(), PieceType::Bishop);
    assert_eq!(bishop.can_move(&board, 3, 1), true);
    assert_eq!(bishop.can_move(&board, 4, 2), true);
    assert_eq!(bishop.can_move(&board, 5, 3), true);
    assert_eq!(bishop.can_move(&board, 6, 4), true);
    assert_eq!(bishop.can_move(&board, 7, 5), true);

    board.place_piece(Player::White, PieceType::Pawn, 6, 4);
    let bishop = &board.squares[convert_position_1d(2, 0)];
    assert_eq!(bishop.get_type(), PieceType::Bishop);
    assert_eq!(bishop.can_move(&board, 3, 1), true);
    assert_eq!(bishop.can_move(&board, 3, 2), false);
    assert_eq!(bishop.can_move(&board, 4, 2), true);
    assert_eq!(bishop.can_move(&board, 5, 3), true);
    assert_eq!(bishop.can_move(&board, 6, 4), false);
    assert_eq!(bishop.can_move(&board, 7, 5), false);

    board.place_piece(Player::Black, PieceType::Pawn, 6, 4);
    let bishop = &board.squares[convert_position_1d(2, 0)];
    assert_eq!(bishop.get_type(), PieceType::Bishop);
    assert_eq!(bishop.can_move(&board, 3, 1), true);
    assert_eq!(bishop.can_move(&board, 3, 2), false);
    assert_eq!(bishop.can_move(&board, 4, 2), true);
    assert_eq!(bishop.can_move(&board, 5, 3), true);
    assert_eq!(bishop.can_move(&board, 6, 4), true);
    assert_eq!(bishop.can_move(&board, 7, 5), false);
}

// ensure bishop can capture enemy piece
#[test]
fn bishop_capture() {
    let mut board = start();

    board.clear_square(3, 1);
    board.place_piece(Player::Black, PieceType::Pawn, 6, 4);
    board.place_piece(Player::Black, PieceType::Pawn, 7, 5);
    let bishop = &board.squares[convert_position_1d(2, 0)];
    assert_eq!(bishop.get_type(), PieceType::Bishop);
    assert_eq!(bishop.can_move(&board, 6, 4), true);
    assert_eq!(bishop.can_move(&board, 7, 5), false);
}

#[test]
fn king_move() {
    let mut board = start();

    board.clear_square(4, 1);
    let king = &board.squares[convert_position_1d(4, 0)];
    assert_eq!(king.get_type(), PieceType::King);
    assert_eq!(king.can_move(&board, 4, 1), true);
}

// ensure king cannot move into a square occupied by an ally
#[test]
fn king_move_blocked() {
    let board = start();

    let king = &board.squares[convert_position_1d(4, 0)];
    assert_eq!(king.get_type(), PieceType::King);
    assert_eq!(king.can_move(&board, 4, 1), false);
}

// ensure king can move into a square occupied by an enemy
#[test]
fn king_capture() {
    let mut board = start();

    board.place_piece(Player::Black, PieceType::Knight, 4, 1);
    let king = &board.squares[convert_position_1d(4, 0)];
    assert_eq!(king.get_type(), PieceType::King);
    assert_eq!(king.can_move(&board, 4, 1), true);
}

// ensure cannot capture a defended enemy
#[test]
fn king_capture_defended() {
    let mut board = start();

    board.place_piece(Player::Black, PieceType::Knight, 4, 1);
    board.place_piece(Player::Black, PieceType::Knight, 2, 2);
    let king = &board.squares[convert_position_1d(4, 0)];
    assert_eq!(king.get_type(), PieceType::King);
    assert_eq!(king.can_move(&board, 4, 1), false);
}

// ensure king cannot move into check
#[test]
fn king_move_defended() {
    let mut board = start();

    board.clear_square(4, 1);
    board.place_piece(Player::Black, PieceType::Knight, 2, 2);
    let king = &board.squares[convert_position_1d(4, 0)];
    assert_eq!(king.get_type(), PieceType::King);
    assert_eq!(king.can_move(&board, 4, 1), false);
}

// test knight L shaped movement
#[test]
fn knight_move() {
    let board = start();

    let knightb1 = &board.squares[convert_position_1d(1, 0)];
    assert_eq!(knightb1.get_type(), PieceType::Knight);
    assert_eq!(knightb1.can_move(&board, 0, 2), true);
    assert_eq!(knightb1.can_move(&board, 1, 2), false);
    assert_eq!(knightb1.can_move(&board, 2, 2), true);
    assert_eq!(knightb1.can_move(&board, 2, 1), false);

    let knightg8 = &board.squares[convert_position_1d(6, 7)];
    assert_eq!(knightg8.get_type(), PieceType::Knight);
    assert_eq!(knightg8.can_move(&board, 7, 5), true);
    assert_eq!(knightg8.can_move(&board, 6, 5), false);
    assert_eq!(knightg8.can_move(&board, 5, 5), true);
    assert_eq!(knightg8.can_move(&board, 5, 6), false);
}

// ensure knight cannot move into ally occupied square
#[test]
fn knight_move_blocked() {
    let board = start();

    let knightb1 = &board.squares[convert_position_1d(1, 0)];
    assert_eq!(knightb1.get_type(), PieceType::Knight);
    assert_eq!(knightb1.can_move(&board, 3, 1), false);

    let knightg8 = &board.squares[convert_position_1d(6, 7)];
    assert_eq!(knightg8.get_type(), PieceType::Knight);
    assert_eq!(knightg8.can_move(&board, 4, 6), false);
}

// ensure knight can move into enemy square
#[test]
fn knight_capture() {
    let mut board = start();

    board.place_piece(Player::White, PieceType::Knight, 4, 6);
    board.place_piece(Player::Black, PieceType::Knight, 3, 1);

    let knightb1 = &board.squares[convert_position_1d(1, 0)];
    assert_eq!(knightb1.get_type(), PieceType::Knight);
    assert_eq!(knightb1.can_move(&board, 3, 1), true);

    let knightg8 = &board.squares[convert_position_1d(6, 7)];
    assert_eq!(knightg8.get_type(), PieceType::Knight);
    assert_eq!(knightg8.can_move(&board, 4, 6), true);
}

// test forward movement for white
#[test]
fn pawn_move_white() {
    let board = start();

    let pawn = &board.squares[convert_position_1d(0, 1)];
    assert_eq!(pawn.get_type(), PieceType::Pawn);
    assert_eq!(pawn.can_move(&board, 0, 2), true);
    assert_eq!(pawn.can_move(&board, 0, 3), true);
    assert_eq!(pawn.can_move(&board, 0, 4), false);
    assert_eq!(pawn.can_move(&board, 1, 2), false);
}

// test forward movement for black
#[test]
fn pawn_move_black() {
    let board = start();

    let pawn = &board.squares[convert_position_1d(0, 6)];
    assert_eq!(pawn.get_type(), PieceType::Pawn);
    assert_eq!(pawn.can_move(&board, 0, 5), true);
    assert_eq!(pawn.can_move(&board, 0, 4), true);
    assert_eq!(pawn.can_move(&board, 0, 3), false);
    assert_eq!(pawn.can_move(&board, 1, 5), false);
}

#[test]
fn pawn_move_blocked() {
    let mut board = start();

    board.place_piece(Player::White, PieceType::Pawn, 0, 3);
    board.place_piece(Player::White, PieceType::Pawn, 0, 4);
    board.place_piece(Player::Black, PieceType::Pawn, 2, 3);
    board.place_piece(Player::Black, PieceType::Pawn, 2, 4);
    board.place_piece(Player::White, PieceType::Pawn, 4, 3);
    board.place_piece(Player::Black, PieceType::Pawn, 4, 4);
    let pawn1 = &board.squares[convert_position_1d(0, 3)];
    let pawn2 = &board.squares[convert_position_1d(2, 4)];
    let pawn3 = &board.squares[convert_position_1d(4, 3)];
    assert_eq!(pawn1.can_move(&board, 0, 4), false);
    assert_eq!(pawn2.can_move(&board, 2, 3), false);
    assert_eq!(pawn3.can_move(&board, 4, 4), false);
}

#[test]
fn pawn_capture() {
    let mut board = start();

    board.place_piece(Player::White, PieceType::Pawn, 4, 3);
    let pawn = &board.squares[convert_position_1d(4, 3)];
    assert_eq!(pawn.get_type(), PieceType::Pawn);
    assert_eq!(pawn.can_move(&board, 4, 4), true);
    assert_eq!(pawn.can_move(&board, 3, 4), false);

    board.place_piece(Player::Black, PieceType::Pawn, 3, 4);
    let pawn = &board.squares[convert_position_1d(4, 3)];
    assert_eq!(pawn.get_type(), PieceType::Pawn);
    assert_eq!(pawn.can_move(&board, 4, 4), true);
    assert_eq!(pawn.can_move(&board, 3, 4), true);
}

// test en passant
#[test]
fn pawn_capture_en_passant() {
    let mut board = start();
    board.execute_notation(Some(Player::White), "e4").unwrap();
    board.execute_notation(Some(Player::Black), "a6").unwrap();
    board.execute_notation(Some(Player::White), "e5").unwrap();
    board.execute_notation(Some(Player::Black), "d5").unwrap();

    let pawn = &board.squares[convert_position_1d(4, 4)];

    assert_eq!(pawn.get_type(), PieceType::Pawn);
    assert_eq!(pawn.can_move(&board, 3, 5), true);
    // the passed pawn is taken by the diagonal step behind it, never by a
    // sideways step onto its square
    assert_eq!(pawn.can_move(&board, 3, 4), false);

    board.execute_notation(Some(Player::White), "a3").unwrap();
}
