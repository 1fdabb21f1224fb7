use freight_chess::board::ChessBoard;
use freight_chess::codes::{ChessErr, GameStatus, Square};

fn sq(file: u8, rank: u8) -> Square {
    Square { file, rank }
}

/// An empty board with white to move.
fn cleared() -> ChessBoard {
    let mut board = ChessBoard::new();
    for i in 1..=8u8 {
        for j in 1..=8u8 {
            let coord = [96 + i, 48 + j];
            board.set_piece_at_bytes(&coord[..], 0).unwrap();
        }
    }
    board
}

#[test]
fn turn_alternation() {
    let mut board = ChessBoard::new();
    assert_eq!(board.side_to_move(), 0);
    assert_eq!(board.make_move(b"e2", b"e4"), Ok(()));
    assert_eq!(board.side_to_move(), 1);
    // white may not move again until black has moved
    assert_eq!(board.make_move(b"d2", b"d4"), Err(ChessErr::WrongSideToMove));
    assert_eq!(board.side_to_move(), 1);
    assert_eq!(board.make_move(b"e7", b"e5"), Ok(()));
    assert_eq!(board.side_to_move(), 0);
    assert_eq!(board.make_move(b"d2", b"d4"), Ok(()));
}

#[test]
fn move_error_kinds() {
    let mut board = ChessBoard::new();
    assert_eq!(
        board.apply_move(sq(9, 1), sq(1, 1), None),
        Err(ChessErr::InvalidSquare)
    );
    assert_eq!(board.make_move(b"e4", b"e5"), Err(ChessErr::NoPieceToMove));
    assert_eq!(board.make_move(b"e7", b"e5"), Err(ChessErr::WrongSideToMove));
    assert_eq!(board.make_move(b"e2", b"e5"), Err(ChessErr::IllegalMove));
    assert_eq!(board.make_move(b"g1", b"g3"), Err(ChessErr::IllegalMove));
    // a blocked sliding piece may not jump
    assert_eq!(board.make_move(b"a1", b"a3"), Err(ChessErr::IllegalMove));
    // a promotion choice on a move that does not promote
    assert_eq!(
        board.apply_move(sq(5, 2), sq(5, 4), Some(5)),
        Err(ChessErr::InvalidPromotion)
    );
    // nothing of all that changed the board
    assert_eq!(board.get_piece_at_bytes(b"e2"), Ok(1));
    assert_eq!(board.get_piece_at_bytes(b"e4"), Ok(0));
}

#[test]
fn self_check_is_rejected() {
    let mut board = cleared();
    board.set_piece_at_bytes(b"e1", 6).unwrap(); // white king
    board.set_piece_at_bytes(b"e2", 3).unwrap(); // white rook
    board.set_piece_at_bytes(b"e8", 13).unwrap(); // black queen
    board.set_piece_at_bytes(b"a8", 14).unwrap(); // black king
    // the rook is pinned: leaving the file exposes the white king
    assert_eq!(board.make_move(b"e2", b"a2"), Err(ChessErr::IllegalMove));
    // the board is unchanged
    assert_eq!(board.get_piece_at_bytes(b"e2"), Ok(3));
    assert_eq!(board.get_piece_at_bytes(b"a2"), Ok(0));
    assert_eq!(board.get_piece_at_bytes(b"e1"), Ok(6));
    // moving along the pin is allowed
    assert_eq!(board.make_move(b"e2", b"e5"), Ok(()));
}

#[test]
fn fools_mate() {
    let mut board = ChessBoard::new();
    assert_eq!(board.make_move(b"f2", b"f3"), Ok(()));
    assert!(!board.is_done());
    assert_eq!(board.make_move(b"e7", b"e5"), Ok(()));
    assert_eq!(board.make_move(b"g2", b"g4"), Ok(()));
    assert!(!board.is_done());
    assert_eq!(board.make_move(b"d8", b"h4"), Ok(()));
    // black delivered mate: the game is over and black is the winner
    assert!(board.is_done());
    assert_eq!(board.status(), GameStatus::Checkmate(1));
    assert_eq!(board.make_move(b"e2", b"e3"), Err(ChessErr::GameOver));
    assert_eq!(board.make_move(b"zz", b"e3"), Err(ChessErr::GameOver));
}

#[test]
fn stalemate_position() {
    let mut board = cleared();
    board.set_piece_at_bytes(b"h1", 6).unwrap(); // white king
    board.set_piece_at_bytes(b"g3", 13).unwrap(); // black queen
    board.set_piece_at_bytes(b"f3", 14).unwrap(); // black king
    // white to move: not in check, but every king move is covered
    assert_eq!(board.status(), GameStatus::Stalemate);
    assert!(board.is_done());
    assert_eq!(board.make_move(b"h1", b"h2"), Err(ChessErr::GameOver));
}

#[test]
fn promotion() {
    let mut board = cleared();
    board.set_piece_at_bytes(b"e1", 6).unwrap(); // white king
    board.set_piece_at_bytes(b"a7", 1).unwrap(); // white pawn
    board.set_piece_at_bytes(b"e8", 14).unwrap(); // black king
    assert_eq!(
        board.apply_move(sq(1, 7), sq(1, 8), None),
        Err(ChessErr::PromotionRequired)
    );
    assert_eq!(
        board.apply_move(sq(1, 7), sq(1, 8), Some(6)),
        Err(ChessErr::InvalidPromotion)
    );
    assert_eq!(
        board.apply_move(sq(1, 7), sq(1, 8), Some(1)),
        Err(ChessErr::InvalidPromotion)
    );
    assert_eq!(board.apply_move(sq(1, 7), sq(1, 8), Some(5)), Ok(()));
    assert_eq!(board.get_piece_at_bytes(b"a8"), Ok(5)); // a white queen now
    assert_eq!(board.get_piece_at_bytes(b"a7"), Ok(0));
}

#[test]
fn castling_kingside() {
    let mut board = ChessBoard::new();
    assert_eq!(board.make_move(b"g1", b"f3"), Ok(()));
    assert_eq!(board.make_move(b"b8", b"c6"), Ok(()));
    assert_eq!(board.make_move(b"e2", b"e3"), Ok(()));
    assert_eq!(board.make_move(b"e7", b"e6"), Ok(()));
    assert_eq!(board.make_move(b"f1", b"e2"), Ok(()));
    assert_eq!(board.make_move(b"f8", b"e7"), Ok(()));
    assert_eq!(board.make_move(b"e1", b"g1"), Ok(()));
    assert_eq!(board.get_piece_at_bytes(b"g1"), Ok(6)); // king castled
    assert_eq!(board.get_piece_at_bytes(b"f1"), Ok(3)); // rook came across
    assert_eq!(board.get_piece_at_bytes(b"e1"), Ok(0));
    assert_eq!(board.get_piece_at_bytes(b"h1"), Ok(0));
}

#[test]
fn castling_queenside() {
    let mut board = ChessBoard::new();
    assert_eq!(board.make_move(b"d2", b"d4"), Ok(()));
    assert_eq!(board.make_move(b"d7", b"d5"), Ok(()));
    assert_eq!(board.make_move(b"b1", b"c3"), Ok(()));
    assert_eq!(board.make_move(b"b8", b"c6"), Ok(()));
    assert_eq!(board.make_move(b"c1", b"f4"), Ok(()));
    assert_eq!(board.make_move(b"c8", b"f5"), Ok(()));
    assert_eq!(board.make_move(b"d1", b"d3"), Ok(()));
    assert_eq!(board.make_move(b"d8", b"d6"), Ok(()));
    assert_eq!(board.make_move(b"e1", b"c1"), Ok(()));
    assert_eq!(board.get_piece_at_bytes(b"c1"), Ok(6)); // king castled long
    assert_eq!(board.get_piece_at_bytes(b"d1"), Ok(3)); // rook came across
    assert_eq!(board.get_piece_at_bytes(b"e1"), Ok(0));
    assert_eq!(board.get_piece_at_bytes(b"a1"), Ok(0));
}

#[test]
fn castling_right_lost_after_king_move() {
    let mut board = ChessBoard::new();
    assert_eq!(board.make_move(b"g1", b"f3"), Ok(()));
    assert_eq!(board.make_move(b"b8", b"c6"), Ok(()));
    assert_eq!(board.make_move(b"e2", b"e3"), Ok(()));
    assert_eq!(board.make_move(b"e7", b"e6"), Ok(()));
    assert_eq!(board.make_move(b"f1", b"e2"), Ok(()));
    assert_eq!(board.make_move(b"f8", b"e7"), Ok(()));
    // the king steps away and back: the castling right is gone
    assert_eq!(board.make_move(b"e1", b"f1"), Ok(()));
    assert_eq!(board.make_move(b"a7", b"a6"), Ok(()));
    assert_eq!(board.make_move(b"f1", b"e1"), Ok(()));
    assert_eq!(board.make_move(b"a6", b"a5"), Ok(()));
    assert_eq!(board.make_move(b"e1", b"g1"), Err(ChessErr::IllegalMove));
}

#[test]
fn en_passant() {
    let mut board = ChessBoard::new();
    assert_eq!(board.make_move(b"e2", b"e4"), Ok(()));
    assert_eq!(board.make_move(b"a7", b"a6"), Ok(()));
    assert_eq!(board.make_move(b"e4", b"e5"), Ok(()));
    assert_eq!(board.make_move(b"d7", b"d5"), Ok(()));
    // the pawn that just double-stepped is taken in passing
    assert_eq!(board.make_move(b"e5", b"d6"), Ok(()));
    assert_eq!(board.get_piece_at_bytes(b"d6"), Ok(1));
    assert_eq!(board.get_piece_at_bytes(b"d5"), Ok(0));
    assert_eq!(board.get_piece_at_bytes(b"e5"), Ok(0));
}

#[test]
fn en_passant_only_at_once() {
    let mut board = ChessBoard::new();
    assert_eq!(board.make_move(b"e2", b"e4"), Ok(()));
    assert_eq!(board.make_move(b"a7", b"a6"), Ok(()));
    assert_eq!(board.make_move(b"e4", b"e5"), Ok(()));
    assert_eq!(board.make_move(b"d7", b"d5"), Ok(()));
    // white plays something else: the en-passant chance lapses
    assert_eq!(board.make_move(b"b1", b"c3"), Ok(()));
    assert_eq!(board.make_move(b"a6", b"a5"), Ok(()));
    assert_eq!(board.make_move(b"e5", b"d6"), Err(ChessErr::IllegalMove));
}
