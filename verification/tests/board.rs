use freight_chess::board::ChessBoard;
use freight_chess::codes::ChessErr;

#[test]
fn test_get_piece_at() {
    assert!(ChessBoard::new().get_piece_at_bytes("ab".as_bytes()).is_err());
    assert!(ChessBoard::new().get_piece_at_bytes("12".as_bytes()).is_err());
    assert!(ChessBoard::new().get_piece_at_bytes("i1".as_bytes()).is_err());
    assert!(ChessBoard::new().get_piece_at_bytes("a9".as_bytes()).is_err());
    assert!(ChessBoard::new().get_piece_at_bytes("a0".as_bytes()).is_err());

    let board = ChessBoard::new();
    let a1_piece = board.get_piece_at_bytes("a1".as_bytes()).expect("a1 failed");
    assert_eq!((a1_piece & 0b1000) >> 3, 0);
    assert_eq!(a1_piece & 0b0111, 3);
    assert_eq!(3, a1_piece);
    let a2_piece = board.get_piece_at_bytes("a2".as_bytes()).expect("a2 failed");
    assert_eq!(1, a2_piece);
    let a3_piece = board.get_piece_at_bytes("a3".as_bytes()).expect("a3 failed");
    assert_eq!(0, a3_piece);

    let a8_piece = board.get_piece_at_bytes("a8".as_bytes()).expect("a8 failed");
    assert_eq!((a8_piece & 0b1000) >> 3, 1);
    assert_eq!(a8_piece & 0b0111, 3);
    assert_eq!(11, a8_piece);
    let a7_piece = board.get_piece_at_bytes("a7".as_bytes()).expect("a7 failed");
    assert_eq!(9, a7_piece);
    let a6_piece = board.get_piece_at_bytes("a6".as_bytes()).expect("a6 failed");
    assert_eq!(0, a6_piece);

    for i in 1..=8u8 {
        for j in 1..=8u8 {
            assert!(ChessBoard::new()
                .get_piece_at_bytes(&[96 + i, 48 + j][..])
                .is_ok());
        }
    }
}

#[test]
fn square_domain_get_and_set() {
    let mut board = ChessBoard::new();
    // every square inside the 8x8 domain succeeds, for get and set alike
    for i in 1..=8u8 {
        for j in 1..=8u8 {
            let coord = [96 + i, 48 + j];
            assert!(board.get_piece_at_bytes(&coord[..]).is_ok());
            let p = board.get_piece_at_bytes(&coord[..]).unwrap();
            assert!(board.set_piece_at_bytes(&coord[..], p).is_ok());
        }
    }
    // anything outside fails with InvalidSquare
    for bad in [
        &b"i1"[..],
        &b"a9"[..],
        &b"a0"[..],
        &b"`5"[..],
        &b"12"[..],
        &b"ab"[..],
        &b"e"[..],
        &b"e25"[..],
    ] {
        assert_eq!(board.get_piece_at_bytes(bad), Err(ChessErr::InvalidSquare));
        assert_eq!(board.set_piece_at_bytes(bad, 0), Err(ChessErr::InvalidSquare));
    }
}

#[test]
fn set_get_round_trip() {
    let mut board = ChessBoard::new();
    // every piece value round-trips through every square
    for code in [0u8, 1, 2, 3, 4, 5, 6, 9, 10, 11, 12, 13, 14] {
        assert!(board.set_piece_at_bytes(b"e4", code).is_ok());
        assert_eq!(board.get_piece_at_bytes(b"e4"), Ok(code));
    }
    // an empty piece set with the black color bit reads back normalized
    assert!(board.set_piece_at_bytes(b"e4", 8).is_ok());
    assert_eq!(board.get_piece_at_bytes(b"e4"), Ok(0));
    // setting one square leaves the others alone
    assert!(board.set_piece_at_bytes(b"c5", 13).is_ok());
    assert_eq!(board.get_piece_at_bytes(b"a1"), Ok(3));
    assert_eq!(board.get_piece_at_bytes(b"c5"), Ok(13));
}

#[test]
fn initial_position() {
    let board = ChessBoard::new();
    assert_eq!(board.get_piece_at_bytes(b"a1"), Ok(3)); // white rook
    assert_eq!(board.get_piece_at_bytes(b"e1"), Ok(6)); // white king
    assert_eq!(board.get_piece_at_bytes(b"d1"), Ok(5)); // white queen
    assert_eq!(board.get_piece_at_bytes(b"a2"), Ok(1)); // white pawn
    assert_eq!(board.get_piece_at_bytes(b"a3"), Ok(0)); // empty
    assert_eq!(board.get_piece_at_bytes(b"e8"), Ok(14)); // black king
    assert_eq!(board.get_piece_at_bytes(b"a7"), Ok(9)); // black pawn
    assert_eq!(board.get_piece_at_bytes(b"a6"), Ok(0)); // empty
    assert_eq!(board.side_to_move(), 0);
    assert!(!board.is_done());
}
