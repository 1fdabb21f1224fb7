//! Piece codes, colors, squares, errors and game status.
//!
//! A piece is a single byte `color * 8 + kind`: the low three bits hold the
//! kind (0 empty through 6 king), bit three holds the color (0 white,
//! 1 black). An empty square is always stored as the byte 0: color carries
//! no meaning for an empty square, so it is normalized away.

use vstd::prelude::*;

verus! {

pub const EMPTY: u8 = 0;
pub const PAWN: u8 = 1;
pub const KNIGHT: u8 = 2;
pub const ROOK: u8 = 3;
pub const BISHOP: u8 = 4;
pub const QUEEN: u8 = 5;
pub const KING: u8 = 6;

pub const WHITE: u8 = 0;
pub const BLACK: u8 = 1;

/// The kind part of a piece byte.
pub open spec fn piece_kind(p: u8) -> u8 {
    (p % 8) as u8
}

/// The color part of a piece byte.
pub open spec fn piece_color(p: u8) -> u8 {
    (p / 8) as u8
}

/// The byte that encodes a piece of the given color and kind.
pub open spec fn piece_code(c: u8, k: u8) -> u8 {
    (c * 8 + k) as u8
}

/// A byte as it may be handed to `set_piece_at_bytes`: a color bit and a
/// kind no larger than a king. The empty piece may come with either color
/// bit; storage normalizes it.
pub open spec fn is_piece_input(p: u8) -> bool {
    p < 16 && piece_kind(p) <= 6
}

/// A byte as the board stores it: a piece input whose empty value has the
/// color bit cleared.
pub open spec fn is_piece_byte(p: u8) -> bool {
    is_piece_input(p) && (piece_kind(p) == EMPTY ==> p == 0)
}

/// Clears the color bit of an empty piece; leaves every other piece alone.
pub open spec fn normalize_piece(p: u8) -> u8 {
    if piece_kind(p) == EMPTY {
        0
    } else {
        p
    }
}

/// The opposite color.
pub open spec fn other_color(c: u8) -> u8 {
    if c == WHITE {
        BLACK
    } else {
        WHITE
    }
}

/// A board coordinate: file 1 (a) through 8 (h), rank 1 through 8.
/// A square is valid exactly when both components lie in 1..=8.
#[derive(Clone, Copy)]
pub struct Square {
    pub file: u8,
    pub rank: u8,
}

/// Both coordinates lie on the board.
pub open spec fn on_board(f: int, r: int) -> bool {
    1 <= f <= 8 && 1 <= r <= 8
}

/// A two-byte textual coordinate, `b"a1"` through `b"h8"`.
pub open spec fn valid_coord_bytes(s: Seq<u8>) -> bool {
    s.len() == 2 && 97 <= s[0] <= 104 && 49 <= s[1] <= 56
}

/// The file encoded by a textual coordinate.
pub open spec fn file_of_bytes(s: Seq<u8>) -> int {
    s[0] - 96
}

/// The rank encoded by a textual coordinate.
pub open spec fn rank_of_bytes(s: Seq<u8>) -> int {
    s[1] - 48
}

/// Every way a board or engine operation can fail. Each operation reports
/// the first failure in its documented order and leaves the state as it was.
#[derive(Clone, Copy, Debug, PartialEq, Eq, Structural)]
pub enum ChessErr {
    /// A coordinate lies outside the 8x8 board, or coordinate text is malformed.
    InvalidSquare,
    /// The source square of a move holds no piece.
    NoPieceToMove,
    /// The moved piece belongs to the side not on move.
    WrongSideToMove,
    /// The move breaks the piece's movement rules, runs through an occupied
    /// square, or would leave the mover's own king attacked.
    IllegalMove,
    /// A pawn reached the last rank and no promotion kind was supplied.
    PromotionRequired,
    /// A promotion kind was supplied that is not knight, bishop, rook or
    /// queen, or was supplied for a move that does not promote.
    InvalidPromotion,
    /// A move was attempted after the game already ended.
    GameOver,
}

/// The state of the game. `Checkmate` carries the winning color.
#[derive(Clone, Copy, Debug, PartialEq, Eq, Structural)]
pub enum GameStatus {
    InProgress,
    Checkmate(u8),
    Stalemate,
    Draw,
}

} // verus!
