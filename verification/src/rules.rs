//! The mathematical model of a game and the rules of chess over it.
//!
//! A `StateModel` is the abstract value of an engine: the 64 board bytes,
//! the ply count, the four castling rights and the en-passant file. All
//! contracts of the executable engine speak in terms of the specification
//! functions here: piece geometry, path clearance, attack, check, the
//! position-level legality of a move, the board after a move, the full
//! state transition `step`, and the derived `status_of`.
//!
//! Implemented draw subset: a game is drawn once the ply count reaches
//! `MOVE_LIMIT`. Draw by repetition, by the fifty-move rule or by
//! insufficient material is not implemented.

use vstd::prelude::*;
use crate::codes::{
    ChessErr, GameStatus, BISHOP, BLACK, EMPTY, KING, KNIGHT, PAWN, QUEEN, ROOK, WHITE,
};
use crate::codes::{is_piece_byte, on_board, other_color, piece_code, piece_color, piece_kind};

verus! {

/// A game that reaches this many plies is drawn; keeps the ply counter far
/// below its type's range.
pub const MOVE_LIMIT: u16 = 9000;

/// The abstract value of an engine: board contents plus the move bookkeeping.
pub struct StateModel {
    /// 64 piece bytes; the square (file f, rank r) lives at `sq_idx(f, r)`.
    pub board: Seq<u8>,
    /// Plies applied so far.
    pub moves: int,
    /// White may still castle kingside.
    pub castle_wk: bool,
    /// White may still castle queenside.
    pub castle_wq: bool,
    /// Black may still castle kingside.
    pub castle_bk: bool,
    /// Black may still castle queenside.
    pub castle_bq: bool,
    /// File of a pawn that just made a double step (0 when none).
    pub ep_file: int,
}

/// The index of a square in the board sequence.
pub open spec fn sq_idx(f: int, r: int) -> int {
    (r - 1) * 8 + (f - 1)
}

/// The piece byte at a square.
pub open spec fn at(b: Seq<u8>, f: int, r: int) -> u8 {
    b[sq_idx(f, r)]
}

/// A well-formed model: 64 normalized piece bytes and bookkeeping in range.
pub open spec fn wf_state(m: StateModel) -> bool {
    &&& m.board.len() == 64
    &&& forall|i: int| 0 <= i < 64 ==> is_piece_byte(#[trigger] m.board[i])
    &&& 0 <= m.moves <= MOVE_LIMIT
    &&& 0 <= m.ep_file <= 8
}

/// The side on move: white on even ply counts, black on odd ones.
pub open spec fn side_of(m: StateModel) -> u8 {
    if m.moves % 2 == 0 {
        WHITE
    } else {
        BLACK
    }
}

pub open spec fn abs_of(x: int) -> int {
    if x >= 0 {
        x
    } else {
        -x
    }
}

/// The direction a pawn of color `c` advances in.
pub open spec fn pawn_dir(c: u8) -> int {
    if c == WHITE {
        1
    } else {
        -1
    }
}

/// The rank a pawn of color `c` starts on.
pub open spec fn pawn_start_rank(c: u8) -> int {
    if c == WHITE {
        2
    } else {
        7
    }
}

/// The rank on which a pawn of color `c` promotes.
pub open spec fn pawn_last_rank(c: u8) -> int {
    if c == WHITE {
        8
    } else {
        1
    }
}

/// The rank a pawn of color `c` lands on when it captures en passant.
pub open spec fn ep_rank(c: u8) -> int {
    if c == WHITE {
        6
    } else {
        3
    }
}

/// The home rank of color `c`'s king and rooks.
pub open spec fn home_rank(c: u8) -> int {
    if c == WHITE {
        1
    } else {
        8
    }
}

/// Every square strictly between ranks `r1` and `r2` on file `f` is empty.
pub open spec fn clear_file_between(b: Seq<u8>, f: int, r1: int, r2: int) -> bool {
    forall|j: int| (r1 < j < r2) || (r2 < j < r1) ==> #[trigger] at(b, f, j) == EMPTY
}

/// Every square strictly between files `f1` and `f2` on rank `r` is empty.
pub open spec fn clear_rank_between(b: Seq<u8>, r: int, f1: int, f2: int) -> bool {
    forall|j: int| (f1 < j < f2) || (f2 < j < f1) ==> #[trigger] at(b, j, r) == EMPTY
}

/// Every square strictly between (ff, fr) and (ff + d, fr + d) on the
/// rising diagonal is empty.
pub open spec fn clear_diag_up(b: Seq<u8>, ff: int, fr: int, d: int) -> bool {
    forall|j: int| (0 < j < d) || (d < j < 0) ==> #[trigger] at(b, ff + j, fr + j) == EMPTY
}

/// Every square strictly between (ff, fr) and (ff + d, fr - d) on the
/// falling diagonal is empty.
pub open spec fn clear_diag_down(b: Seq<u8>, ff: int, fr: int, d: int) -> bool {
    forall|j: int| (0 < j < d) || (d < j < 0) ==> #[trigger] at(b, ff + j, fr - j) == EMPTY
}

/// A knight's jump between two squares.
pub open spec fn knight_jump(ff: int, fr: int, tf: int, tr: int) -> bool {
    (abs_of(tf - ff) == 1 && abs_of(tr - fr) == 2) || (abs_of(tf - ff) == 2 && abs_of(tr - fr)
        == 1)
}

/// One king step in any direction.
pub open spec fn king_step(ff: int, fr: int, tf: int, tr: int) -> bool {
    abs_of(tf - ff) <= 1 && abs_of(tr - fr) <= 1 && !(tf == ff && tr == fr)
}

/// A rook's move: along a file or a rank, over empty squares.
pub open spec fn rook_path(b: Seq<u8>, ff: int, fr: int, tf: int, tr: int) -> bool {
    (ff == tf && fr != tr && clear_file_between(b, ff, fr, tr)) || (fr == tr && ff != tf
        && clear_rank_between(b, fr, ff, tf))
}

/// A bishop's move: along a diagonal, over empty squares.
pub open spec fn bishop_path(b: Seq<u8>, ff: int, fr: int, tf: int, tr: int) -> bool {
    (tf - ff == tr - fr && tf != ff && clear_diag_up(b, ff, fr, tf - ff)) || (tf - ff == fr - tr
        && tf != ff && clear_diag_down(b, ff, fr, tf - ff))
}

/// The piece standing at (ff, fr) attacks the square (tf, tr): its capture
/// geometry reaches it over empty intermediate squares. The content of the
/// target square plays no part.
pub open spec fn attacks_from(b: Seq<u8>, ff: int, fr: int, tf: int, tr: int) -> bool {
    let p = at(b, ff, fr);
    let k = piece_kind(p);
    if k == PAWN {
        tr - fr == pawn_dir(piece_color(p)) && abs_of(tf - ff) == 1
    } else if k == KNIGHT {
        knight_jump(ff, fr, tf, tr)
    } else if k == ROOK {
        rook_path(b, ff, fr, tf, tr)
    } else if k == BISHOP {
        bishop_path(b, ff, fr, tf, tr)
    } else if k == QUEEN {
        rook_path(b, ff, fr, tf, tr) || bishop_path(b, ff, fr, tf, tr)
    } else if k == KING {
        king_step(ff, fr, tf, tr)
    } else {
        false
    }
}

/// Some piece of color `by` attacks the square (tf, tr).
pub open spec fn attacked(b: Seq<u8>, tf: int, tr: int, by: u8) -> bool {
    exists|ff: int, fr: int|
        on_board(ff, fr) && #[trigger] at(b, ff, fr) != EMPTY && piece_color(at(b, ff, fr)) == by
            && attacks_from(b, ff, fr, tf, tr)
}

/// Some king of color `c` stands attacked by the other color.
pub open spec fn in_check(b: Seq<u8>, c: u8) -> bool {
    exists|f: int, r: int|
        on_board(f, r) && #[trigger] at(b, f, r) == piece_code(c, KING) && attacked(
            b,
            f,
            r,
            other_color(c),
        )
}

/// A pawn of color `c` may step or capture from (ff, fr) to (tf, tr):
/// one square forward onto an empty square, two from its start rank over an
/// empty square, a diagonal capture of an enemy piece, or an en-passant
/// capture onto the recorded en-passant file.
pub open spec fn pawn_geom(m: StateModel, c: u8, ff: int, fr: int, tf: int, tr: int) -> bool {
    let b = m.board;
    let dir = pawn_dir(c);
    ||| (tf == ff && tr - fr == dir && at(b, tf, tr) == EMPTY)
    ||| (tf == ff && tr - fr == 2 * dir && fr == pawn_start_rank(c) && at(b, ff, fr + dir) == EMPTY
        && at(b, tf, tr) == EMPTY)
    ||| (abs_of(tf - ff) == 1 && tr - fr == dir && at(b, tf, tr) != EMPTY && piece_color(
        at(b, tf, tr),
    ) == other_color(c))
    ||| (abs_of(tf - ff) == 1 && tr - fr == dir && at(b, tf, tr) == EMPTY && m.ep_file == tf && tr
        == ep_rank(c) && at(b, tf, fr) == piece_code(other_color(c), PAWN))
}

/// Color `c` may castle kingside: the right is intact, king and rook stand
/// on their home squares, the squares between them are empty, the king is
/// not in check and does not cross an attacked square. That it does not
/// land on one is part of the self-check rule.
pub open spec fn castle_kingside_geom(m: StateModel, c: u8) -> bool {
    let b = m.board;
    let hr = home_rank(c);
    let right = if c == WHITE {
        m.castle_wk
    } else {
        m.castle_bk
    };
    right && at(b, 5, hr) == piece_code(c, KING) && at(b, 8, hr) == piece_code(c, ROOK) && at(
        b,
        6,
        hr,
    ) == EMPTY && at(b, 7, hr) == EMPTY && !in_check(b, c) && !attacked(b, 6, hr, other_color(c))
}

/// Color `c` may castle queenside; the mirror of the kingside rule.
pub open spec fn castle_queenside_geom(m: StateModel, c: u8) -> bool {
    let b = m.board;
    let hr = home_rank(c);
    let right = if c == WHITE {
        m.castle_wq
    } else {
        m.castle_bq
    };
    right && at(b, 5, hr) == piece_code(c, KING) && at(b, 1, hr) == piece_code(c, ROOK) && at(
        b,
        2,
        hr,
    ) == EMPTY && at(b, 3, hr) == EMPTY && at(b, 4, hr) == EMPTY && !in_check(b, c) && !attacked(
        b,
        4,
        hr,
        other_color(c),
    )
}

/// A king move of two files along the home rank: the castling gesture.
pub open spec fn is_castle_gesture(c: u8, ff: int, fr: int, tf: int, tr: int) -> bool {
    ff == 5 && fr == home_rank(c) && tr == fr && (tf == 7 || tf == 3)
}

/// The move obeys the moved piece's movement geometry and blocking rules,
/// disregarding self-check and promotion choice. Assumes a piece of the
/// side on move stands on the source square.
pub open spec fn pseudo_geom(m: StateModel, ff: int, fr: int, tf: int, tr: int) -> bool {
    let b = m.board;
    let p = at(b, ff, fr);
    let c = piece_color(p);
    let k = piece_kind(p);
    &&& !(tf == ff && tr == fr)
    &&& !(at(b, tf, tr) != EMPTY && piece_color(at(b, tf, tr)) == c)
    &&& if k == PAWN {
        pawn_geom(m, c, ff, fr, tf, tr)
    } else if k == KNIGHT {
        knight_jump(ff, fr, tf, tr)
    } else if k == ROOK {
        rook_path(b, ff, fr, tf, tr)
    } else if k == BISHOP {
        bishop_path(b, ff, fr, tf, tr)
    } else if k == QUEEN {
        rook_path(b, ff, fr, tf, tr) || bishop_path(b, ff, fr, tf, tr)
    } else if k == KING {
        king_step(ff, fr, tf, tr) || (is_castle_gesture(c, ff, fr, tf, tr) && (if tf == 7 {
            castle_kingside_geom(m, c)
        } else {
            castle_queenside_geom(m, c)
        }))
    } else {
        false
    }
}

/// The move reaches the last rank with a pawn and so must name a promotion.
pub open spec fn is_promotion(b: Seq<u8>, ff: int, fr: int, tr: int) -> bool {
    piece_kind(at(b, ff, fr)) == PAWN && tr == pawn_last_rank(piece_color(at(b, ff, fr)))
}

/// A promotion kind a pawn may turn into.
pub open spec fn valid_promo_kind(k: u8) -> bool {
    k == KNIGHT || k == BISHOP || k == ROOK || k == QUEEN
}

/// The piece byte that comes to stand on the target square: the promotion
/// piece on a promoting move, else the moved piece itself. A promoting move
/// whose promotion kind is missing or invalid is judged as a queen here;
/// the error chain rejects such a move for its promotion choice where it
/// does not already fail for self-check.
pub open spec fn placed_piece(b: Seq<u8>, ff: int, fr: int, tr: int, promo: Option<u8>) -> u8 {
    let p = at(b, ff, fr);
    if is_promotion(b, ff, fr, tr) {
        match promo {
            Some(k) => if valid_promo_kind(k) {
                piece_code(piece_color(p), k)
            } else {
                piece_code(piece_color(p), QUEEN)
            },
            None => piece_code(piece_color(p), QUEEN),
        }
    } else {
        p
    }
}

/// The board after the move: source cleared, target overwritten (captures
/// happen by overwriting), the rook relocated on a castling gesture, and
/// the passed pawn removed on an en-passant capture (a pawn moving
/// diagonally onto an empty square).
pub open spec fn apply_board(
    b: Seq<u8>,
    ff: int,
    fr: int,
    tf: int,
    tr: int,
    promo: Option<u8>,
) -> Seq<u8> {
    let p = at(b, ff, fr);
    let c = piece_color(p);
    let k = piece_kind(p);
    let b1 = b.update(sq_idx(ff, fr), EMPTY).update(
        sq_idx(tf, tr),
        placed_piece(b, ff, fr, tr, promo),
    );
    if k == KING && tf - ff == 2 {
        b1.update(sq_idx(8, fr), EMPTY).update(sq_idx(6, fr), piece_code(c, ROOK))
    } else if k == KING && ff - tf == 2 {
        b1.update(sq_idx(1, fr), EMPTY).update(sq_idx(4, fr), piece_code(c, ROOK))
    } else if k == PAWN && tf != ff && at(b, tf, tr) == EMPTY {
        b1.update(sq_idx(tf, fr), EMPTY)
    } else {
        b1
    }
}

/// What is wrong with the move in this position, disregarding whether the
/// game is over; `None` when the move is legal. The checks come in order:
/// square validity, a piece to move, the side on move, movement geometry,
/// self-check, promotion choice.
pub open spec fn pos_error(
    m: StateModel,
    ff: int,
    fr: int,
    tf: int,
    tr: int,
    promo: Option<u8>,
) -> Option<ChessErr> {
    let b = m.board;
    if !on_board(ff, fr) || !on_board(tf, tr) {
        Some(ChessErr::InvalidSquare)
    } else if at(b, ff, fr) == EMPTY {
        Some(ChessErr::NoPieceToMove)
    } else if piece_color(at(b, ff, fr)) != side_of(m) {
        Some(ChessErr::WrongSideToMove)
    } else if !pseudo_geom(m, ff, fr, tf, tr) {
        Some(ChessErr::IllegalMove)
    } else if in_check(apply_board(b, ff, fr, tf, tr, promo), side_of(m)) {
        Some(ChessErr::IllegalMove)
    } else if is_promotion(b, ff, fr, tr) {
        match promo {
            None => Some(ChessErr::PromotionRequired),
            Some(k) => if valid_promo_kind(k) {
                None
            } else {
                Some(ChessErr::InvalidPromotion)
            },
        }
    } else {
        match promo {
            None => None,
            Some(_) => Some(ChessErr::InvalidPromotion),
        }
    }
}

/// The move is legal in this position.
pub open spec fn move_ok(
    m: StateModel,
    ff: int,
    fr: int,
    tf: int,
    tr: int,
    promo: Option<u8>,
) -> bool {
    pos_error(m, ff, fr, tf, tr, promo) is None
}

/// The side on move has some legal move.
pub open spec fn any_legal_move(m: StateModel) -> bool {
    exists|ff: int, fr: int, tf: int, tr: int, promo: Option<u8>|
        #[trigger] move_ok(m, ff, fr, tf, tr, promo)
}

/// The state of the game in this position: drawn once the ply limit is
/// reached; in progress while the side on move has a legal move; else
/// checkmate (the side that just moved wins) when that side is in check,
/// and stalemate when it is not.
pub open spec fn status_of(m: StateModel) -> GameStatus {
    if m.moves >= MOVE_LIMIT {
        GameStatus::Draw
    } else if any_legal_move(m) {
        GameStatus::InProgress
    } else if in_check(m.board, side_of(m)) {
        GameStatus::Checkmate(other_color(side_of(m)))
    } else {
        GameStatus::Stalemate
    }
}

/// What `apply_move` reports for the move: `GameOver` once the game has
/// ended, else whatever is wrong with the move in the position.
pub open spec fn expected_error(
    m: StateModel,
    ff: int,
    fr: int,
    tf: int,
    tr: int,
    promo: Option<u8>,
) -> Option<ChessErr> {
    if status_of(m) != GameStatus::InProgress {
        Some(ChessErr::GameOver)
    } else {
        pos_error(m, ff, fr, tf, tr, promo)
    }
}

/// A castling right survives the move unless the move leaves the king
/// square `(5, hr)`, leaves the rook square `(rf, hr)`, or lands on the
/// rook square (capturing the rook).
pub open spec fn right_kept(ff: int, fr: int, tf: int, tr: int, rf: int, hr: int) -> bool {
    !(ff == 5 && fr == hr) && !(ff == rf && fr == hr) && !(tf == rf && tr == hr)
}

/// The state after a legal move: the new board, one more ply, castling
/// rights pruned by the squares the move touched, and the en-passant file
/// recorded when a pawn made a double step.
pub open spec fn step(
    m: StateModel,
    ff: int,
    fr: int,
    tf: int,
    tr: int,
    promo: Option<u8>,
) -> StateModel {
    StateModel {
        board: apply_board(m.board, ff, fr, tf, tr, promo),
        moves: m.moves + 1,
        castle_wk: m.castle_wk && right_kept(ff, fr, tf, tr, 8, 1),
        castle_wq: m.castle_wq && right_kept(ff, fr, tf, tr, 1, 1),
        castle_bk: m.castle_bk && right_kept(ff, fr, tf, tr, 8, 8),
        castle_bq: m.castle_bq && right_kept(ff, fr, tf, tr, 1, 8),
        ep_file: if piece_kind(at(m.board, ff, fr)) == PAWN && abs_of(tr - fr) == 2 {
            ff
        } else {
            0
        },
    }
}

/// What `make_move` reports for a textual move: `GameOver` once the game
/// has ended, malformed coordinate text next, else whatever is wrong with
/// the parsed move (played without a promotion choice).
pub open spec fn bytes_move_error(m: StateModel, from: Seq<u8>, to: Seq<u8>) -> Option<ChessErr> {
    if status_of(m) != GameStatus::InProgress {
        Some(ChessErr::GameOver)
    } else if !crate::codes::valid_coord_bytes(from) || !crate::codes::valid_coord_bytes(to) {
        Some(ChessErr::InvalidSquare)
    } else {
        pos_error(
            m,
            crate::codes::file_of_bytes(from),
            crate::codes::rank_of_bytes(from),
            crate::codes::file_of_bytes(to),
            crate::codes::rank_of_bytes(to),
            None,
        )
    }
}

/// The piece byte of the standard starting position at board index `i`.
pub open spec fn initial_piece(i: int) -> u8 {
    let f = i % 8 + 1;
    let r = i / 8 + 1;
    if r == 2 {
        piece_code(WHITE, PAWN)
    } else if r == 7 {
        piece_code(BLACK, PAWN)
    } else if r == 1 || r == 8 {
        let c = if r == 1 {
            WHITE
        } else {
            BLACK
        };
        if f == 1 || f == 8 {
            piece_code(c, ROOK)
        } else if f == 2 || f == 7 {
            piece_code(c, KNIGHT)
        } else if f == 3 || f == 6 {
            piece_code(c, BISHOP)
        } else if f == 4 {
            piece_code(c, QUEEN)
        } else {
            piece_code(c, KING)
        }
    } else {
        EMPTY
    }
}

/// The standard starting board.
pub open spec fn initial_board() -> Seq<u8> {
    Seq::new(64, |i: int| initial_piece(i))
}

/// The model of a fresh game: the starting position, no plies, every
/// castling right intact, no en-passant file.
pub open spec fn initial_model() -> StateModel {
    StateModel {
        board: initial_board(),
        moves: 0,
        castle_wk: true,
        castle_wq: true,
        castle_bk: true,
        castle_bq: true,
        ep_file: 0,
    }
}

/// Distinct squares of the board have distinct indices in the sequence.
pub proof fn lemma_sq_idx_injective(f1: int, r1: int, f2: int, r2: int)
    requires
        on_board(f1, r1),
        on_board(f2, r2),
        sq_idx(f1, r1) == sq_idx(f2, r2),
    ensures
        f1 == f2 && r1 == r2,
{
}

} // verus!
