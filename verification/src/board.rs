//! The board and game state, with the public engine operations.
//!
//! `ChessBoard` owns the 64 packed piece bytes together with the move
//! bookkeeping. Its abstract value is the `StateModel` of `rules`; every
//! public operation is specified against that model.

use vstd::prelude::*;
use crate::codes::{
    is_piece_byte, is_piece_input, normalize_piece, on_board, valid_coord_bytes, file_of_bytes,
    rank_of_bytes, ChessErr, GameStatus, Square,
};
use crate::codes::{BISHOP, BLACK, EMPTY, KING, KNIGHT, PAWN, QUEEN, ROOK, WHITE};
use crate::engine::{
    attacked_exec, bishop_path_exec, board_after_exec, copy_board, in_check_exec, rook_path_exec,
    sq_index,
};
use crate::rules::{
    any_legal_move, at, bytes_move_error, castle_kingside_geom, castle_queenside_geom,
    expected_error, initial_board, initial_model, initial_piece, move_ok, pos_error, pseudo_geom,
    side_of, sq_idx, status_of, step, valid_promo_kind, wf_state, StateModel, MOVE_LIMIT,
};

verus! {

/// A chess game: the 64 board squares, each holding one packed piece byte,
/// and the bookkeeping that the rules of play need. Freshly constructed it
/// holds the standard starting position with white on move.
pub struct ChessBoard {
    /// 64 piece bytes, square (f, r) at index `(r - 1) * 8 + (f - 1)`.
    board: Vec<u8>,
    /// Plies applied so far; even means white is on move.
    moves: u16,
    castle_wk: bool,
    castle_wq: bool,
    castle_bk: bool,
    castle_bq: bool,
    /// File of a pawn that just made a double step, 0 when none.
    ep_file: u8,
}

impl ChessBoard {
    /// The abstract value of this game.
    pub closed spec fn model(&self) -> StateModel {
        StateModel {
            board: self.board@,
            moves: self.moves as int,
            castle_wk: self.castle_wk,
            castle_wq: self.castle_wq,
            castle_bk: self.castle_bk,
            castle_bq: self.castle_bq,
            ep_file: self.ep_file as int,
        }
    }

    #[verifier::type_invariant]
    spec fn inv(&self) -> bool {
        wf_state(self.model())
    }

    /// The starting piece byte for board index `i`.
    fn initial_code(i: usize) -> (p: u8)
        requires
            i < 64,
        ensures
            p == initial_piece(i as int),
    {
        let f: u8 = (i % 8) as u8 + 1;
        let r: u8 = (i / 8) as u8 + 1;
        if r == 2 {
            PAWN
        } else if r == 7 {
            8 + PAWN
        } else if r == 1 || r == 8 {
            let c: u8 = if r == 1 {
                0
            } else {
                8
            };
            if f == 1 || f == 8 {
                c + ROOK
            } else if f == 2 || f == 7 {
                c + KNIGHT
            } else if f == 3 || f == 6 {
                c + BISHOP
            } else if f == 4 {
                c + QUEEN
            } else {
                c + KING
            }
        } else {
            EMPTY
        }
    }

    /// A fresh game: the standard starting position, no plies played,
    /// every castling right intact, no en-passant file.
    pub fn new() -> (b: ChessBoard)
        ensures
            b.model() == initial_model(),
    {
        let mut v: Vec<u8> = Vec::new();
        let mut i: usize = 0;
        while i < 64
            invariant
                i <= 64,
                v@.len() == i,
                forall|t: int| 0 <= t < i ==> v@[t] == initial_piece(t),
            decreases 64 - i,
        {
            v.push(Self::initial_code(i));
            i = i + 1;
        }
        proof {
            assert(v@ =~= initial_board());
            assert forall|t: int| 0 <= t < 64 implies is_piece_byte(#[trigger] initial_board()[t])
                by {
                assert(initial_board()[t] == initial_piece(t));
            }
        }
        ChessBoard {
            board: v,
            moves: 0,
            castle_wk: true,
            castle_wq: true,
            castle_bk: true,
            castle_bq: true,
            ep_file: 0,
        }
    }

    /// The coordinate text names a square: a file letter `a` through `h`
    /// followed by a rank digit `1` through `8`.
    pub fn is_valid_piece(coord: &[u8]) -> (r: bool)
        ensures
            r == valid_coord_bytes(coord@),
    {
        coord.len() == 2 && 97 <= coord[0] && coord[0] <= 104 && 49 <= coord[1] && coord[1] <= 56
    }

    /// The piece byte on the named square, or `InvalidSquare` for
    /// malformed coordinate text.
    pub fn get_piece_at_bytes(&self, coord: &[u8]) -> (r: Result<u8, ChessErr>)
        ensures
            (r is Ok) <==> valid_coord_bytes(coord@),
            r matches Ok(p) ==> p == at(
                self.model().board,
                file_of_bytes(coord@),
                rank_of_bytes(coord@),
            ),
            r matches Err(e) ==> e == ChessErr::InvalidSquare,
    {
        proof {
            use_type_invariant(&*self);
        }
        if !Self::is_valid_piece(coord) {
            return Err(ChessErr::InvalidSquare);
        }
        let f: u8 = coord[0] - 96;
        let rk: u8 = coord[1] - 48;
        Ok(self.board[sq_index(f, rk)])
    }

    /// Stores a piece byte on the named square, overwriting whatever stood
    /// there; no legality check happens at this layer. An empty piece is
    /// normalized to the white color bit before storage. Exactly the named
    /// square changes; `InvalidSquare` for malformed coordinate text.
    pub fn set_piece_at_bytes(&mut self, coord: &[u8], piece: u8) -> (r: Result<(), ChessErr>)
        requires
            is_piece_input(piece),
        ensures
            (r is Ok) <==> valid_coord_bytes(coord@),
            r is Ok ==> final(self).model() == (StateModel {
                board: old(self).model().board.update(
                    sq_idx(file_of_bytes(coord@), rank_of_bytes(coord@)),
                    normalize_piece(piece),
                ),
                ..old(self).model()
            }),
            r is Err ==> final(self).model() == old(self).model(),
            r matches Err(e) ==> e == ChessErr::InvalidSquare,
    {
        proof {
            use_type_invariant(&*self);
        }
        if !Self::is_valid_piece(coord) {
            return Err(ChessErr::InvalidSquare);
        }
        let f: u8 = coord[0] - 96;
        let rk: u8 = coord[1] - 48;
        let stored: u8 = if piece % 8 == 0 {
            0
        } else {
            piece
        };
        let mut nb = copy_board(&self.board);
        nb.set(sq_index(f, rk), stored);
        self.board = nb;
        Ok(())
    }

    /// The color on move: white on even ply counts, black on odd ones.
    pub fn side_to_move(&self) -> (c: u8)
        ensures
            c == side_of(self.model()),
    {
        if self.moves % 2 == 0 {
            WHITE
        } else {
            BLACK
        }
    }

    /// Color `c` may castle kingside here.
    fn castle_kingside_exec(&self, c: u8) -> (res: bool)
        requires
            c == 0 || c == 1,
        ensures
            res == castle_kingside_geom(self.model(), c),
    {
        proof {
            use_type_invariant(&*self);
        }
        let hr: u8 = if c == WHITE {
            1
        } else {
            8
        };
        let right = if c == WHITE {
            self.castle_wk
        } else {
            self.castle_bk
        };
        let enemy: u8 = if c == WHITE {
            BLACK
        } else {
            WHITE
        };
        right && self.board[sq_index(5, hr)] == c * 8 + KING && self.board[sq_index(8, hr)] == c * 8
            + ROOK && self.board[sq_index(6, hr)] == EMPTY && self.board[sq_index(7, hr)] == EMPTY
            && !in_check_exec(&self.board, c) && !attacked_exec(&self.board, 6, hr, enemy)
    }

    /// Color `c` may castle queenside here.
    fn castle_queenside_exec(&self, c: u8) -> (res: bool)
        requires
            c == 0 || c == 1,
        ensures
            res == castle_queenside_geom(self.model(), c),
    {
        proof {
            use_type_invariant(&*self);
        }
        let hr: u8 = if c == WHITE {
            1
        } else {
            8
        };
        let right = if c == WHITE {
            self.castle_wq
        } else {
            self.castle_bq
        };
        let enemy: u8 = if c == WHITE {
            BLACK
        } else {
            WHITE
        };
        right && self.board[sq_index(5, hr)] == c * 8 + KING && self.board[sq_index(1, hr)] == c * 8
            + ROOK && self.board[sq_index(2, hr)] == EMPTY && self.board[sq_index(3, hr)] == EMPTY
            && self.board[sq_index(4, hr)] == EMPTY && !in_check_exec(&self.board, c)
            && !attacked_exec(&self.board, 4, hr, enemy)
    }

    /// The move obeys the moved piece's geometry and blocking rules.
    #[verifier::rlimit(50)]
    fn pseudo_geom_exec(&self, ff: u8, fr: u8, tf: u8, tr: u8) -> (res: bool)
        requires
            on_board(ff as int, fr as int),
            on_board(tf as int, tr as int),
        ensures
            res == pseudo_geom(self.model(), ff as int, fr as int, tf as int, tr as int),
    {
        proof {
            use_type_invariant(&*self);
        }
        let b = &self.board;
        let p = b[sq_index(ff, fr)];
        let c = p / 8;
        let k = p % 8;
        if ff == tf && fr == tr {
            return false;
        }
        let dest = b[sq_index(tf, tr)];
        if dest != EMPTY && dest / 8 == c {
            return false;
        }
        let df: i16 = tf as i16 - ff as i16;
        let dr: i16 = tr as i16 - fr as i16;
        let adf: i16 = if df >= 0 {
            df
        } else {
            -df
        };
        let adr: i16 = if dr >= 0 {
            dr
        } else {
            -dr
        };
        if k == PAWN {
            let dir: i16 = if c == WHITE {
                1
            } else {
                -1
            };
            let start: u8 = if c == WHITE {
                2
            } else {
                7
            };
            let mid: u8 = if c == WHITE {
                3
            } else {
                6
            };
            let eprk: u8 = if c == WHITE {
                6
            } else {
                3
            };
            let enemy: u8 = if c == WHITE {
                1
            } else {
                0
            };
            let enemy_pawn: u8 = enemy * 8 + PAWN;
            (df == 0 && dr == dir && dest == EMPTY) || (df == 0 && dr == 2 * dir && fr == start
                && b[sq_index(ff, mid)] == EMPTY && dest == EMPTY) || (adf == 1 && dr == dir
                && dest != EMPTY && dest / 8 == enemy) || (adf == 1 && dr == dir && dest == EMPTY
                && self.ep_file == tf && tr == eprk && b[sq_index(tf, fr)] == enemy_pawn)
        } else if k == KNIGHT {
            (adf == 1 && adr == 2) || (adf == 2 && adr == 1)
        } else if k == ROOK {
            rook_path_exec(b, ff, fr, tf, tr)
        } else if k == BISHOP {
            bishop_path_exec(b, ff, fr, tf, tr)
        } else if k == QUEEN {
            rook_path_exec(b, ff, fr, tf, tr) || bishop_path_exec(b, ff, fr, tf, tr)
        } else if k == KING {
            let hr: u8 = if c == WHITE {
                1
            } else {
                8
            };
            if adf <= 1 && adr <= 1 {
                true
            } else if ff == 5 && fr == hr && tr == fr && (tf == 7 || tf == 3) {
                if tf == 7 {
                    self.castle_kingside_exec(c)
                } else {
                    self.castle_queenside_exec(c)
                }
            } else {
                false
            }
        } else {
            false
        }
    }

    /// What is wrong with the move in this position, disregarding whether
    /// the game is over; `None` when the move is legal.
    fn pos_error_exec(&self, ff: u8, fr: u8, tf: u8, tr: u8, promo: Option<u8>) -> (r: Option<
        ChessErr,
    >)
        ensures
            r == pos_error(self.model(), ff as int, fr as int, tf as int, tr as int, promo),
    {
        proof {
            use_type_invariant(&*self);
        }
        if !(1 <= ff && ff <= 8 && 1 <= fr && fr <= 8 && 1 <= tf && tf <= 8 && 1 <= tr && tr <= 8) {
            return Some(ChessErr::InvalidSquare);
        }
        let p = self.board[sq_index(ff, fr)];
        if p == EMPTY {
            return Some(ChessErr::NoPieceToMove);
        }
        let side = self.side_to_move();
        if p / 8 != side {
            return Some(ChessErr::WrongSideToMove);
        }
        if !self.pseudo_geom_exec(ff, fr, tf, tr) {
            return Some(ChessErr::IllegalMove);
        }
        let nb = board_after_exec(&self.board, ff, fr, tf, tr, promo);
        if in_check_exec(&nb, side) {
            return Some(ChessErr::IllegalMove);
        }
        let last: u8 = if p / 8 == WHITE {
            8
        } else {
            1
        };
        let promoting = p % 8 == PAWN && tr == last;
        if promoting {
            match promo {
                None => Some(ChessErr::PromotionRequired),
                Some(kk) => if kk == KNIGHT || kk == BISHOP || kk == ROOK || kk == QUEEN {
                    None
                } else {
                    Some(ChessErr::InvalidPromotion)
                },
            }
        } else {
            match promo {
                None => None,
                Some(_) => Some(ChessErr::InvalidPromotion),
            }
        }
    }

    /// The move with this promotion choice is legal in this position.
    fn try_move(&self, ff: u8, fr: u8, tf: u8, tr: u8, promo: Option<u8>) -> (res: bool)
        ensures
            res == move_ok(self.model(), ff as int, fr as int, tf as int, tr as int, promo),
            res ==> any_legal_move(self.model()),
    {
        match self.pos_error_exec(ff, fr, tf, tr, promo) {
            None => {
                proof {
                    assert(move_ok(self.model(), ff as int, fr as int, tf as int, tr as int, promo));
                }
                true
            },
            Some(_) => false,
        }
    }

    /// The side on move has some legal move. Promotion choices beyond the
    /// four valid kinds need no trying: a move with any other choice is
    /// rejected for its promotion before it could become legal.
    #[verifier::rlimit(50)]
    fn has_legal_move_exec(&self) -> (res: bool)
        ensures
            res == any_legal_move(self.model()),
    {
        proof {
            use_type_invariant(&*self);
        }
        let ghost m = self.model();
        let mut i: usize = 0;
        while i < 64
            invariant
                wf_state(self.model()),
                m == self.model(),
                i <= 64,
                forall|f0: int, r0: int, t0f: int, t0r: int, p0: Option<u8>|
                    on_board(f0, r0) && sq_idx(f0, r0) < i ==> !#[trigger] move_ok(
                        m,
                        f0,
                        r0,
                        t0f,
                        t0r,
                        p0,
                    ),
            decreases 64 - i,
        {
            let ff: u8 = (i % 8) as u8 + 1;
            let fr: u8 = (i / 8) as u8 + 1;
            assert(sq_idx(ff as int, fr as int) == i);
            let mut j: usize = 0;
            while j < 64
                invariant
                    wf_state(self.model()),
                    m == self.model(),
                    i < 64,
                    j <= 64,
                    ff == (i % 8) as u8 + 1,
                    fr == (i / 8) as u8 + 1,
                    forall|t0f: int, t0r: int, p0: Option<u8>|
                        on_board(t0f, t0r) && sq_idx(t0f, t0r) < j ==> !#[trigger] move_ok(
                            m,
                            ff as int,
                            fr as int,
                            t0f,
                            t0r,
                            p0,
                        ),
                decreases 64 - j,
            {
                let tf: u8 = (j % 8) as u8 + 1;
                let tr: u8 = (j / 8) as u8 + 1;
                assert(sq_idx(tf as int, tr as int) == j);
                if self.try_move(ff, fr, tf, tr, None) {
                    return true;
                }
                if self.try_move(ff, fr, tf, tr, Some(KNIGHT)) {
                    return true;
                }
                if self.try_move(ff, fr, tf, tr, Some(BISHOP)) {
                    return true;
                }
                if self.try_move(ff, fr, tf, tr, Some(ROOK)) {
                    return true;
                }
                if self.try_move(ff, fr, tf, tr, Some(QUEEN)) {
                    return true;
                }
                proof {
                    assert forall|p0: Option<u8>| !#[trigger] move_ok(
                        m,
                        ff as int,
                        fr as int,
                        tf as int,
                        tr as int,
                        p0,
                    ) by {
                        match p0 {
                            None => {},
                            Some(kk) => {
                                if kk == KNIGHT || kk == BISHOP || kk == ROOK || kk == QUEEN {
                                } else {
                                    assert(!valid_promo_kind(kk));
                                    assert(pos_error(
                                        m,
                                        ff as int,
                                        fr as int,
                                        tf as int,
                                        tr as int,
                                        Some(kk),
                                    ) is Some);
                                }
                            },
                        }
                    }
                    assert forall|t0f: int, t0r: int, p0: Option<u8>|
                        on_board(t0f, t0r) && sq_idx(t0f, t0r) < j + 1 implies !#[trigger] move_ok(
                        m,
                        ff as int,
                        fr as int,
                        t0f,
                        t0r,
                        p0,
                    ) by {
                        if sq_idx(t0f, t0r) == j {
                            assert(t0f == tf as int && t0r == tr as int);
                        }
                    }
                }
                j = j + 1;
            }
            proof {
                assert forall|f0: int, r0: int, t0f: int, t0r: int, p0: Option<u8>|
                    on_board(f0, r0) && sq_idx(f0, r0) < i + 1 implies !#[trigger] move_ok(
                    m,
                    f0,
                    r0,
                    t0f,
                    t0r,
                    p0,
                ) by {
                    if sq_idx(f0, r0) == i {
                        assert(f0 == ff as int && r0 == fr as int);
                        if on_board(t0f, t0r) {
                            assert(sq_idx(t0f, t0r) < 64);
                        }
                    }
                }
            }
            i = i + 1;
        }
        proof {
            assert forall|f0: int, r0: int, t0f: int, t0r: int, p0: Option<u8>| !#[trigger] move_ok(
                m,
                f0,
                r0,
                t0f,
                t0r,
                p0,
            ) by {
                if on_board(f0, r0) {
                    assert(sq_idx(f0, r0) < 64);
                }
            }
            assert(!any_legal_move(m));
        }
        false
    }

    /// The state of the game: drawn once the ply limit is reached; in
    /// progress while the side on move has a legal move; else checkmate
    /// (the side that just moved wins) when that side is in check, and
    /// stalemate when it is not. Computed afresh from the position, so a
    /// position built square by square is judged the same way as one
    /// reached by play.
    pub fn status(&self) -> (st: GameStatus)
        ensures
            st == status_of(self.model()),
    {
        proof {
            use_type_invariant(&*self);
        }
        if self.moves >= MOVE_LIMIT {
            GameStatus::Draw
        } else if self.has_legal_move_exec() {
            GameStatus::InProgress
        } else {
            let side = self.side_to_move();
            let winner: u8 = if side == WHITE {
                BLACK
            } else {
                WHITE
            };
            if in_check_exec(&self.board, side) {
                GameStatus::Checkmate(winner)
            } else {
                GameStatus::Stalemate
            }
        }
    }

    /// The game has ended: the status is no longer `InProgress`.
    pub fn is_done(&self) -> (r: bool)
        ensures
            r == (status_of(self.model()) != GameStatus::InProgress),
    {
        let st = self.status();
        match st {
            GameStatus::InProgress => false,
            _ => true,
        }
    }

    /// Validates and applies one move. Fails, in this order, with
    /// `GameOver` once the game has ended, `InvalidSquare` for an
    /// off-board coordinate, `NoPieceToMove` for an empty source square,
    /// `WrongSideToMove` for a piece of the side not on move,
    /// `IllegalMove` for broken geometry, a blocked path or self-check,
    /// and `PromotionRequired`/`InvalidPromotion` for a missing or invalid
    /// promotion choice. On failure nothing changes. On success the board
    /// is rewritten as the move demands, the ply count rises by one (so
    /// the side on move flips), castling rights and the en-passant file
    /// are brought up to date.
    pub fn apply_move(&mut self, from: Square, to: Square, promotion: Option<u8>) -> (r: Result<
        (),
        ChessErr,
    >)
        ensures
            (r is Ok) <==> (expected_error(
                old(self).model(),
                from.file as int,
                from.rank as int,
                to.file as int,
                to.rank as int,
                promotion,
            ) is None),
            r is Ok ==> final(self).model() == step(
                old(self).model(),
                from.file as int,
                from.rank as int,
                to.file as int,
                to.rank as int,
                promotion,
            ),
            r is Err ==> final(self).model() == old(self).model(),
            r matches Err(e) ==> Some(e) == expected_error(
                old(self).model(),
                from.file as int,
                from.rank as int,
                to.file as int,
                to.rank as int,
                promotion,
            ),
    {
        proof {
            use_type_invariant(&*self);
        }
        let st = self.status();
        match st {
            GameStatus::InProgress => {},
            _ => {
                return Err(ChessErr::GameOver);
            },
        }
        let ff = from.file;
        let fr = from.rank;
        let tf = to.file;
        let tr = to.rank;
        match self.pos_error_exec(ff, fr, tf, tr, promotion) {
            Some(e) => {
                return Err(e);
            },
            None => {},
        }
        let p = self.board[sq_index(ff, fr)];
        let nb = board_after_exec(&self.board, ff, fr, tf, tr, promotion);
        proof {
            assert forall|t: int| 0 <= t < 64 implies is_piece_byte(#[trigger] nb@[t]) by {
                assert(is_piece_byte(self.board@[t]));
            }
        }
        let keep_wk = !(ff == 5 && fr == 1) && !(ff == 8 && fr == 1) && !(tf == 8 && tr == 1);
        let keep_wq = !(ff == 5 && fr == 1) && !(ff == 1 && fr == 1) && !(tf == 1 && tr == 1);
        let keep_bk = !(ff == 5 && fr == 8) && !(ff == 8 && fr == 8) && !(tf == 8 && tr == 8);
        let keep_bq = !(ff == 5 && fr == 8) && !(ff == 1 && fr == 8) && !(tf == 1 && tr == 8);
        let dbl = (tr >= fr && tr - fr == 2) || (fr >= tr && fr - tr == 2);
        let new_ep: u8 = if p % 8 == PAWN && dbl {
            ff
        } else {
            0
        };
        self.board = nb;
        self.castle_wk = self.castle_wk && keep_wk;
        self.castle_wq = self.castle_wq && keep_wq;
        self.castle_bk = self.castle_bk && keep_bk;
        self.castle_bq = self.castle_bq && keep_bq;
        self.ep_file = new_ep;
        self.moves = self.moves + 1;
        Ok(())
    }

    /// Validates and applies one move given in coordinate text, without a
    /// promotion choice. Fails with `GameOver` once the game has ended and
    /// with `InvalidSquare` for malformed coordinate text; otherwise
    /// behaves as `apply_move` does.
    pub fn make_move(&mut self, move_from: &[u8], move_to: &[u8]) -> (r: Result<(), ChessErr>)
        ensures
            (r is Ok) <==> (bytes_move_error(old(self).model(), move_from@, move_to@) is None),
            r is Ok ==> final(self).model() == step(
                old(self).model(),
                file_of_bytes(move_from@),
                rank_of_bytes(move_from@),
                file_of_bytes(move_to@),
                rank_of_bytes(move_to@),
                None,
            ),
            r is Err ==> final(self).model() == old(self).model(),
            r matches Err(e) ==> Some(e) == bytes_move_error(
                old(self).model(),
                move_from@,
                move_to@,
            ),
    {
        let st = self.status();
        match st {
            GameStatus::InProgress => {},
            _ => {
                return Err(ChessErr::GameOver);
            },
        }
        if !Self::is_valid_piece(move_from) || !Self::is_valid_piece(move_to) {
            return Err(ChessErr::InvalidSquare);
        }
        let from = Square { file: move_from[0] - 96, rank: move_from[1] - 48 };
        let to = Square { file: move_to[0] - 96, rank: move_to[1] - 48 };
        self.apply_move(from, to, None)
    }
}

} // verus!
