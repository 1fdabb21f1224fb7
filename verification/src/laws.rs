//! General laws of the engine, proved once and for all inputs.

use vstd::prelude::*;
use crate::codes::{
    file_of_bytes, normalize_piece, on_board, other_color, piece_color, piece_kind,
    rank_of_bytes, valid_coord_bytes, ChessErr, GameStatus, EMPTY,
};
use crate::rules::{
    apply_board, at, expected_error, in_check, lemma_sq_idx_injective, move_ok, pos_error,
    pseudo_geom, side_of, sq_idx, status_of, step, StateModel,
};

verus! {

/// A two-byte coordinate is accepted by the byte-level board operations
/// exactly when the square it denotes lies on the board: both accept the
/// files `a` through `h` and the ranks `1` through `8`, and both reject
/// everything else.
pub proof fn lemma_coord_bytes_on_board(s: Seq<u8>)
    requires
        s.len() == 2,
    ensures
        valid_coord_bytes(s) <==> on_board(file_of_bytes(s), rank_of_bytes(s)),
{
}

/// Round trip of the board accessors: after storing a piece on a valid
/// square, that square reads back the stored piece — normalized so that an
/// empty piece always reports the white color bit, whatever color bit was
/// set — and every other square is untouched.
pub proof fn lemma_set_get_round_trip(b: Seq<u8>, f: int, r: int, p: u8)
    requires
        b.len() == 64,
        on_board(f, r),
    ensures
        at(b.update(sq_idx(f, r), normalize_piece(p)), f, r) == normalize_piece(p),
        piece_kind(p) == EMPTY ==> normalize_piece(p) == 0,
        piece_kind(p) != EMPTY ==> normalize_piece(p) == p,
        forall|f2: int, r2: int|
            on_board(f2, r2) && !(f2 == f && r2 == r) ==> #[trigger] at(
                b.update(sq_idx(f, r), normalize_piece(p)),
                f2,
                r2,
            ) == at(b, f2, r2),
{
    assert forall|f2: int, r2: int| on_board(f2, r2) && !(f2 == f && r2 == r) implies #[trigger] at(
        b.update(sq_idx(f, r), normalize_piece(p)),
        f2,
        r2,
    ) == at(b, f2, r2) by {
        if sq_idx(f2, r2) == sq_idx(f, r) {
            lemma_sq_idx_injective(f2, r2, f, r);
        }
    }
}

/// Turn alternation: a legal move flips the side on move, and while the
/// game then stands in progress, any attempt to move another piece of the
/// side that just moved fails with `WrongSideToMove`.
pub proof fn lemma_turn_alternation(
    m: StateModel,
    ff: int,
    fr: int,
    tf: int,
    tr: int,
    promo: Option<u8>,
    f2: int,
    r2: int,
    t2f: int,
    t2r: int,
    p2: Option<u8>,
)
    requires
        move_ok(m, ff, fr, tf, tr, promo),
    ensures
        side_of(step(m, ff, fr, tf, tr, promo)) == other_color(side_of(m)),
        ({
            let m2 = step(m, ff, fr, tf, tr, promo);
            (status_of(m2) == GameStatus::InProgress && on_board(f2, r2) && on_board(t2f, t2r)
                && at(m2.board, f2, r2) != EMPTY && piece_color(at(m2.board, f2, r2)) == side_of(
                m,
            )) ==> expected_error(
                m2,
                f2,
                r2,
                t2f,
                t2r,
                p2,
            ) == Some(ChessErr::WrongSideToMove)
        }),
{
}

/// Self-check prevention: a move that obeys its piece's geometry but would
/// leave the mover's own king attacked is rejected as `IllegalMove`; by
/// `apply_move`'s contract a rejected move changes nothing.
pub proof fn lemma_self_check_rejected(
    m: StateModel,
    ff: int,
    fr: int,
    tf: int,
    tr: int,
    promo: Option<u8>,
)
    requires
        on_board(ff, fr),
        on_board(tf, tr),
        at(m.board, ff, fr) != EMPTY,
        piece_color(at(m.board, ff, fr)) == side_of(m),
        pseudo_geom(m, ff, fr, tf, tr),
        in_check(apply_board(m.board, ff, fr, tf, tr, promo), side_of(m)),
    ensures
        pos_error(m, ff, fr, tf, tr, promo) == Some(ChessErr::IllegalMove),
{
}

} // verus!
