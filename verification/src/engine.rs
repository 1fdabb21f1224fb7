//! Executable rule checking, proved against the model in `rules`.
//!
//! Every function here takes the board as a vector of 64 piece bytes and
//! returns exactly what the corresponding specification function of
//! `rules` says of its view.

use vstd::prelude::*;
use vstd::pervasive::VecAdditionalExecFns;
use crate::codes::{on_board, other_color, piece_code, piece_color};
use crate::codes::{BISHOP, EMPTY, KING, KNIGHT, PAWN, QUEEN, ROOK, WHITE};
use crate::rules::{
    apply_board, at, attacked, attacks_from, bishop_path, clear_diag_down, clear_diag_up,
    clear_file_between, clear_rank_between, in_check, placed_piece, rook_path, sq_idx,
};

verus! {

/// The index of a square in the board vector.
pub(crate) fn sq_index(f: u8, r: u8) -> (i: usize)
    requires
        on_board(f as int, r as int),
    ensures
        i == sq_idx(f as int, r as int),
        i < 64,
{
    (r as usize - 1) * 8 + (f as usize - 1)
}

/// Every square strictly between the two ranks on file `f` is empty.
pub(crate) fn clear_file_exec(b: &Vec<u8>, f: u8, r1: u8, r2: u8) -> (res: bool)
    requires
        b@.len() == 64,
        on_board(f as int, r1 as int),
        on_board(f as int, r2 as int),
    ensures
        res == clear_file_between(b@, f as int, r1 as int, r2 as int),
{
    let lo: u8 = if r1 < r2 {
        r1
    } else {
        r2
    };
    let hi: u8 = if r1 < r2 {
        r2
    } else {
        r1
    };
    let mut j: u8 = lo + 1;
    while j < hi
        invariant
            b@.len() == 64,
            on_board(f as int, lo as int),
            on_board(f as int, hi as int),
            (lo == r1 && hi == r2) || (lo == r2 && hi == r1),
            lo <= hi,
            lo < j <= hi || (lo + 1 > hi && j == lo + 1),
            forall|t: int| lo < t < j ==> #[trigger] at(b@, f as int, t) == EMPTY,
        decreases hi - j,
    {
        if b[sq_index(f, j)] != EMPTY {
            assert(at(b@, f as int, j as int) != EMPTY);
            assert(!clear_file_between(b@, f as int, r1 as int, r2 as int));
            return false;
        }
        j = j + 1;
    }
    true
}

/// Every square strictly between the two files on rank `r` is empty.
pub(crate) fn clear_rank_exec(b: &Vec<u8>, r: u8, f1: u8, f2: u8) -> (res: bool)
    requires
        b@.len() == 64,
        on_board(f1 as int, r as int),
        on_board(f2 as int, r as int),
    ensures
        res == clear_rank_between(b@, r as int, f1 as int, f2 as int),
{
    let lo: u8 = if f1 < f2 {
        f1
    } else {
        f2
    };
    let hi: u8 = if f1 < f2 {
        f2
    } else {
        f1
    };
    let mut j: u8 = lo + 1;
    while j < hi
        invariant
            b@.len() == 64,
            on_board(lo as int, r as int),
            on_board(hi as int, r as int),
            (lo == f1 && hi == f2) || (lo == f2 && hi == f1),
            lo <= hi,
            lo < j <= hi || (lo + 1 > hi && j == lo + 1),
            forall|t: int| lo < t < j ==> #[trigger] at(b@, t, r as int) == EMPTY,
        decreases hi - j,
    {
        if b[sq_index(j, r)] != EMPTY {
            assert(at(b@, j as int, r as int) != EMPTY);
            assert(!clear_rank_between(b@, r as int, f1 as int, f2 as int));
            return false;
        }
        j = j + 1;
    }
    true
}

/// Every square strictly between (ff, fr) and (tf, tr) on their common
/// rising diagonal is empty.
pub(crate) fn clear_diag_up_exec(b: &Vec<u8>, ff: u8, fr: u8, tf: u8, tr: u8) -> (res: bool)
    requires
        b@.len() == 64,
        on_board(ff as int, fr as int),
        on_board(tf as int, tr as int),
        tf - ff == tr - fr,
    ensures
        res == clear_diag_up(b@, ff as int, fr as int, tf as int - ff as int),
{
    if tf >= ff {
        let d: u8 = tf - ff;
        let mut j: u8 = 1;
        while j < d
            invariant
                b@.len() == 64,
                on_board(ff as int, fr as int),
                on_board(tf as int, tr as int),
                tf as int - ff as int == tr as int - fr as int,
                d == tf - ff,
                1 <= j,
                d > 0 ==> j <= d,
                forall|t: int|
                    0 < t < j ==> #[trigger] at(b@, ff as int + t, fr as int + t) == EMPTY,
            decreases d - j,
        {
            if b[sq_index(ff + j, fr + j)] != EMPTY {
                assert(at(b@, ff as int + j as int, fr as int + j as int) != EMPTY);
                assert(!clear_diag_up(b@, ff as int, fr as int, tf as int - ff as int));
                return false;
            }
            j = j + 1;
        }
        true
    } else {
        let d: u8 = ff - tf;
        let mut j: u8 = 1;
        while j < d
            invariant
                b@.len() == 64,
                on_board(ff as int, fr as int),
                on_board(tf as int, tr as int),
                tf as int - ff as int == tr as int - fr as int,
                d == ff - tf,
                1 <= j <= d,
                forall|t: int|
                    -(j as int) < t < 0 ==> #[trigger] at(b@, ff as int + t, fr as int + t)
                        == EMPTY,
            decreases d - j,
        {
            if b[sq_index(ff - j, fr - j)] != EMPTY {
                assert(at(b@, ff as int + (-(j as int)), fr as int + (-(j as int))) != EMPTY);
                assert(!clear_diag_up(b@, ff as int, fr as int, tf as int - ff as int));
                return false;
            }
            j = j + 1;
        }
        true
    }
}

/// Every square strictly between (ff, fr) and (tf, tr) on their common
/// falling diagonal is empty.
pub(crate) fn clear_diag_down_exec(b: &Vec<u8>, ff: u8, fr: u8, tf: u8, tr: u8) -> (res: bool)
    requires
        b@.len() == 64,
        on_board(ff as int, fr as int),
        on_board(tf as int, tr as int),
        tf as int - ff as int == fr as int - tr as int,
    ensures
        res == clear_diag_down(b@, ff as int, fr as int, tf as int - ff as int),
{
    if tf >= ff {
        let d: u8 = tf - ff;
        let mut j: u8 = 1;
        while j < d
            invariant
                b@.len() == 64,
                on_board(ff as int, fr as int),
                on_board(tf as int, tr as int),
                tf as int - ff as int == fr as int - tr as int,
                d == tf - ff,
                1 <= j,
                d > 0 ==> j <= d,
                forall|t: int|
                    0 < t < j ==> #[trigger] at(b@, ff as int + t, fr as int - t) == EMPTY,
            decreases d - j,
        {
            if b[sq_index(ff + j, fr - j)] != EMPTY {
                assert(at(b@, ff as int + j as int, fr as int - j as int) != EMPTY);
                assert(!clear_diag_down(b@, ff as int, fr as int, tf as int - ff as int));
                return false;
            }
            j = j + 1;
        }
        true
    } else {
        let d: u8 = ff - tf;
        let mut j: u8 = 1;
        while j < d
            invariant
                b@.len() == 64,
                on_board(ff as int, fr as int),
                on_board(tf as int, tr as int),
                tf as int - ff as int == fr as int - tr as int,
                d == ff - tf,
                1 <= j <= d,
                forall|t: int|
                    -(j as int) < t < 0 ==> #[trigger] at(b@, ff as int + t, fr as int - t)
                        == EMPTY,
            decreases d - j,
        {
            if b[sq_index(ff - j, fr + j)] != EMPTY {
                assert(at(b@, ff as int + (-(j as int)), fr as int - (-(j as int))) != EMPTY);
                assert(!clear_diag_down(b@, ff as int, fr as int, tf as int - ff as int));
                return false;
            }
            j = j + 1;
        }
        true
    }
}

/// The piece at (ff, fr) attacks the square (tf, tr).
pub(crate) fn attacks_from_exec(b: &Vec<u8>, ff: u8, fr: u8, tf: u8, tr: u8) -> (res: bool)
    requires
        b@.len() == 64,
        on_board(ff as int, fr as int),
        on_board(tf as int, tr as int),
    ensures
        res == attacks_from(b@, ff as int, fr as int, tf as int, tr as int),
{
    let p = b[sq_index(ff, fr)];
    let k = p % 8;
    let df: i16 = tf as i16 - ff as i16;
    let dr: i16 = tr as i16 - fr as i16;
    let adf: i16 = if df >= 0 {
        df
    } else {
        -df
    };
    let adr: i16 = if dr >= 0 {
        dr
    } else {
        -dr
    };
    if k == PAWN {
        let dir: i16 = if p / 8 == WHITE {
            1
        } else {
            -1
        };
        dr == dir && adf == 1
    } else if k == KNIGHT {
        (adf == 1 && adr == 2) || (adf == 2 && adr == 1)
    } else if k == ROOK {
        rook_path_exec(b, ff, fr, tf, tr)
    } else if k == BISHOP {
        bishop_path_exec(b, ff, fr, tf, tr)
    } else if k == QUEEN {
        rook_path_exec(b, ff, fr, tf, tr) || bishop_path_exec(b, ff, fr, tf, tr)
    } else if k == KING {
        adf <= 1 && adr <= 1 && !(df == 0 && dr == 0)
    } else {
        false
    }
}

/// The rook geometry with its path clearance.
pub(crate) fn rook_path_exec(b: &Vec<u8>, ff: u8, fr: u8, tf: u8, tr: u8) -> (res: bool)
    requires
        b@.len() == 64,
        on_board(ff as int, fr as int),
        on_board(tf as int, tr as int),
    ensures
        res == rook_path(b@, ff as int, fr as int, tf as int, tr as int),
{
    (ff == tf && fr != tr && clear_file_exec(b, ff, fr, tr)) || (fr == tr && ff != tf
        && clear_rank_exec(b, fr, ff, tf))
}

/// The bishop geometry with its path clearance.
pub(crate) fn bishop_path_exec(b: &Vec<u8>, ff: u8, fr: u8, tf: u8, tr: u8) -> (res: bool)
    requires
        b@.len() == 64,
        on_board(ff as int, fr as int),
        on_board(tf as int, tr as int),
    ensures
        res == bishop_path(b@, ff as int, fr as int, tf as int, tr as int),
{
    let df: i16 = tf as i16 - ff as i16;
    let dr: i16 = tr as i16 - fr as i16;
    (df == dr && df != 0 && clear_diag_up_exec(b, ff, fr, tf, tr)) || (df == -dr && df != 0
        && clear_diag_down_exec(b, ff, fr, tf, tr))
}

/// Some piece of color `by` attacks the square (tf, tr).
#[verifier::rlimit(50)]
pub(crate) fn attacked_exec(b: &Vec<u8>, tf: u8, tr: u8, by: u8) -> (res: bool)
    requires
        b@.len() == 64,
        on_board(tf as int, tr as int),
    ensures
        res == attacked(b@, tf as int, tr as int, by),
{
    let mut i: usize = 0;
    while i < 64
        invariant
            b@.len() == 64,
            on_board(tf as int, tr as int),
            i <= 64,
            forall|f0: int, r0: int|
                on_board(f0, r0) && sq_idx(f0, r0) < i ==> !(#[trigger] at(b@, f0, r0) != EMPTY
                    && piece_color(at(b@, f0, r0)) == by && attacks_from(
                    b@,
                    f0,
                    r0,
                    tf as int,
                    tr as int,
                )),
        decreases 64 - i,
    {
        let f: u8 = (i % 8) as u8 + 1;
        let r: u8 = (i / 8) as u8 + 1;
        assert(sq_idx(f as int, r as int) == i);
        let p = b[i];
        if p != EMPTY && p / 8 == by {
            if attacks_from_exec(b, f, r, tf, tr) {
                assert(at(b@, f as int, r as int) != EMPTY && piece_color(at(b@, f as int, r as int))
                    == by && attacks_from(b@, f as int, r as int, tf as int, tr as int));
                return true;
            }
        }
        assert forall|f0: int, r0: int| on_board(f0, r0) && sq_idx(f0, r0) < i + 1 implies !(
        #[trigger] at(b@, f0, r0) != EMPTY && piece_color(at(b@, f0, r0)) == by && attacks_from(
            b@,
            f0,
            r0,
            tf as int,
            tr as int,
        )) by {
            if sq_idx(f0, r0) == i {
                assert(f0 == f as int && r0 == r as int);
            }
        }
        i = i + 1;
    }
    false
}

/// Some king of color `c` stands attacked by the other color.
pub(crate) fn in_check_exec(b: &Vec<u8>, c: u8) -> (res: bool)
    requires
        b@.len() == 64,
        c == 0 || c == 1,
    ensures
        res == in_check(b@, c),
{
    let king: u8 = c * 8 + KING;
    assert(king == piece_code(c, KING));
    let mut i: usize = 0;
    while i < 64
        invariant
            b@.len() == 64,
            c == 0 || c == 1,
            king == piece_code(c, KING),
            i <= 64,
            forall|f0: int, r0: int|
                on_board(f0, r0) && sq_idx(f0, r0) < i ==> !(#[trigger] at(b@, f0, r0)
                    == piece_code(c, KING) && attacked(b@, f0, r0, other_color(c))),
        decreases 64 - i,
    {
        let f: u8 = (i % 8) as u8 + 1;
        let r: u8 = (i / 8) as u8 + 1;
        assert(sq_idx(f as int, r as int) == i);
        if b[i] == king {
            let enemy: u8 = if c == WHITE {
                1
            } else {
                0
            };
            assert(enemy == other_color(c));
            if attacked_exec(b, f, r, enemy) {
                assert(at(b@, f as int, r as int) == piece_code(c, KING) && attacked(
                    b@,
                    f as int,
                    r as int,
                    other_color(c),
                ));
                return true;
            }
        }
        assert forall|f0: int, r0: int| on_board(f0, r0) && sq_idx(f0, r0) < i + 1 implies !(
        #[trigger] at(b@, f0, r0) == piece_code(c, KING) && attacked(b@, f0, r0, other_color(c)))
            by {
            if sq_idx(f0, r0) == i {
                assert(f0 == f as int && r0 == r as int);
            }
        }
        i = i + 1;
    }
    false
}

/// An element-for-element copy of the board.
pub(crate) fn copy_board(b: &Vec<u8>) -> (nb: Vec<u8>)
    ensures
        nb@ == b@,
{
    let mut nb: Vec<u8> = Vec::new();
    let mut i: usize = 0;
    while i < b.len()
        invariant
            i <= b@.len(),
            nb@ == b@.subrange(0, i as int),
        decreases b@.len() - i,
    {
        nb.push(b[i]);
        i = i + 1;
    }
    assert(nb@ =~= b@);
    nb
}

/// The board after the move, as `apply_board` describes it: source
/// cleared, target overwritten, the rook relocated on a castling gesture,
/// the passed pawn removed on an en-passant capture.
pub(crate) fn board_after_exec(
    b: &Vec<u8>,
    ff: u8,
    fr: u8,
    tf: u8,
    tr: u8,
    promo: Option<u8>,
) -> (nb: Vec<u8>)
    requires
        b@.len() == 64,
        on_board(ff as int, fr as int),
        on_board(tf as int, tr as int),
    ensures
        nb@ == apply_board(b@, ff as int, fr as int, tf as int, tr as int, promo),
{
    let p = b[sq_index(ff, fr)];
    let dest = b[sq_index(tf, tr)];
    let c = p / 8;
    let k = p % 8;
    let last_rank: u8 = if c == WHITE {
        8
    } else {
        1
    };
    let placed: u8 = if k == PAWN && tr == last_rank {
        match promo {
            Some(pk) => if pk == KNIGHT || pk == BISHOP || pk == ROOK || pk == QUEEN {
                c * 8 + pk
            } else {
                c * 8 + QUEEN
            },
            None => c * 8 + QUEEN,
        }
    } else {
        p
    };
    assert(placed == placed_piece(b@, ff as int, fr as int, tr as int, promo));
    let mut nb = copy_board(b);
    nb.set(sq_index(ff, fr), EMPTY);
    nb.set(sq_index(tf, tr), placed);
    if k == KING && tf >= ff && tf - ff == 2 {
        nb.set(sq_index(8, fr), EMPTY);
        nb.set(sq_index(6, fr), c * 8 + ROOK);
    } else if k == KING && ff >= tf && ff - tf == 2 {
        nb.set(sq_index(1, fr), EMPTY);
        nb.set(sq_index(4, fr), c * 8 + ROOK);
    } else if k == PAWN && tf != ff && dest == EMPTY {
        nb.set(sq_index(tf, fr), EMPTY);
    }
    nb
}

} // verus!
