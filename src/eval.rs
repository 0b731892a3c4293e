//! Piece-square values and phase weights.
//!
//! Tables are indexed from the first side's point of view with a8 at index 0;
//! the first side's squares are mirrored vertically (`sq ^ 56`) before lookup.
use vstd::prelude::*;
use crate::consts::{BISHOP, KNIGHT, PAWN, QUEEN, ROOK, WHITE};

verus! {

/// Weight of a piece type in the game-phase counter.
pub open spec fn phase_val(piece: int) -> int {
    if piece == KNIGHT || piece == BISHOP {
        1
    } else if piece == ROOK {
        2
    } else if piece == QUEEN {
        4
    } else {
        0
    }
}

pub fn phase_val_of(piece: usize) -> (r: i32)
    ensures
        r == phase_val(piece as int),
{
    if piece == KNIGHT || piece == BISHOP {
        1
    } else if piece == ROOK {
        2
    } else if piece == QUEEN {
        4
    } else {
        0
    }
}

/// Distance of a table index from the edge of the board, summed over file and rank (0..6).
pub open spec fn centrality(i: int) -> int {
    let f = i % 8;
    let r = i / 8;
    (if f < 4 { f } else { 7 - f }) + (if r < 4 { r } else { 7 - r })
}

/// How many ranks a pawn on table index `i` has advanced.
pub open spec fn advance(i: int) -> int {
    7 - i / 8
}

/// Midgame value of `piece` on table index `i`.
pub open spec fn pst_mg(piece: int, i: int) -> int {
    if piece == PAWN {
        82 + 6 * advance(i)
    } else if piece == KNIGHT {
        337 + 8 * centrality(i)
    } else if piece == BISHOP {
        365 + 5 * centrality(i)
    } else if piece == ROOK {
        477 + 2 * centrality(i)
    } else if piece == QUEEN {
        1025 + 3 * centrality(i)
    } else {
        -6 * centrality(i)
    }
}

/// Endgame value of `piece` on table index `i`.
pub open spec fn pst_eg(piece: int, i: int) -> int {
    if piece == PAWN {
        94 + 12 * advance(i)
    } else if piece == KNIGHT {
        281 + 6 * centrality(i)
    } else if piece == BISHOP {
        297 + 4 * centrality(i)
    } else if piece == ROOK {
        512 + centrality(i)
    } else if piece == QUEEN {
        936 + 5 * centrality(i)
    } else {
        8 * centrality(i)
    }
}

/// Table index of square `sq` for `side`.
pub open spec fn table_index(side: int, sq: int) -> int {
    if side == WHITE {
        (sq as u64 ^ 56u64) as int
    } else {
        sq
    }
}

/// Contribution of a value to the running totals: positive for the first side.
pub open spec fn signed(side: int, v: int) -> int {
    if side == WHITE {
        v
    } else {
        -v
    }
}

fn centrality_of(i: usize) -> (r: i32)
    requires
        i < 64,
    ensures
        r == centrality(i as int),
        0 <= r <= 6,
{
    let f = (i % 8) as i32;
    let rk = (i / 8) as i32;
    (if f < 4 { f } else { 7 - f }) + (if rk < 4 { rk } else { 7 - rk })
}

pub fn table_index_of(side: usize, sq: usize) -> (r: usize)
    requires
        sq < 64,
    ensures
        r == table_index(side as int, sq as int),
        r < 64,
{
    if side == WHITE {
        assert((sq as u64 ^ 56u64) < 64) by (bit_vector)
            requires
                sq < 64,
        ;
        (sq as u64 ^ 56u64) as usize
    } else {
        sq
    }
}

pub fn pst_mg_of(piece: usize, i: usize) -> (r: i32)
    requires
        i < 64,
    ensures
        r == pst_mg(piece as int, i as int),
        -2000 <= r <= 2000,
{
    if piece == PAWN {
        82 + 6 * (7 - (i / 8) as i32)
    } else if piece == KNIGHT {
        337 + 8 * centrality_of(i)
    } else if piece == BISHOP {
        365 + 5 * centrality_of(i)
    } else if piece == ROOK {
        477 + 2 * centrality_of(i)
    } else if piece == QUEEN {
        1025 + 3 * centrality_of(i)
    } else {
        0 - 6 * centrality_of(i)
    }
}

pub fn pst_eg_of(piece: usize, i: usize) -> (r: i32)
    requires
        i < 64,
    ensures
        r == pst_eg(piece as int, i as int),
        -2000 <= r <= 2000,
{
    if piece == PAWN {
        94 + 12 * (7 - (i / 8) as i32)
    } else if piece == KNIGHT {
        281 + 6 * centrality_of(i)
    } else if piece == BISHOP {
        297 + 4 * centrality_of(i)
    } else if piece == ROOK {
        512 + centrality_of(i)
    } else if piece == QUEEN {
        936 + 5 * centrality_of(i)
    } else {
        8 * centrality_of(i)
    }
}

} // verus!
