//! Attack sets of each piece type, as bitboards.
use vstd::prelude::*;
use crate::consts::{NOT_A, NOT_AB, NOT_GH, NOT_H, WHITE};

verus! {

/// The bitboard holding square `sq` alone.
pub open spec fn bit(sq: int) -> u64 {
    1u64 << (sq as u64)
}

pub fn bit_of(sq: usize) -> (r: u64)
    requires
        sq < 64,
    ensures
        r == bit(sq as int),
{
    1u64 << (sq as u64)
}

/// Squares a knight on `sq` attacks.
pub open spec fn knight_attacks(sq: int) -> u64 {
    let b = bit(sq);
    ((b << 17u64) & NOT_A) | ((b << 15u64) & NOT_H) | ((b << 10u64) & NOT_AB) | ((b << 6u64)
        & NOT_GH) | ((b >> 17u64) & NOT_H) | ((b >> 15u64) & NOT_A) | ((b >> 10u64) & NOT_GH) | ((b
        >> 6u64) & NOT_AB)
}

/// Squares a king on `sq` attacks.
pub open spec fn king_attacks(sq: int) -> u64 {
    let b = bit(sq);
    (b << 8u64) | (b >> 8u64) | ((b << 1u64) & NOT_A) | ((b >> 1u64) & NOT_H) | ((b << 9u64)
        & NOT_A) | ((b << 7u64) & NOT_H) | ((b >> 7u64) & NOT_A) | ((b >> 9u64) & NOT_H)
}

/// Squares a pawn of `side` on `sq` attacks.
pub open spec fn pawn_attacks(side: int, sq: int) -> u64 {
    let b = bit(sq);
    if side == WHITE {
        ((b << 7u64) & NOT_H) | ((b << 9u64) & NOT_A)
    } else {
        ((b >> 9u64) & NOT_H) | ((b >> 7u64) & NOT_A)
    }
}

/// Squares reached from `sq` stepping by `(df, dr)` files and ranks, up to and
/// including the first occupied square, for at most `fuel` steps.
pub open spec fn ray(sq: int, df: int, dr: int, occ: u64, fuel: nat) -> u64
    decreases fuel,
{
    if fuel == 0 {
        0
    } else {
        let f = sq % 8 + df;
        let r = sq / 8 + dr;
        if f < 0 || f > 7 || r < 0 || r > 7 {
            0
        } else {
            let n = r * 8 + f;
            if occ & bit(n) != 0 {
                bit(n)
            } else {
                bit(n) | ray(n, df, dr, occ, (fuel - 1) as nat)
            }
        }
    }
}

/// Squares a rook on `sq` attacks when `occ` is occupied.
pub open spec fn rook_attacks(sq: int, occ: u64) -> u64 {
    ray(sq, 1, 0, occ, 7) | ray(sq, -1, 0, occ, 7) | ray(sq, 0, 1, occ, 7) | ray(sq, 0, -1, occ, 7)
}

/// Squares a bishop on `sq` attacks when `occ` is occupied.
pub open spec fn bishop_attacks(sq: int, occ: u64) -> u64 {
    ray(sq, 1, 1, occ, 7) | ray(sq, -1, 1, occ, 7) | ray(sq, 1, -1, occ, 7) | ray(
        sq,
        -1,
        -1,
        occ,
        7,
    )
}

pub fn knight_attacks_from(sq: usize) -> (r: u64)
    requires
        sq < 64,
    ensures
        r == knight_attacks(sq as int),
{
    let b = bit_of(sq);
    ((b << 17u64) & NOT_A) | ((b << 15u64) & NOT_H) | ((b << 10u64) & NOT_AB) | ((b << 6u64)
        & NOT_GH) | ((b >> 17u64) & NOT_H) | ((b >> 15u64) & NOT_A) | ((b >> 10u64) & NOT_GH) | ((b
        >> 6u64) & NOT_AB)
}

pub fn king_attacks_from(sq: usize) -> (r: u64)
    requires
        sq < 64,
    ensures
        r == king_attacks(sq as int),
{
    let b = bit_of(sq);
    (b << 8u64) | (b >> 8u64) | ((b << 1u64) & NOT_A) | ((b >> 1u64) & NOT_H) | ((b << 9u64)
        & NOT_A) | ((b << 7u64) & NOT_H) | ((b >> 7u64) & NOT_A) | ((b >> 9u64) & NOT_H)
}

pub fn pawn_attacks_from(side: usize, sq: usize) -> (r: u64)
    requires
        sq < 64,
    ensures
        r == pawn_attacks(side as int, sq as int),
{
    let b = bit_of(sq);
    if side == WHITE {
        ((b << 7u64) & NOT_H) | ((b << 9u64) & NOT_A)
    } else {
        ((b >> 9u64) & NOT_H) | ((b >> 7u64) & NOT_A)
    }
}

fn ray_from(sq: usize, df: i8, dr: i8, occ: u64, fuel: u8) -> (r: u64)
    requires
        sq < 64,
        -1 <= df <= 1,
        -1 <= dr <= 1,
    ensures
        r == ray(sq as int, df as int, dr as int, occ, fuel as nat),
    decreases fuel,
{
    if fuel == 0 {
        return 0;
    }
    let f: i8 = (sq % 8) as i8 + df;
    let rk: i8 = (sq / 8) as i8 + dr;
    if f < 0 || f > 7 || rk < 0 || rk > 7 {
        return 0;
    }
    let n: usize = (rk as usize) * 8 + (f as usize);
    let b = bit_of(n);
    if occ & b != 0 {
        b
    } else {
        b | ray_from(n, df, dr, occ, fuel - 1)
    }
}

pub fn rook_attacks_from(sq: usize, occ: u64) -> (r: u64)
    requires
        sq < 64,
    ensures
        r == rook_attacks(sq as int, occ),
{
    ray_from(sq, 1, 0, occ, 7) | ray_from(sq, -1, 0, occ, 7) | ray_from(sq, 0, 1, occ, 7)
        | ray_from(sq, 0, -1, occ, 7)
}

pub fn bishop_attacks_from(sq: usize, occ: u64) -> (r: u64)
    requires
        sq < 64,
    ensures
        r == bishop_attacks(sq as int, occ),
{
    ray_from(sq, 1, 1, occ, 7) | ray_from(sq, -1, 1, occ, 7) | ray_from(sq, 1, -1, occ, 7)
        | ray_from(sq, -1, -1, occ, 7)
}

} // verus!
