//! Hash keys for every hashed feature of a position.
//!
//! Keys come from a fixed mixing function of the feature's index, so the same
//! feature always has the same key.
use vstd::prelude::*;

verus! {

pub const MIX_GAMMA: u64 = 0x9E37_79B9_7F4A_7C15;
pub const MIX_1: u64 = 0xBF58_476D_1CE4_E5B9;
pub const MIX_2: u64 = 0x94D0_49BB_1331_11EB;

/// Product of two words, keeping the low 64 bits.
pub open spec fn mul_lo(a: u64, b: u64) -> u64 {
    ((a as u128) * (b as u128)) as u64
}

/// The mixing function that turns a feature index into its key.
pub open spec fn mix(n: u64) -> u64 {
    let z0 = mul_lo(n, MIX_GAMMA);
    let z1 = mul_lo(z0 ^ (z0 >> 30u64), MIX_1);
    let z2 = mul_lo(z1 ^ (z1 >> 27u64), MIX_2);
    z2 ^ (z2 >> 31u64)
}

/// Key of a piece of `side` and type `piece` on `sq`.
pub open spec fn piece_key(side: int, piece: int, sq: int) -> u64 {
    mix((1 + side * 384 + piece * 64 + sq) as u64)
}

/// Key folded in whenever the side to move changes.
pub open spec fn side_key() -> u64 {
    mix(769)
}

/// Key of an en-passant target on `file`.
pub open spec fn ep_key(file: int) -> u64 {
    mix((770 + file) as u64)
}

/// Key of the castling right held in bit `i` of the rights mask.
pub open spec fn castle_key(i: int) -> u64 {
    mix((778 + i) as u64)
}

fn mul_lo_exec(a: u64, b: u64) -> (r: u64)
    ensures
        r == mul_lo(a, b),
{
    assert((a as u128) * (b as u128) <= u64::MAX as u128 * u64::MAX as u128) by (nonlinear_arith);
    ((a as u128) * (b as u128)) as u64
}

fn mix_exec(n: u64) -> (r: u64)
    ensures
        r == mix(n),
{
    let z0 = mul_lo_exec(n, MIX_GAMMA);
    let z1 = mul_lo_exec(z0 ^ (z0 >> 30u64), MIX_1);
    let z2 = mul_lo_exec(z1 ^ (z1 >> 27u64), MIX_2);
    z2 ^ (z2 >> 31u64)
}

pub fn piece_key_of(side: usize, piece: usize, sq: usize) -> (r: u64)
    requires
        side < 2,
        piece < 6,
        sq < 64,
    ensures
        r == piece_key(side as int, piece as int, sq as int),
{
    mix_exec((1 + side * 384 + piece * 64 + sq) as u64)
}

pub fn side_key_of() -> (r: u64)
    ensures
        r == side_key(),
{
    mix_exec(769)
}

pub fn ep_key_of(file: usize) -> (r: u64)
    requires
        file < 8,
    ensures
        r == ep_key(file as int),
{
    mix_exec((770 + file) as u64)
}

pub fn castle_key_of(i: usize) -> (r: u64)
    requires
        i < 4,
    ensures
        r == castle_key(i as int),
{
    mix_exec((778 + i) as u64)
}

/// Combined key of every castling right set in `lost`, each folded in once.
pub open spec fn castle_hash(lost: u8) -> u64 {
    (if lost & 1u8 != 0 { castle_key(0) } else { 0 }) ^ (if lost & 2u8 != 0 {
        castle_key(1)
    } else {
        0
    }) ^ (if lost & 4u8 != 0 { castle_key(2) } else { 0 }) ^ (if lost & 8u8 != 0 {
        castle_key(3)
    } else {
        0
    })
}

pub fn castle_hash_of(lost: u8) -> (r: u64)
    ensures
        r == castle_hash(lost),
{
    let k0: u64 = if lost & 1u8 != 0 { castle_key_of(0) } else { 0 };
    let k1: u64 = if lost & 2u8 != 0 { castle_key_of(1) } else { 0 };
    let k2: u64 = if lost & 4u8 != 0 { castle_key_of(2) } else { 0 };
    let k3: u64 = if lost & 8u8 != 0 { castle_key_of(3) } else { 0 };
    k0 ^ k1 ^ k2 ^ k3
}

} // verus!
