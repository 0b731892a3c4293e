//! The incremental hash against the hash computed from scratch.
use vstd::prelude::*;
use crate::attacks::bit;
use crate::consts::{move_flag, move_from, move_to, EMPTY, QUIET};
use crate::moves::{applied, move_ok, xor_at};
use crate::position::PositionView;
use crate::setup::{piece_hash, slot_held, slot_piece, slot_sq, slot_side};
use crate::zobrist::{castle_hash, castle_key, piece_key, side_key};

verus! {

/// Index of the (side, piece, square) slot.
pub open spec fn slot(side: int, piece: int, sq: int) -> int {
    side * 384 + piece * 64 + sq
}

pub proof fn lemma_slot_parts(side: int, piece: int, sq: int)
    requires
        0 <= side < 2,
        0 <= piece < 6,
        0 <= sq < 64,
    ensures
        slot_side(slot(side, piece, sq)) == side,
        slot_piece(slot(side, piece, sq)) == piece,
        slot_sq(slot(side, piece, sq)) == sq,
        0 <= slot(side, piece, sq) < 768,
{
    let k = slot(side, piece, sq);
    assert(k / 384 == side) by (nonlinear_arith)
        requires
            k == side * 384 + piece * 64 + sq,
            0 <= side < 2,
            0 <= piece < 6,
            0 <= sq < 64,
    ;
    assert(k / 64 == side * 6 + piece) by (nonlinear_arith)
        requires
            k == side * 384 + piece * 64 + sq,
            0 <= piece < 6,
            0 <= sq < 64,
    ;
    assert((side * 6 + piece) % 6 == piece) by (nonlinear_arith)
        requires
            0 <= side,
            0 <= piece < 6,
    ;
    assert(k % 64 == sq) by (nonlinear_arith)
        requires
            k == side * 384 + piece * 64 + sq,
            0 <= side,
            0 <= piece,
            0 <= sq < 64,
    ;
}

pub proof fn lemma_slot_whole(k: int)
    requires
        0 <= k < 768,
    ensures
        0 <= slot_side(k) < 2,
        0 <= slot_piece(k) < 6,
        0 <= slot_sq(k) < 64,
        slot(slot_side(k), slot_piece(k), slot_sq(k)) == k,
{
    assert(k == (k / 384) * 384 + ((k / 64) % 6) * 64 + k % 64) by (nonlinear_arith)
        requires
            0 <= k < 768,
    ;
}

pub open spec fn key_of(k: int) -> u64 {
    piece_key(slot_side(k), slot_piece(k), slot_sq(k))
}

/// Two boards whose slots differ in `k0` alone differ in hash by that slot's key.
pub proof fn lemma_hash_one_slot(
    p1: Seq<u64>,
    s1: Seq<u64>,
    p2: Seq<u64>,
    s2: Seq<u64>,
    k0: int,
    n: int,
)
    requires
        0 <= k0 < 768,
        0 <= n <= 768,
        forall|k: int| 0 <= k < 768 && k != k0 ==> slot_held(p2, s2, k) == slot_held(p1, s1, k),
        slot_held(p2, s2, k0) != slot_held(p1, s1, k0),
    ensures
        piece_hash(p2, s2, n) == if n > k0 {
            piece_hash(p1, s1, n) ^ key_of(k0)
        } else {
            piece_hash(p1, s1, n)
        },
    decreases n,
{
    if n > 0 {
        lemma_hash_one_slot(p1, s1, p2, s2, k0, n - 1);
        let a = piece_hash(p1, s1, n - 1);
        let kk = key_of(k0);
        let t1: u64 = if slot_held(p1, s1, n - 1) { key_of(n - 1) } else { 0 };
        let t2: u64 = if slot_held(p2, s2, n - 1) { key_of(n - 1) } else { 0 };
        assert(piece_hash(p1, s1, n) == a ^ t1);
        assert(piece_hash(p2, s2, n) == piece_hash(p2, s2, n - 1) ^ t2);
        assert((a ^ kk) ^ t1 == (a ^ t1) ^ kk) by (bit_vector);
        assert(a ^ 0u64 == a) by (bit_vector);
        assert((a ^ kk) ^ kk == a) by (bit_vector);
    }
}

/// Square `sq` is empty on the board given by `pieces` and `sides`.
pub open spec fn empty_at(pieces: Seq<u64>, sides: Seq<u64>, sq: int) -> bool {
    &&& forall|q: int| 0 <= q < 6 ==> #[trigger] pieces[q] & bit(sq) == 0
    &&& sides[0] & bit(sq) == 0
    &&& sides[1] & bit(sq) == 0
}

/// Square `sq` holds a piece of side `s` and type `p`, and nothing else.
pub open spec fn only_at(pieces: Seq<u64>, sides: Seq<u64>, sq: int, s: int, p: int) -> bool {
    &&& forall|q: int| 0 <= q < 6 ==> (#[trigger] pieces[q] & bit(sq) != 0) == (q == p)
    &&& sides[s] & bit(sq) != 0
    &&& sides[1 - s] & bit(sq) == 0
}

proof fn lemma_bits(x: u64, y: u64, sq: u64, sqk: u64)
    requires
        sq < 64,
        sqk < 64,
    ensures
        sq != sqk ==> {
            let b = 1u64 << sq;
            let d = 1u64 << sqk;
            &&& (x ^ b) & y & d == x & y & d
            &&& x & (y ^ b) & d == x & y & d
            &&& (x ^ b) & (y ^ b) & d == x & y & d
        },
        ({
            let b = 1u64 << sq;
            &&& (x & b == 0 && y & b == 0) ==> ((x ^ b) & (y ^ b) & b != 0 && (x ^ b) & y & b == 0
                && x & (y ^ b) & b == 0 && x & y & b == 0)
            &&& (x & b != 0 && y & b != 0) ==> ((x ^ b) & (y ^ b) & b == 0 && x & y & b != 0)
            &&& x & b == 0 ==> (x & y & b == 0 && x & (y ^ b) & b == 0)
            &&& y & b == 0 ==> (x & y & b == 0 && (x ^ b) & y & b == 0)
        }),
{
    assert(sq != sqk ==> {
        let b = 1u64 << sq;
        let d = 1u64 << sqk;
        &&& (x ^ b) & y & d == x & y & d
        &&& x & (y ^ b) & d == x & y & d
        &&& (x ^ b) & (y ^ b) & d == x & y & d
    }) by (bit_vector)
        requires
            sq < 64,
            sqk < 64,
    ;
    assert({
        let b = 1u64 << sq;
        &&& (x & b == 0 && y & b == 0) ==> ((x ^ b) & (y ^ b) & b != 0 && (x ^ b) & y & b == 0
            && x & (y ^ b) & b == 0 && x & y & b == 0)
        &&& (x & b != 0 && y & b != 0) ==> ((x ^ b) & (y ^ b) & b == 0 && x & y & b != 0)
        &&& x & b == 0 ==> (x & y & b == 0 && x & (y ^ b) & b == 0)
        &&& y & b == 0 ==> (x & y & b == 0 && (x ^ b) & y & b == 0)
    }) by (bit_vector)
        requires
            sq < 64,
    ;
}

/// Putting a piece on an empty square, or taking the only piece off a
/// square, changes exactly that piece's slot.
pub proof fn lemma_flip_square(pieces: Seq<u64>, sides: Seq<u64>, s: int, p: int, sq: int)
    requires
        pieces.len() == 6,
        sides.len() == 2,
        0 <= s < 2,
        0 <= p < 6,
        0 <= sq < 64,
        empty_at(pieces, sides, sq) || only_at(pieces, sides, sq, s, p),
    ensures
        forall|k: int|
            0 <= k < 768 && k != slot(s, p, sq) ==> slot_held(
                xor_at(pieces, p, bit(sq)),
                xor_at(sides, s, bit(sq)),
                k,
            ) == slot_held(pieces, sides, k),
        slot_held(xor_at(pieces, p, bit(sq)), xor_at(sides, s, bit(sq)), slot(s, p, sq)) != slot_held(
            pieces,
            sides,
            slot(s, p, sq),
        ),
{
    let p2 = xor_at(pieces, p, bit(sq));
    let s2 = xor_at(sides, s, bit(sq));
    lemma_slot_parts(s, p, sq);
    assert forall|k: int| 0 <= k < 768 && k != slot(s, p, sq) implies slot_held(p2, s2, k) == slot_held(
        pieces,
        sides,
        k,
    ) by {
        lemma_slot_whole(k);
        let pk = slot_piece(k);
        let sk = slot_side(k);
        let sqk = slot_sq(k);
        lemma_bits(pieces[pk], sides[sk], sq as u64, sqk as u64);
        assert(pieces[p] & bit(sq) == 0 || only_at(pieces, sides, sq, s, p));
    }
    let k0 = slot(s, p, sq);
    lemma_bits(pieces[p], sides[s], sq as u64, sq as u64);
}

proof fn lemma_xor_cancel(a: u64)
    ensures
        a ^ 0u64 == a,
        0u64 ^ a == a,
        a ^ a == 0u64,
{
    assert(a ^ 0u64 == a && 0u64 ^ a == a && a ^ a == 0u64) by (bit_vector);
}

/// Losing the rights of `r` outside `x` changes the castling hash by the
/// keys of the lost rights.
pub proof fn lemma_castle_lost(r: u8, x: u8)
    ensures
        castle_hash(r) ^ castle_hash((r & !(r & x)) as u8) == castle_hash(r & x),
{
    let l: u8 = r & !(r & x);
    let n: u8 = r & x;
    assert(((l & 1u8 != 0) == (r & 1u8 != 0 && n & 1u8 == 0)) && (n & 1u8 != 0 ==> r & 1u8 != 0)
        && ((l & 2u8 != 0) == (r & 2u8 != 0 && n & 2u8 == 0)) && (n & 2u8 != 0 ==> r & 2u8 != 0)
        && ((l & 4u8 != 0) == (r & 4u8 != 0 && n & 4u8 == 0)) && (n & 4u8 != 0 ==> r & 4u8 != 0)
        && ((l & 8u8 != 0) == (r & 8u8 != 0 && n & 8u8 == 0)) && (n & 8u8 != 0 ==> r & 8u8 != 0))
        by (bit_vector)
        requires
            l == r & !(r & x),
            n == r & x,
    ;
    lemma_xor_cancel(castle_key(0));
    lemma_xor_cancel(castle_key(1));
    lemma_xor_cancel(castle_key(2));
    lemma_xor_cancel(castle_key(3));
    lemma_xor_cancel(0u64);
    let a0: u64 = if r & 1u8 != 0 { castle_key(0) } else { 0 };
    let a1: u64 = if r & 2u8 != 0 { castle_key(1) } else { 0 };
    let a2: u64 = if r & 4u8 != 0 { castle_key(2) } else { 0 };
    let a3: u64 = if r & 8u8 != 0 { castle_key(3) } else { 0 };
    let b0: u64 = if l & 1u8 != 0 { castle_key(0) } else { 0 };
    let b1: u64 = if l & 2u8 != 0 { castle_key(1) } else { 0 };
    let b2: u64 = if l & 4u8 != 0 { castle_key(2) } else { 0 };
    let b3: u64 = if l & 8u8 != 0 { castle_key(3) } else { 0 };
    assert((a0 ^ a1 ^ a2 ^ a3) ^ (b0 ^ b1 ^ b2 ^ b3) == (a0 ^ b0) ^ (a1 ^ b1) ^ (a2 ^ b2) ^ (a3
        ^ b3)) by (bit_vector);
}

/// For a quiet move of the only piece on its source square to an empty
/// square, the incrementally updated hash equals the hash computed from
/// scratch when it did before the move.
pub proof fn lemma_quiet_move_hash(v: PositionView, m: u16)
    requires
        v.wf(),
        move_ok(v, m),
        move_flag(m) == QUIET,
        move_from(m) != move_to(m),
        only_at(
            v.pieces,
            v.sides,
            move_from(m),
            v.side_to_move as int,
            v.squares[move_from(m)] as int,
        ),
        empty_at(v.pieces, v.sides, move_to(m)),
        v.squares[move_to(m)] == EMPTY,
        v.state.zobrist == v.full_hash(),
    ensures
        applied(v, m).state.zobrist == applied(v, m).full_hash(),
{
    assert((m >> 6u16) & 63u16 < 64 && m & 63u16 < 64) by (bit_vector);
    assert(0u16 & 0x8000u16 == 0) by (bit_vector);
    let a = applied(v, m);
    let stm = v.side_to_move as int;
    let from = move_from(m);
    let to = move_to(m);
    let mp = v.squares[from] as int;
    let f = bit(from);
    let t = bit(to);
    let pm = xor_at(v.pieces, mp, f);
    let sm = xor_at(v.sides, stm, f);
    lemma_flip_square(v.pieces, v.sides, stm, mp, from);
    lemma_slot_parts(stm, mp, from);
    lemma_slot_parts(stm, mp, to);
    lemma_hash_one_slot(v.pieces, v.sides, pm, sm, slot(stm, mp, from), 768);
    // the destination is still empty once the source is cleared
    let fu = from as u64;
    let tu = to as u64;
    assert(forall|x: u64| #[trigger] ((x ^ (1u64 << fu)) & (1u64 << tu)) == x & (1u64 << tu))
        by (bit_vector)
        requires
            fu < 64,
            tu < 64,
            fu != tu,
    ;
    assert(empty_at(pm, sm, to));
    lemma_flip_square(pm, sm, stm, mp, to);
    let pf = xor_at(pm, mp, t);
    let sf = xor_at(sm, stm, t);
    lemma_hash_one_slot(pm, sm, pf, sf, slot(stm, mp, to), 768);
    assert(forall|x: u64| #[trigger] ((x ^ (1u64 << fu)) ^ (1u64 << tu)) == x ^ ((1u64 << fu) | (
    1u64 << tu))) by (bit_vector)
        requires
            fu < 64,
            tu < 64,
            fu != tu,
    ;
    assert(pf[mp] == a.pieces[mp]);
    assert(pf =~= a.pieces);
    assert(sf =~= a.sides);
    // castling rights
    let r = v.state.castle_rights;
    let r2 = a.state.castle_rights;
    if mp == crate::consts::KING || mp == crate::consts::ROOK {
        lemma_castle_lost(r, crate::consts::castle_keep(from));
    } else {
        assert(r & 255u8 == r && r & !r == 0u8) by (bit_vector);
        lemma_castle_lost(r, 255u8);
    }
    // the rest is XOR algebra
    let ph = piece_hash(v.pieces, v.sides, 768);
    let kf = piece_key(stm, mp, from);
    let kt = piece_key(stm, mp, to);
    let sk = side_key();
    let s_old: u64 = if v.side_to_move == crate::consts::BLACK { sk } else { 0 };
    let s_new: u64 = if a.side_to_move == crate::consts::BLACK { sk } else { 0 };
    let e: u64 = if v.state.en_passant_sq > 0 {
        crate::zobrist::ep_key((v.state.en_passant_sq & 7) as int)
    } else {
        0
    };
    let c_old = castle_hash(r);
    let c_lost = castle_hash((r & !r2) as u8);
    let c_new = castle_hash(r2);
    lemma_xor_cancel(sk);
    assert(s_old ^ sk == s_new);
    let z1 = (v.state.zobrist ^ kf) ^ kt;
    lemma_xor_cancel(z1);
    assert(c_old ^ c_lost == c_new);
    assert(a.state.zobrist == ((z1 ^ e) ^ sk) ^ c_lost);
    assert(piece_hash(a.pieces, a.sides, 768) == (ph ^ kf) ^ kt);
    lemma_xor_cancel((ph ^ kf) ^ kt);
    lemma_xor_cancel(((ph ^ kf) ^ kt) ^ s_new);
    assert(a.full_hash() == (((ph ^ kf) ^ kt) ^ s_new) ^ c_new);
    assert((((ph ^ s_old ^ e ^ c_old) ^ kf ^ kt) ^ e ^ sk) ^ c_lost == ((ph ^ kf ^ kt) ^ (s_old
        ^ sk) ^ 0u64) ^ (c_old ^ c_lost)) by (bit_vector);
}

} // verus!
