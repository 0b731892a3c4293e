//! Applying and reversing moves and null moves.
use vstd::prelude::*;
use crate::attacks::{bit, bit_of};
use crate::consts::{
    castle_keep, castle_keep_mask, castle_rook, castle_rook_squares, from_sq, is_promo, move_flag,
    move_from, move_to, promo_piece, to_sq, BLACK, DBL_PUSH, EMPTY, EN_PASSANT, FLAG_MASK, KING,
    KS_CASTLE, PAWN, PROMO_BIT, QS_CASTLE, ROOK, WHITE,
};
use crate::eval::{
    phase_val, phase_val_of, pst_eg, pst_eg_of, pst_mg, pst_mg_of, signed, table_index,
    table_index_of,
};
use crate::position::{entry_ok, GameState, MoveState, Position, PositionView};
use crate::zobrist::{
    castle_hash, castle_hash_of, ep_key, ep_key_of, piece_key, piece_key_of, side_key, side_key_of,
};

verus! {

/// `s` with `b` folded by XOR into entry `i`.
pub open spec fn xor_at(s: Seq<u64>, i: int, b: u64) -> Seq<u64> {
    s.update(i, s[i] ^ b)
}

/// `s` with entries `i` and `j` exchanged.
pub open spec fn swap(s: Seq<u8>, i: int, j: int) -> Seq<u8> {
    s.update(i, s[j]).update(j, s[i])
}

/// Square of the pawn taken en passant on `to` when `victim` owns it.
pub open spec fn ep_victim(victim: int, to: int) -> int {
    if victim == WHITE {
        to + 8
    } else {
        to - 8
    }
}

/// Snapshot with a piece of `side` and type `piece` taken off `sq`.
pub open spec fn st_remove(st: GameState, sq: int, side: int, piece: int) -> GameState {
    let i = table_index(side, sq);
    GameState {
        zobrist: st.zobrist ^ piece_key(side, piece, sq),
        mg: (st.mg - signed(side, pst_mg(piece, i))) as i16,
        eg: (st.eg - signed(side, pst_eg(piece, i))) as i16,
        ..st
    }
}

/// Snapshot with a piece of `side` and type `piece` put on `sq`.
pub open spec fn st_add(st: GameState, sq: int, side: int, piece: int) -> GameState {
    let i = table_index(side, sq);
    GameState {
        zobrist: st.zobrist ^ piece_key(side, piece, sq),
        mg: (st.mg + signed(side, pst_mg(piece, i))) as i16,
        eg: (st.eg + signed(side, pst_eg(piece, i))) as i16,
        ..st
    }
}

/// Whether `m` can be applied to `v` and reversed without leaving the board:
/// its source holds a piece, an en-passant or double-push target lies inside
/// ranks 2 to 7, and an en-passant capture finds a pawn to take.
pub open spec fn move_ok(v: PositionView, m: u16) -> bool {
    let to = move_to(m);
    let flag = move_flag(m);
    &&& v.squares[move_from(m)] < 6
    &&& (flag == EN_PASSANT || flag == DBL_PUSH) ==> 8 <= to < 56
    &&& flag == EN_PASSANT ==> v.squares[ep_victim(1 - v.side_to_move, to)] == PAWN
}

/// The position after applying `m` to `v`, before the legality test.
pub open spec fn applied(v: PositionView, m: u16) -> PositionView {
    let stm = v.side_to_move as int;
    let opp = 1 - stm;
    let from = move_from(m);
    let to = move_to(m);
    let ft = bit(from) | bit(to);
    let t = bit(to);
    let mp = v.squares[from] as int;
    let cp = v.squares[to] as int;
    let flag = move_flag(m);
    let rights = v.state.castle_rights;
    let pwn = ep_victim(opp, to);
    let ppc = promo_piece(flag);
    let (r1, r2) = castle_rook(stm, flag == KS_CASTLE);
    let rm = bit(r1) | bit(r2);
    // the mover
    let pcs_a = xor_at(v.pieces, mp, ft);
    let sds_a = xor_at(v.sides, stm, ft);
    let st1 = st_add(st_remove(v.state, from, stm, mp), to, stm, mp);
    let q1 = v.squares.update(from, EMPTY as u8).update(to, mp as u8);
    let st2 = GameState {
        zobrist: (if st1.en_passant_sq > 0 {
            st1.zobrist ^ ep_key((st1.en_passant_sq & 7) as int)
        } else {
            st1.zobrist
        }) ^ side_key(),
        en_passant_sq: 0,
        ..st1
    };
    // the captured piece
    let pcs_b = if cp != EMPTY { xor_at(pcs_a, cp, t) } else { pcs_a };
    let sds_b = if cp != EMPTY { xor_at(sds_a, opp, t) } else { sds_a };
    let st3 = if cp != EMPTY {
        let r = st_remove(st2, to, opp, cp);
        GameState {
            phase: (r.phase - phase_val(cp)) as i16,
            castle_rights: if cp == ROOK { r.castle_rights & castle_keep(to) } else { r.castle_rights },
            ..r
        }
    } else {
        st2
    };
    let st4 = if mp == KING || mp == ROOK {
        GameState { castle_rights: st3.castle_rights & castle_keep(from), ..st3 }
    } else {
        st3
    };
    // what the kind of move adds
    let (pcs_c, sds_c, q3, st5) = if flag == EN_PASSANT {
        (
            xor_at(pcs_b, PAWN as int, bit(pwn)),
            xor_at(sds_b, opp, bit(pwn)),
            q1.update(pwn, EMPTY as u8),
            st_remove(st4, pwn, opp, PAWN as int),
        )
    } else if flag == DBL_PUSH {
        (
            pcs_b,
            sds_b,
            q1,
            GameState {
                en_passant_sq: (if opp == BLACK { to - 8 } else { to + 8 }) as u16,
                zobrist: st4.zobrist ^ ep_key(to % 8),
                ..st4
            },
        )
    } else if is_promo(flag) {
        let sp = GameState { phase: (st4.phase + phase_val(ppc)) as i16, ..st4 };
        (
            xor_at(xor_at(pcs_b, mp, t), ppc, t),
            sds_b,
            q1.update(to, ppc as u8),
            st_add(st_remove(sp, to, stm, mp), to, stm, ppc),
        )
    } else if flag == KS_CASTLE || flag == QS_CASTLE {
        (
            xor_at(pcs_b, ROOK as int, rm),
            xor_at(sds_b, stm, rm),
            swap(q1, r1, r2),
            st_add(st_remove(st4, r1, stm, ROOK as int), r2, stm, ROOK as int),
        )
    } else {
        (pcs_b, sds_b, q1, st4)
    };
    let st6 = GameState {
        zobrist: st5.zobrist ^ castle_hash(rights & !st5.castle_rights),
        halfmove_clock: if mp == PAWN || cp != EMPTY {
            0
        } else if st5.halfmove_clock < 255 {
            (st5.halfmove_clock + 1) as u8
        } else {
            255
        },
        ..st5
    };
    PositionView {
        pieces: pcs_c,
        sides: sds_c,
        squares: q3,
        side_to_move: opp as usize,
        state: st6,
        nulls: v.nulls,
        stack: v.stack.push(
            MoveState { state: v.state, m, moved_pc: mp as u8, captured_pc: cp as u8 },
        ),
    }
}

/// The position after reversing the last history entry of `v`.
pub open spec fn undone(v: PositionView) -> PositionView {
    let e = v.stack.last();
    let opp = v.side_to_move as int;
    let stm = 1 - opp;
    let from = move_from(e.m);
    let to = move_to(e.m);
    let ft = bit(from) | bit(to);
    let t = bit(to);
    let mp = e.moved_pc as int;
    let cp = e.captured_pc as int;
    let flag = move_flag(e.m);
    let pwn = ep_victim(opp, to);
    let ppc = promo_piece(flag);
    let (r1, r2) = castle_rook(stm, flag == KS_CASTLE);
    let rm = bit(r1) | bit(r2);
    let (pcs_b, sds_b, q2) = if flag == EN_PASSANT {
        (
            xor_at(v.pieces, PAWN as int, bit(pwn)),
            xor_at(v.sides, opp, bit(pwn)),
            v.squares.update(pwn, PAWN as u8),
        )
    } else if flag == DBL_PUSH {
        (v.pieces, v.sides, v.squares)
    } else if is_promo(flag) {
        (xor_at(xor_at(v.pieces, ppc, t), mp, t), v.sides, v.squares)
    } else if flag == KS_CASTLE || flag == QS_CASTLE {
        (xor_at(v.pieces, ROOK as int, rm), xor_at(v.sides, stm, rm), swap(v.squares, r1, r2))
    } else {
        (v.pieces, v.sides, v.squares)
    };
    let pcs_a = if cp != EMPTY { xor_at(pcs_b, cp, t) } else { pcs_b };
    let sds_a = if cp != EMPTY { xor_at(sds_b, opp, t) } else { sds_b };
    PositionView {
        pieces: xor_at(pcs_a, mp, ft),
        sides: xor_at(sds_a, stm, ft),
        squares: q2.update(from, mp as u8).update(to, cp as u8),
        side_to_move: stm as usize,
        state: e.state,
        nulls: v.nulls,
        stack: v.stack.drop_last(),
    }
}

/// The position after a null move.
pub open spec fn nulled(v: PositionView) -> PositionView {
    let ep = v.state.en_passant_sq;
    PositionView {
        side_to_move: (1 - v.side_to_move) as usize,
        state: GameState {
            zobrist: (if ep > 0 {
                v.state.zobrist ^ ep_key((ep & 7) as int)
            } else {
                v.state.zobrist
            }) ^ side_key(),
            en_passant_sq: 0,
            ..v.state
        },
        nulls: (v.nulls + 1) as u8,
        ..v
    }
}

/// The position after reversing a null move with `token`.
pub open spec fn null_undone(v: PositionView, token: (u16, u64)) -> PositionView {
    PositionView {
        side_to_move: (1 - v.side_to_move) as usize,
        state: GameState { zobrist: token.1, en_passant_sq: token.0, ..v.state },
        nulls: (v.nulls - 1) as u8,
        ..v
    }
}

pub proof fn lemma_xor_at_twice(s: Seq<u64>, i: int, b: u64)
    requires
        0 <= i < s.len(),
    ensures
        xor_at(xor_at(s, i, b), i, b) == s,
{
    let x = s[i];
    assert((x ^ b) ^ b == x) by (bit_vector);
    assert(xor_at(xor_at(s, i, b), i, b) =~= s);
}

/// Applying a move and then reversing it restores the board, the snapshot and
/// the history exactly.
pub proof fn lemma_apply_undo(v: PositionView, m: u16)
    requires
        v.wf(),
        move_ok(v, m),
    ensures
        undone(applied(v, m)) == v,
        applied(v, m).wf(),
{
    let a = applied(v, m);
    let stm = v.side_to_move as int;
    let opp = 1 - stm;
    let from = move_from(m);
    let to = move_to(m);
    let ft = bit(from) | bit(to);
    let t = bit(to);
    let mp = v.squares[from] as int;
    let cp = v.squares[to] as int;
    let flag = move_flag(m);
    let pwn = ep_victim(opp, to);
    let ppc = promo_piece(flag);
    let (r1, r2) = castle_rook(stm, flag == KS_CASTLE);
    let rm = bit(r1) | bit(r2);
    assert((m >> 6u16) & 63u16 < 64 && m & 63u16 < 64) by (bit_vector);
    assert(((m & 0xF000u16) >> 12u16) & 3u16 <= 3) by (bit_vector);
    let pcs_a = xor_at(v.pieces, mp, ft);
    let sds_a = xor_at(v.sides, stm, ft);
    let pcs_b = if cp != EMPTY { xor_at(pcs_a, cp, t) } else { pcs_a };
    let sds_b = if cp != EMPTY { xor_at(sds_a, opp, t) } else { sds_a };
    let q1 = v.squares.update(from, EMPTY as u8).update(to, mp as u8);
    lemma_xor_at_twice(v.pieces, mp, ft);
    lemma_xor_at_twice(v.sides, stm, ft);
    if cp != EMPTY {
        lemma_xor_at_twice(pcs_a, cp, t);
        lemma_xor_at_twice(sds_a, opp, t);
    }
    if flag == EN_PASSANT {
        lemma_xor_at_twice(pcs_b, PAWN as int, bit(pwn));
        lemma_xor_at_twice(sds_b, opp, bit(pwn));
    } else if flag == DBL_PUSH {
    } else if is_promo(flag) {
        lemma_xor_at_twice(pcs_b, mp, t);
        lemma_xor_at_twice(xor_at(pcs_b, mp, t), ppc, t);
    } else if flag == KS_CASTLE || flag == QS_CASTLE {
        lemma_xor_at_twice(pcs_b, ROOK as int, rm);
        lemma_xor_at_twice(sds_b, stm, rm);
        assert(swap(swap(q1, r1, r2), r1, r2) =~= q1);
    }
    let u = undone(a);
    assert(u.squares =~= v.squares);
    assert(u.stack =~= v.stack);
    assert(u.pieces == v.pieces);
    assert(u.sides == v.sides);
    assert(a.squares.len() == 64);
    assert(forall|i: int| 0 <= i < 64 ==> #[trigger] a.squares[i] <= EMPTY);
    assert(forall|i: int|
        0 <= i < a.stack.len() ==> entry_ok(#[trigger] a.stack[i])) by {
        assert(forall|i: int| 0 <= i < v.stack.len() ==> a.stack[i] == v.stack[i]);
    }
}

/// A null move followed by its reversal with the returned token restores the
/// position exactly.
pub proof fn lemma_null_round_trip(v: PositionView)
    requires
        v.wf(),
        v.nulls < 255,
    ensures
        null_undone(nulled(v), (v.state.en_passant_sq, v.state.zobrist)) == v,
{
}

/// A pawn move or a capture sets the half-move clock to zero; any other move
/// advances it by one (held at 255).
pub proof fn lemma_clock_reset(v: PositionView, m: u16)
    requires
        v.wf(),
        move_ok(v, m),
    ensures
        (v.squares[move_from(m)] == PAWN || v.squares[move_to(m)] != EMPTY)
            ==> applied(v, m).state.halfmove_clock == 0,
        (v.squares[move_from(m)] != PAWN && v.squares[move_to(m)] == EMPTY
            && v.state.halfmove_clock < 255) ==> applied(v, m).state.halfmove_clock
            == v.state.halfmove_clock + 1,
{
}

/// While a null move is applied no position counts as repeated.
pub proof fn lemma_null_blocks_repetition(v: PositionView, num: u8)
    requires
        v.wf(),
        v.nulls < 255,
    ensures
        !nulled(v).repeated(num),
{
}

fn st_remove_exec(st: GameState, sq: usize, side: usize, piece: usize) -> (r: GameState)
    requires
        sq < 64,
        side < 2,
        piece < 6,
    ensures
        r == st_remove(st, sq as int, side as int, piece as int),
{
    let i = table_index_of(side, sq);
    let vm = pst_mg_of(piece, i);
    let ve = pst_eg_of(piece, i);
    let (dm, de) = if side == WHITE {
        (vm, ve)
    } else {
        (0 - vm, 0 - ve)
    };
    GameState {
        zobrist: st.zobrist ^ piece_key_of(side, piece, sq),
        mg: (st.mg as i32 - dm) as i16,
        eg: (st.eg as i32 - de) as i16,
        ..st
    }
}

fn st_add_exec(st: GameState, sq: usize, side: usize, piece: usize) -> (r: GameState)
    requires
        sq < 64,
        side < 2,
        piece < 6,
    ensures
        r == st_add(st, sq as int, side as int, piece as int),
{
    let i = table_index_of(side, sq);
    let vm = pst_mg_of(piece, i);
    let ve = pst_eg_of(piece, i);
    let (dm, de) = if side == WHITE {
        (vm, ve)
    } else {
        (0 - vm, 0 - ve)
    };
    GameState {
        zobrist: st.zobrist ^ piece_key_of(side, piece, sq),
        mg: (st.mg as i32 + dm) as i16,
        eg: (st.eg as i32 + de) as i16,
        ..st
    }
}

impl Position {
    /// The snapshot after applying `m`, computed from the position before it.
    fn next_state(&self, m: u16) -> (r: GameState)
        requires
            self@.wf(),
            move_ok(self@, m),
        ensures
            r == applied(self@, m).state,
    {
        let stm: usize = self.side_to_move;
        let opp: usize = 1 - stm;
        let from: usize = from_sq(m);
        let to: usize = to_sq(m);
        let mp: usize = self.squares[from] as usize;
        let cp: usize = self.squares[to] as usize;
        let flag: u16 = m & FLAG_MASK;
        let rights: u8 = self.state.castle_rights;
        let mut st: GameState = self.state;

        st = st_remove_exec(st, from, stm, mp);
        st = st_add_exec(st, to, stm, mp);
        if st.en_passant_sq > 0 {
            let ep: u16 = st.en_passant_sq;
            assert(ep & 7u16 < 8) by (bit_vector);
            st.zobrist = st.zobrist ^ ep_key_of((ep & 7u16) as usize);
        }
        st.en_passant_sq = 0;
        st.zobrist = st.zobrist ^ side_key_of();
        if cp != EMPTY {
            st = st_remove_exec(st, to, opp, cp);
            st.phase = (st.phase as i32 - phase_val_of(cp)) as i16;
            if cp == ROOK {
                st.castle_rights = st.castle_rights & castle_keep_mask(to);
            }
        }
        if mp == KING || mp == ROOK {
            st.castle_rights = st.castle_rights & castle_keep_mask(from);
        }
        if flag == EN_PASSANT {
            let pwn: usize = if opp == WHITE {
                to + 8
            } else {
                to - 8
            };
            st = st_remove_exec(st, pwn, opp, PAWN);
        } else if flag == DBL_PUSH {
            st.en_passant_sq = (if opp == BLACK {
                to - 8
            } else {
                to + 8
            }) as u16;
            st.zobrist = st.zobrist ^ ep_key_of(to % 8);
        } else if flag & PROMO_BIT != 0 {
            assert((flag >> 12u16) & 3u16 <= 3) by (bit_vector);
            let ppc: usize = (((flag >> 12u16) & 3u16) + 1) as usize;
            st.phase = (st.phase as i32 + phase_val_of(ppc)) as i16;
            st = st_remove_exec(st, to, stm, mp);
            st = st_add_exec(st, to, stm, ppc);
        } else if flag == KS_CASTLE || flag == QS_CASTLE {
            let (r1, r2) = castle_rook_squares(stm, flag == KS_CASTLE);
            st = st_remove_exec(st, r1, stm, ROOK);
            st = st_add_exec(st, r2, stm, ROOK);
        }
        st.zobrist = st.zobrist ^ castle_hash_of(rights & !st.castle_rights);
        st.halfmove_clock = if mp == PAWN || cp != EMPTY {
            0
        } else if st.halfmove_clock < 255 {
            st.halfmove_clock + 1
        } else {
            255
        };
        st
    }

    /// Moves the pieces of `m` on the three board views.
    fn move_pieces(&mut self, m: u16)
        requires
            old(self)@.wf(),
            move_ok(old(self)@, m),
        ensures
            final(self).pieces@ == applied(old(self)@, m).pieces,
            final(self).sides@ == applied(old(self)@, m).sides,
            final(self).squares@ == applied(old(self)@, m).squares,
            final(self).side_to_move == old(self).side_to_move,
            final(self).state == old(self).state,
            final(self).nulls == old(self).nulls,
            final(self).stack@ == old(self).stack@,
    {
        let stm: usize = self.side_to_move;
        let opp: usize = 1 - stm;
        let from: usize = from_sq(m);
        let to: usize = to_sq(m);
        let ft: u64 = bit_of(from) | bit_of(to);
        let t: u64 = bit_of(to);
        let moved_pc: u8 = self.squares[from];
        let mp: usize = moved_pc as usize;
        let cp: usize = self.squares[to] as usize;
        let flag: u16 = m & FLAG_MASK;

        self.pieces[mp] = self.pieces[mp] ^ ft;
        self.sides[stm] = self.sides[stm] ^ ft;
        self.squares[from] = EMPTY as u8;
        self.squares[to] = moved_pc;
        if cp != EMPTY {
            self.pieces[cp] = self.pieces[cp] ^ t;
            self.sides[opp] = self.sides[opp] ^ t;
        }
        if flag == EN_PASSANT {
            let pwn: usize = if opp == WHITE {
                to + 8
            } else {
                to - 8
            };
            let p: u64 = bit_of(pwn);
            self.pieces[PAWN] = self.pieces[PAWN] ^ p;
            self.sides[opp] = self.sides[opp] ^ p;
            self.squares[pwn] = EMPTY as u8;
        } else if flag == DBL_PUSH {
        } else if flag & PROMO_BIT != 0 {
            assert((flag >> 12u16) & 3u16 <= 3) by (bit_vector);
            let ppc: usize = (((flag >> 12u16) & 3u16) + 1) as usize;
            self.pieces[mp] = self.pieces[mp] ^ t;
            self.pieces[ppc] = self.pieces[ppc] ^ t;
            self.squares[to] = ppc as u8;
        } else if flag == KS_CASTLE || flag == QS_CASTLE {
            let (r1, r2) = castle_rook_squares(stm, flag == KS_CASTLE);
            let c: u64 = bit_of(r1) | bit_of(r2);
            let tmp: u8 = self.squares[r1];
            self.squares[r1] = self.squares[r2];
            self.squares[r2] = tmp;
            self.pieces[ROOK] = self.pieces[ROOK] ^ c;
            self.sides[stm] = self.sides[stm] ^ c;
        }
    }

    /// Applies `m`. Returns true when the move leaves the mover's own king
    /// attacked: it is then reversed before returning.
    pub fn do_move(&mut self, m: u16) -> (illegal: bool)
        requires
            old(self)@.wf(),
            move_ok(old(self)@, m),
        ensures
            final(self)@.wf(),
            illegal == applied(old(self)@, m).king_attacked(old(self).side_to_move as int),
            illegal ==> final(self)@ == old(self)@,
            !illegal ==> final(self)@ == applied(old(self)@, m),
    {
        proof {
            lemma_apply_undo(self@, m);
        }
        let stm: usize = self.side_to_move;
        let from: usize = from_sq(m);
        let to: usize = to_sq(m);
        let entry = MoveState {
            state: self.state,
            m,
            moved_pc: self.squares[from],
            captured_pc: self.squares[to],
        };
        let st: GameState = self.next_state(m);
        self.move_pieces(m);
        self.stack.push(entry);
        self.state = st;
        self.side_to_move = 1 - stm;
        assert(self@ =~= applied(old(self)@, m));

        let illegal: bool = self.is_king_attacked(stm);
        if illegal {
            self.undo_move();
        }
        illegal
    }

    /// Reverses the last applied move.
    pub fn undo_move(&mut self)
        requires
            old(self)@.wf(),
            old(self).stack.len() > 0,
        ensures
            final(self)@ == undone(old(self)@),
    {
        let opp: usize = self.side_to_move;
        let stm: usize = 1 - opp;
        let e: MoveState = self.stack.pop().unwrap();
        proof {
            assert(entry_ok(old(self)@.stack[old(self)@.stack.len() - 1]));
        }
        let mp: usize = e.moved_pc as usize;
        let cp: usize = e.captured_pc as usize;
        let from: usize = from_sq(e.m);
        let to: usize = to_sq(e.m);
        let ft: u64 = bit_of(from) | bit_of(to);
        let t: u64 = bit_of(to);
        let flag: u16 = e.m & FLAG_MASK;

        self.side_to_move = stm;
        self.state = e.state;
        if flag == EN_PASSANT {
            let pwn: usize = if opp == WHITE {
                to + 8
            } else {
                to - 8
            };
            let p: u64 = bit_of(pwn);
            self.pieces[PAWN] = self.pieces[PAWN] ^ p;
            self.sides[opp] = self.sides[opp] ^ p;
            self.squares[pwn] = PAWN as u8;
        } else if flag == DBL_PUSH {
        } else if flag & PROMO_BIT != 0 {
            assert((flag >> 12u16) & 3u16 <= 3) by (bit_vector);
            let ppc: usize = (((flag >> 12u16) & 3u16) + 1) as usize;
            self.pieces[ppc] = self.pieces[ppc] ^ t;
            self.pieces[mp] = self.pieces[mp] ^ t;
        } else if flag == KS_CASTLE || flag == QS_CASTLE {
            let (r1, r2) = castle_rook_squares(stm, flag == KS_CASTLE);
            let c: u64 = bit_of(r1) | bit_of(r2);
            let tmp: u8 = self.squares[r1];
            self.squares[r1] = self.squares[r2];
            self.squares[r2] = tmp;
            self.pieces[ROOK] = self.pieces[ROOK] ^ c;
            self.sides[stm] = self.sides[stm] ^ c;
        }
        if cp != EMPTY {
            self.pieces[cp] = self.pieces[cp] ^ t;
            self.sides[opp] = self.sides[opp] ^ t;
        }
        self.pieces[mp] = self.pieces[mp] ^ ft;
        self.sides[stm] = self.sides[stm] ^ ft;
        self.squares[from] = e.moved_pc;
        self.squares[to] = e.captured_pc;
        assert(self@ =~= undone(old(self)@));
    }

    /// Passes the turn without moving a piece. Returns the en-passant target
    /// and hash that `undo_null` needs.
    pub fn do_null(&mut self) -> (token: (u16, u64))
        requires
            old(self).nulls < 255,
            old(self).side_to_move < 2,
        ensures
            token == (old(self).state.en_passant_sq, old(self).state.zobrist),
            final(self)@ == nulled(old(self)@),
    {
        self.nulls = self.nulls + 1;
        let enp: u16 = self.state.en_passant_sq;
        let hash: u64 = self.state.zobrist;
        if enp > 0 {
            assert(enp & 7u16 < 8) by (bit_vector);
            self.state.zobrist = self.state.zobrist ^ ep_key_of((enp & 7u16) as usize);
        }
        self.state.en_passant_sq = 0;
        self.side_to_move = 1 - self.side_to_move;
        self.state.zobrist = self.state.zobrist ^ side_key_of();
        (enp, hash)
    }

    /// Reverses the null move that returned `token`.
    pub fn undo_null(&mut self, token: (u16, u64))
        requires
            old(self).nulls > 0,
            old(self).side_to_move < 2,
        ensures
            final(self)@ == null_undone(old(self)@, token),
    {
        self.nulls = self.nulls - 1;
        self.state.zobrist = token.1;
        self.state.en_passant_sq = token.0;
        self.side_to_move = 1 - self.side_to_move;
    }
}

} // verus!
