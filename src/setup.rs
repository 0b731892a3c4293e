//! Building positions and recomputing their running totals from scratch.
use vstd::prelude::*;
use crate::attacks::{bit, bit_of};
use crate::consts::{
    ALL_RIGHTS, BISHOP, BLACK, EMPTY, KING, KNIGHT, PAWN, QUEEN, ROOK, WHITE,
};
use crate::eval::{
    phase_val, phase_val_of, pst_eg, pst_eg_of, pst_mg, pst_mg_of, signed, table_index,
    table_index_of,
};
use crate::moves::{applied, lemma_apply_undo, move_ok, undone};
use crate::position::{GameState, Position, PositionView};
use crate::zobrist::{
    castle_hash, castle_hash_of, ep_key, ep_key_of, piece_key, piece_key_of, side_key, side_key_of,
};

verus! {

/// The 768 (side, piece, square) slots are walked side by side, piece type by
/// piece type, square by square.
pub open spec fn slot_side(k: int) -> int {
    k / 384
}

pub open spec fn slot_piece(k: int) -> int {
    (k / 64) % 6
}

pub open spec fn slot_sq(k: int) -> int {
    k % 64
}

/// Whether the board given by `pieces` and `sides` holds slot `k`.
pub open spec fn slot_held(pieces: Seq<u64>, sides: Seq<u64>, k: int) -> bool {
    pieces[slot_piece(k)] & sides[slot_side(k)] & bit(slot_sq(k)) != 0
}

/// Phase weight of the pieces in the first `k` slots.
pub open spec fn phase_sum(pieces: Seq<u64>, sides: Seq<u64>, k: int) -> int
    decreases k,
{
    if k <= 0 {
        0
    } else {
        phase_sum(pieces, sides, k - 1) + if slot_held(pieces, sides, k - 1) {
            phase_val(slot_piece(k - 1))
        } else {
            0
        }
    }
}

/// Signed midgame value of the pieces in the first `k` slots.
pub open spec fn mg_sum(pieces: Seq<u64>, sides: Seq<u64>, k: int) -> int
    decreases k,
{
    if k <= 0 {
        0
    } else {
        mg_sum(pieces, sides, k - 1) + if slot_held(pieces, sides, k - 1) {
            signed(
                slot_side(k - 1),
                pst_mg(slot_piece(k - 1), table_index(slot_side(k - 1), slot_sq(k - 1))),
            )
        } else {
            0
        }
    }
}

/// Signed endgame value of the pieces in the first `k` slots.
pub open spec fn eg_sum(pieces: Seq<u64>, sides: Seq<u64>, k: int) -> int
    decreases k,
{
    if k <= 0 {
        0
    } else {
        eg_sum(pieces, sides, k - 1) + if slot_held(pieces, sides, k - 1) {
            signed(
                slot_side(k - 1),
                pst_eg(slot_piece(k - 1), table_index(slot_side(k - 1), slot_sq(k - 1))),
            )
        } else {
            0
        }
    }
}

/// XOR of the keys of the pieces in the first `k` slots of the board given by
/// `pieces` and `sides`.
pub open spec fn piece_hash(pieces: Seq<u64>, sides: Seq<u64>, k: int) -> u64
    decreases k,
{
    if k <= 0 {
        0
    } else {
        piece_hash(pieces, sides, k - 1) ^ if pieces[slot_piece(k - 1)] & sides[slot_side(k - 1)]
            & bit(slot_sq(k - 1)) != 0 {
            piece_key(slot_side(k - 1), slot_piece(k - 1), slot_sq(k - 1))
        } else {
            0
        }
    }
}

impl PositionView {
    /// Phase of the position computed from scratch.
    pub open spec fn phase_total(self) -> int {
        phase_sum(self.pieces, self.sides, 768)
    }

    /// Midgame total of the position computed from scratch.
    pub open spec fn mg_total(self) -> int {
        mg_sum(self.pieces, self.sides, 768)
    }

    /// Endgame total of the position computed from scratch.
    pub open spec fn eg_total(self) -> int {
        eg_sum(self.pieces, self.sides, 768)
    }

    /// Whether the snapshot's hash, phase and totals agree with the values
    /// computed from scratch (the totals modulo 2^16).
    pub open spec fn totals_agree(self) -> bool {
        &&& self.state.zobrist == self.full_hash()
        &&& self.state.phase == #[verifier::truncate] (self.phase_total() as i16)
        &&& self.state.mg == #[verifier::truncate] (self.mg_total() as i16)
        &&& self.state.eg == #[verifier::truncate] (self.eg_total() as i16)
    }

    /// The hash of the position computed from scratch: every piece, the side
    /// to move when it is the second side, the en-passant file and each held
    /// castling right.
    pub open spec fn full_hash(self) -> u64 {
        piece_hash(self.pieces, self.sides, 768) ^ (if self.side_to_move == BLACK {
            side_key()
        } else {
            0
        }) ^ (if self.state.en_passant_sq > 0 {
            ep_key((self.state.en_passant_sq & 7) as int)
        } else {
            0
        }) ^ castle_hash(self.state.castle_rights)
    }
}

impl Position {
    /// An empty board, first side to move, no castling rights, no history.
    pub fn new() -> (r: Position)
        ensures
            r@.wf(),
            r@.board_consistent(),
            forall|i: int| 0 <= i < 64 ==> #[trigger] r.squares[i] == EMPTY,
            r.side_to_move == WHITE,
            r.nulls == 0,
            r.stack@.len() == 0,
            forall|i: int| 0 <= i < 6 ==> r.pieces[i] == 0,
            forall|i: int| 0 <= i < 2 ==> r.sides[i] == 0,
            r.state == (GameState {
                zobrist: 0,
                phase: 0,
                mg: 0,
                eg: 0,
                en_passant_sq: 0,
                halfmove_clock: 0,
                castle_rights: 0,
            }),
    {
        let r = Position {
            pieces: [0u64; 6],
            sides: [0u64; 2],
            squares: [EMPTY as u8; 64],
            side_to_move: WHITE,
            state: GameState {
                zobrist: 0,
                phase: 0,
                mg: 0,
                eg: 0,
                en_passant_sq: 0,
                halfmove_clock: 0,
                castle_rights: 0,
            },
            nulls: 0,
            stack: Vec::new(),
        };
        assert(0u64 & 0u64 == 0 && 0u64 | 0u64 == 0) by (bit_vector);
        assert forall|sq: int| 0 <= sq < 64 implies ({
            let b = bit(sq);
            &&& (#[trigger] r@.squares[sq] == EMPTY <==> (r@.sides[0] | r@.sides[1]) & b == 0)
            &&& forall|p: int|
                0 <= p < 6 ==> ((r@.squares[sq] == p) <==> (#[trigger] r@.pieces[p] & b) != 0)
        }) by {
            let b = bit(sq);
            assert(0u64 & b == 0) by (bit_vector);
        }
        r
    }

    /// Puts a piece of `side` and type `piece` on the empty square `sq`. The
    /// running totals are left as they are: `refresh` recomputes them.
    pub fn put_piece(&mut self, side: usize, piece: usize, sq: usize)
        requires
            side < 2,
            piece < 6,
            sq < 64,
            old(self)@.wf(),
        ensures
            final(self)@.wf(),
            final(self).squares@ == old(self).squares@.update(sq as int, piece as u8),
            final(self).pieces@ == old(self).pieces@.update(
                piece as int,
                old(self).pieces[piece as int] | bit(sq as int),
            ),
            final(self).sides@ == old(self).sides@.update(
                side as int,
                old(self).sides[side as int] | bit(sq as int),
            ),
            final(self).side_to_move == old(self).side_to_move,
            final(self).state == old(self).state,
            final(self).nulls == old(self).nulls,
            final(self).stack@ == old(self).stack@,
    {
        let b = bit_of(sq);
        self.pieces[piece] = self.pieces[piece] | b;
        self.sides[side] = self.sides[side] | b;
        self.squares[sq] = piece as u8;
        assert(forall|i: int| 0 <= i < 64 ==> #[trigger] self.squares@[i] <= EMPTY);
        assert(self@.pieces.len() == 6);
        assert(self@.sides.len() == 2);
        assert(self@.squares.len() == 64);
        assert(forall|i: int| 0 <= i < self@.stack.len() ==> self@.stack[i] == old(self)@.stack[i]);
    }

    /// Recomputes phase and the midgame and endgame totals from scratch.
    pub fn calc(&self) -> (r: (i16, i16, i16))
        requires
            self@.wf(),
        ensures
            r.0 == #[verifier::truncate] (self@.phase_total() as i16),
            r.1 == #[verifier::truncate] (self@.mg_total() as i16),
            r.2 == #[verifier::truncate] (self@.eg_total() as i16),
    {
        let mut ph: i32 = 0;
        let mut mg: i32 = 0;
        let mut eg: i32 = 0;
        let mut k: usize = 0;
        while k < 768
            invariant
                self@.wf(),
                k <= 768,
                ph == phase_sum(self.pieces@, self.sides@, k as int),
                mg == mg_sum(self.pieces@, self.sides@, k as int),
                eg == eg_sum(self.pieces@, self.sides@, k as int),
                0 <= ph <= 4 * k,
                -2000 * k <= mg <= 2000 * k,
                -2000 * k <= eg <= 2000 * k,
            decreases 768 - k,
        {
            let side: usize = k / 384;
            let piece: usize = (k / 64) % 6;
            let sq: usize = k % 64;
            if self.pieces[piece] & self.sides[side] & bit_of(sq) != 0 {
                let i = table_index_of(side, sq);
                let vm = pst_mg_of(piece, i);
                let ve = pst_eg_of(piece, i);
                ph = ph + phase_val_of(piece);
                if side == WHITE {
                    mg = mg + vm;
                    eg = eg + ve;
                } else {
                    mg = mg - vm;
                    eg = eg - ve;
                }
            }
            k = k + 1;
        }
        (ph as i16, mg as i16, eg as i16)
    }

    /// Computes the hash of the position from scratch.
    pub fn hash(&self) -> (r: u64)
        requires
            self@.wf(),
        ensures
            r == self@.full_hash(),
    {
        let mut h: u64 = 0;
        let mut k: usize = 0;
        while k < 768
            invariant
                self@.wf(),
                k <= 768,
                h == piece_hash(self.pieces@, self.sides@, k as int),
            decreases 768 - k,
        {
            let side: usize = k / 384;
            let piece: usize = (k / 64) % 6;
            let sq: usize = k % 64;
            if self.pieces[piece] & self.sides[side] & bit_of(sq) != 0 {
                h = h ^ piece_key_of(side, piece, sq);
            } else {
                assert(h ^ 0u64 == h) by (bit_vector);
            }
            k = k + 1;
        }
        let hp: u64 = h;
        assert(hp ^ 0u64 == hp) by (bit_vector);
        if self.side_to_move == BLACK {
            h = h ^ side_key_of();
        }
        let ep: u16 = self.state.en_passant_sq;
        if ep > 0 {
            assert(ep & 7u16 < 8) by (bit_vector);
            h = h ^ ep_key_of((ep & 7u16) as usize);
        } else {
            let he: u64 = h;
            assert(he ^ 0u64 == he) by (bit_vector);
        }
        h ^ castle_hash_of(self.state.castle_rights)
    }

    /// Seeds the snapshot from the board: phase and totals from scratch, then
    /// the hash. Clears the history.
    pub fn refresh(&mut self)
        requires
            old(self)@.wf(),
        ensures
            final(self)@.wf(),
            final(self).pieces == old(self).pieces,
            final(self).sides == old(self).sides,
            final(self).squares == old(self).squares,
            final(self).side_to_move == old(self).side_to_move,
            final(self).nulls == old(self).nulls,
            final(self).stack@.len() == 0,
            final(self).state.phase == #[verifier::truncate] (old(self)@.phase_total() as i16),
            final(self).state.mg == #[verifier::truncate] (old(self)@.mg_total() as i16),
            final(self).state.eg == #[verifier::truncate] (old(self)@.eg_total() as i16),
            final(self).state.en_passant_sq == old(self).state.en_passant_sq,
            final(self).state.halfmove_clock == old(self).state.halfmove_clock,
            final(self).state.castle_rights == old(self).state.castle_rights,
            final(self).state.zobrist == final(self)@.full_hash(),
            final(self)@.totals_agree(),
    {
        let (ph, mg, eg) = self.calc();
        self.state.phase = ph;
        self.state.mg = mg;
        self.state.eg = eg;
        self.stack = Vec::new();
        let h = self.hash();
        self.state.zobrist = h;
    }
}

proof fn lemma_or_bit(x: u64, u: u64, u2: u64)
    requires
        u < 64,
        u2 < 64,
    ensures
        (x | (1u64 << u)) & (1u64 << u2) == if u2 == u {
            1u64 << u
        } else {
            x & (1u64 << u2)
        },
        1u64 << u != 0,
{
    assert((x | (1u64 << u)) & (1u64 << u2) == if u2 == u {
        1u64 << u
    } else {
        x & (1u64 << u2)
    }) by (bit_vector)
        requires
            u < 64,
            u2 < 64,
    ;
    assert(1u64 << u != 0) by (bit_vector)
        requires
            u < 64,
    ;
}

/// Putting a piece on an empty square keeps the board consistent.
pub proof fn lemma_put_consistent(v: PositionView, side: int, piece: int, sq: int)
    requires
        v.wf(),
        v.board_consistent(),
        0 <= side < 2,
        0 <= piece < 6,
        0 <= sq < 64,
        v.squares[sq] == EMPTY,
    ensures
        (PositionView {
            pieces: v.pieces.update(piece, v.pieces[piece] | bit(sq)),
            sides: v.sides.update(side, v.sides[side] | bit(sq)),
            squares: v.squares.update(sq, piece as u8),
            ..v
        }).board_consistent(),
{
    let w = PositionView {
        pieces: v.pieces.update(piece, v.pieces[piece] | bit(sq)),
        sides: v.sides.update(side, v.sides[side] | bit(sq)),
        squares: v.squares.update(sq, piece as u8),
        ..v
    };
    let b = bit(sq);
    let su = sq as u64;
    let s0 = v.sides[0];
    let s1 = v.sides[1];
    assert((s0 | s1) & b == 0);
    assert(s0 & s1 == 0 && (s0 | s1) & b == 0 ==> ((s0 | b) & s1 == 0 && s0 & (s1 | b) == 0
        && (s0 | b | s1) & b != 0 && (s0 | (s1 | b)) & b != 0)) by (bit_vector)
        requires
            b == 1u64 << su,
            su < 64,
    ;
    assert forall|sq2: int| 0 <= sq2 < 64 implies ({
        let d = bit(sq2);
        &&& (#[trigger] w.squares[sq2] == EMPTY <==> (w.sides[0] | w.sides[1]) & d == 0)
        &&& forall|p: int|
            0 <= p < 6 ==> ((w.squares[sq2] == p) <==> (#[trigger] w.pieces[p] & d) != 0)
    }) by {
        let d = bit(sq2);
        assert(v.squares[sq2] == EMPTY <==> (s0 | s1) & d == 0);
        let u = sq as u64;
        let u2 = sq2 as u64;
        lemma_or_bit(s0 | s1, u, u2);
        assert((s0 | b) | s1 == (s0 | s1) | b && s0 | (s1 | b) == (s0 | s1) | b) by (bit_vector);
        assert forall|p: int| 0 <= p < 6 implies ((w.squares[sq2] == p) <==> (#[trigger] w.pieces[p]
            & d) != 0) by {
            lemma_or_bit(v.pieces[p], u, u2);
            assert(v.squares[sq2] == p <==> v.pieces[p] & d != 0);
            assert(v.squares[sq] == p <==> v.pieces[p] & b != 0);
        }
    }
}

/// Piece type on square `sq` in the standard initial position.
pub open spec fn start_square(sq: int) -> u8 {
    let f = sq % 8;
    if 16 <= sq < 48 {
        EMPTY as u8
    } else if 8 <= sq < 16 || 48 <= sq < 56 {
        PAWN as u8
    } else if f == 0 || f == 7 {
        ROOK as u8
    } else if f == 1 || f == 6 {
        KNIGHT as u8
    } else if f == 2 || f == 5 {
        BISHOP as u8
    } else if f == 3 {
        QUEEN as u8
    } else {
        KING as u8
    }
}

proof fn lemma_startpos_consistent(v: PositionView)
    requires
        v.pieces == seq![
            0x00FF_0000_0000_FF00u64,
            0x4200_0000_0000_0042u64,
            0x2400_0000_0000_0024u64,
            0x8100_0000_0000_0081u64,
            0x0800_0000_0000_0008u64,
            0x1000_0000_0000_0010u64,
        ],
        v.sides == seq![0xFFFFu64, 0xFFFF_0000_0000_0000u64],
        forall|sq: int| 0 <= sq < 64 ==> #[trigger] v.squares[sq] == start_square(sq),
    ensures
        v.board_consistent(),
{
    assert(0xFFFFu64 & 0xFFFF_0000_0000_0000u64 == 0) by (bit_vector);
    assert forall|sq: int| 0 <= sq < 64 implies ({
        let b = bit(sq);
        &&& (#[trigger] v.squares[sq] == EMPTY <==> (v.sides[0] | v.sides[1]) & b == 0)
        &&& forall|p: int|
            0 <= p < 6 ==> ((v.squares[sq] == p) <==> (#[trigger] v.pieces[p] & b) != 0)
    }) by {
        let u = sq as u64;
        let b = 1u64 << u;
        assert(((0xFFFFu64 | 0xFFFF_0000_0000_0000u64) & b == 0) == (16 <= u && u < 48)
            && ((0x00FF_0000_0000_FF00u64 & b != 0) == ((8 <= u && u < 16) || (48 <= u && u < 56)))
            && ((0x4200_0000_0000_0042u64 & b != 0) == (u == 1 || u == 6 || u == 57 || u == 62))
            && ((0x2400_0000_0000_0024u64 & b != 0) == (u == 2 || u == 5 || u == 58 || u == 61))
            && ((0x8100_0000_0000_0081u64 & b != 0) == (u == 0 || u == 7 || u == 56 || u == 63))
            && ((0x0800_0000_0000_0008u64 & b != 0) == (u == 3 || u == 59))
            && ((0x1000_0000_0000_0010u64 & b != 0) == (u == 4 || u == 60))) by (bit_vector)
            requires
                u < 64,
                b == 1u64 << u,
        ;
    }
}

impl Position {
    /// The standard initial position, with its snapshot seeded from scratch.
    pub fn startpos() -> (r: Position)
        ensures
            r@.wf(),
            r.pieces@ == seq![
                0x00FF_0000_0000_FF00u64,
                0x4200_0000_0000_0042u64,
                0x2400_0000_0000_0024u64,
                0x8100_0000_0000_0081u64,
                0x0800_0000_0000_0008u64,
                0x1000_0000_0000_0010u64,
            ],
            r.sides@ == seq![0xFFFFu64, 0xFFFF_0000_0000_0000u64],
            r@.board_consistent(),
            r.side_to_move == WHITE,
            r.state.castle_rights == ALL_RIGHTS,
            r.state.en_passant_sq == 0,
            r.state.halfmove_clock == 0,
            r.nulls == 0,
            r.stack@.len() == 0,
            r@.totals_agree(),
            forall|sq: int| 0 <= sq < 64 ==> #[trigger] r.squares[sq] == start_square(sq),
    {
        let e: u8 = EMPTY as u8;
        let mut pos = Position {
            pieces: [
                0x00FF_0000_0000_FF00u64,
                0x4200_0000_0000_0042u64,
                0x2400_0000_0000_0024u64,
                0x8100_0000_0000_0081u64,
                0x0800_0000_0000_0008u64,
                0x1000_0000_0000_0010u64,
            ],
            sides: [0xFFFFu64, 0xFFFF_0000_0000_0000u64],
            squares: [
                3, 1, 2, 4, 5, 2, 1, 3,
                0, 0, 0, 0, 0, 0, 0, 0,
                e, e, e, e, e, e, e, e,
                e, e, e, e, e, e, e, e,
                e, e, e, e, e, e, e, e,
                e, e, e, e, e, e, e, e,
                0, 0, 0, 0, 0, 0, 0, 0,
                3, 1, 2, 4, 5, 2, 1, 3,
            ],
            side_to_move: WHITE,
            state: GameState {
                zobrist: 0,
                phase: 0,
                mg: 0,
                eg: 0,
                en_passant_sq: 0,
                halfmove_clock: 0,
                castle_rights: ALL_RIGHTS,
            },
            nulls: 0,
            stack: Vec::new(),
        };
        assert(pos.pieces@ =~= seq![
            0x00FF_0000_0000_FF00u64,
            0x4200_0000_0000_0042u64,
            0x2400_0000_0000_0024u64,
            0x8100_0000_0000_0081u64,
            0x0800_0000_0000_0008u64,
            0x1000_0000_0000_0010u64,
        ]);
        assert(pos.sides@ =~= seq![0xFFFFu64, 0xFFFF_0000_0000_0000u64]);
        assert(forall|sq: int| 0 <= sq < 64 ==> #[trigger] pos.squares@[sq] == start_square(sq));
        proof {
            lemma_startpos_consistent(pos@);
        }
        let ghost before = pos@;
        pos.refresh();
        assert(pos@.pieces == before.pieces);
        assert(pos@.sides == before.sides);
        assert(pos@.squares == before.squares);
        pos
    }
}

/// With no pieces but kings on the board, the phase counts nothing.
pub proof fn lemma_phase_of_kings(pieces: Seq<u64>, sides: Seq<u64>, k: int)
    requires
        pieces.len() == 6,
        forall|p: int| 0 <= p < KING ==> #[trigger] pieces[p] == 0,
    ensures
        phase_sum(pieces, sides, k) == 0,
    decreases k,
{
    if k > 0 {
        lemma_phase_of_kings(pieces, sides, k - 1);
        let p = slot_piece(k - 1);
        if p < KING {
            let a = sides[slot_side(k - 1)];
            let b = bit(slot_sq(k - 1));
            assert(0u64 & a & b == 0) by (bit_vector);
        }
    }
}

/// Bare kings are a draw by insufficient material once the phase agrees with
/// the board.
pub proof fn lemma_bare_kings_drawn(v: PositionView)
    requires
        v.wf(),
        v.totals_agree(),
        forall|p: int| 0 <= p < KING ==> #[trigger] v.pieces[p] == 0,
    ensures
        v.insufficient_material(),
{
    lemma_phase_of_kings(v.pieces, v.sides, 768);
}

/// A move followed by its reversal leaves a snapshot that agreed with the
/// from-scratch values still agreeing with them.
pub proof fn lemma_round_trip_keeps_totals(v: PositionView, m: u16)
    requires
        v.wf(),
        move_ok(v, m),
        v.totals_agree(),
    ensures
        undone(applied(v, m)).totals_agree(),
{
    lemma_apply_undo(v, m);
}

} // verus!
