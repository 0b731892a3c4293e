//! Pseudo-legal move generation, for counting and for decoding text moves.
use vstd::prelude::*;
use crate::attacks::{
    bishop_attacks, bishop_attacks_from, bit, bit_of, king_attacks, king_attacks_from,
    knight_attacks, knight_attacks_from, pawn_attacks, pawn_attacks_from, rook_attacks,
    rook_attacks_from,
};
use crate::consts::{
    move_flag, move_from, move_to, BISHOP, BLACK, BLACK_KS, BLACK_QS, CAPTURE, DBL_PUSH,
    EN_PASSANT, KING, KNIGHT, KS_CASTLE, PAWN, PROMO_BIT, QS_CASTLE, QUEEN, QUIET, ROOK, WHITE,
    WHITE_KS, WHITE_QS,
};
use crate::moves::{applied, ep_victim, lemma_apply_undo, move_ok};
use crate::position::{MoveList, Position, PositionView};

verus! {

/// Every listed move can be applied to `v` and moves a piece of the side to move.
pub open spec fn all_ok(v: PositionView, list: MoveList) -> bool {
    &&& list.len <= 256
    &&& forall|i: int|
        0 <= i < list.len ==> {
            let m = #[trigger] list.list[i];
            &&& move_ok(v, m)
            &&& v.sides[v.side_to_move as int] & bit(move_from(m)) != 0
        }
}

/// `list` holds the first (at most 256) moves of `acc`.
pub open spec fn capped(list: MoveList, acc: Seq<u16>) -> bool {
    &&& list.len as int == if acc.len() < 256 {
        acc.len() as int
    } else {
        256
    }
    &&& forall|i: int| 0 <= i < list.len ==> #[trigger] list.list[i] == acc[i]
}

/// Encodes a move from its squares and flag.
pub open spec fn encode(from: int, to: int, flag: u16) -> u16 {
    (flag | ((from as u16) << 6u16) | (to as u16)) as u16
}

pub open spec fn own(v: PositionView) -> u64 {
    v.sides[v.side_to_move as int]
}

pub open spec fn foes(v: PositionView) -> u64 {
    v.sides[1 - v.side_to_move]
}

/// Moves from `from` to the squares of `targets` below `n`, captures where a
/// foe stands.
pub open spec fn target_moves(v: PositionView, from: int, targets: u64, n: int) -> Seq<u16>
    decreases n,
{
    if n <= 0 {
        seq![]
    } else {
        let to = n - 1;
        target_moves(v, from, targets, n - 1) + if targets & bit(to) != 0 {
            seq![encode(from, to, if foes(v) & bit(to) != 0 { CAPTURE } else { QUIET })]
        } else {
            seq![]
        }
    }
}

/// The four promotions from `from` to `to`, knight first.
pub open spec fn promotions(from: int, to: int, capture: bool) -> Seq<u16> {
    let base: u16 = if capture { 0xC000 } else { 0x8000 };
    seq![
        encode(from, to, base),
        encode(from, to, (base + 0x1000) as u16),
        encode(from, to, (base + 0x2000) as u16),
        encode(from, to, (base + 0x3000) as u16),
    ]
}

pub open spec fn last_rank(side: int) -> int {
    if side == WHITE { 6 } else { 1 }
}

pub open spec fn start_rank(side: int) -> int {
    if side == WHITE { 1 } else { 6 }
}

/// Pawn captures from `from` onto the foes' squares below `n`.
pub open spec fn pawn_captures(v: PositionView, from: int, n: int) -> Seq<u16>
    decreases n,
{
    if n <= 0 {
        seq![]
    } else {
        let to = n - 1;
        let stm = v.side_to_move as int;
        pawn_captures(v, from, n - 1) + if pawn_attacks(stm, from) & foes(v) & bit(to) != 0 {
            if from / 8 == last_rank(stm) {
                promotions(from, to, true)
            } else {
                seq![encode(from, to, CAPTURE)]
            }
        } else {
            seq![]
        }
    }
}

/// Single and double pushes of the pawn on `from`.
pub open spec fn pawn_pushes(v: PositionView, from: int) -> Seq<u16> {
    let stm = v.side_to_move as int;
    let occ = v.sides[0] | v.sides[1];
    if (stm == WHITE && from < 56) || (stm == BLACK && from >= 8) {
        let one = if stm == WHITE { from + 8 } else { from - 8 };
        if occ & bit(one) == 0 {
            if from / 8 == last_rank(stm) {
                promotions(from, one, false)
            } else {
                seq![encode(from, one, QUIET)] + if from / 8 == start_rank(stm) {
                    let two = if stm == WHITE { from + 16 } else { from - 16 };
                    if occ & bit(two) == 0 {
                        seq![encode(from, two, DBL_PUSH)]
                    } else {
                        seq![]
                    }
                } else {
                    seq![]
                }
            }
        } else {
            seq![]
        }
    } else {
        seq![]
    }
}

/// The en-passant capture of the pawn on `from`, if there is one.
pub open spec fn pawn_en_passant(v: PositionView, from: int) -> Seq<u16> {
    let stm = v.side_to_move as int;
    let ep = v.state.en_passant_sq as int;
    if 8 <= ep < 56 && pawn_attacks(stm, from) & bit(ep) != 0 {
        let victim = if stm == BLACK { ep + 8 } else { ep - 8 };
        if v.squares[victim] == PAWN {
            seq![encode(from, ep, EN_PASSANT)]
        } else {
            seq![]
        }
    } else {
        seq![]
    }
}

/// Squares a piece of type `pc` on `from` attacks.
pub open spec fn piece_attacks(v: PositionView, pc: int, from: int) -> u64 {
    let occ = v.sides[0] | v.sides[1];
    if pc == KNIGHT {
        knight_attacks(from)
    } else if pc == BISHOP {
        bishop_attacks(from, occ)
    } else if pc == ROOK {
        rook_attacks(from, occ)
    } else if pc == QUEEN {
        rook_attacks(from, occ) | bishop_attacks(from, occ)
    } else {
        king_attacks(from)
    }
}

/// Moves of the piece of the side to move on `from`.
pub open spec fn square_moves(v: PositionView, from: int) -> Seq<u16> {
    let pc = v.squares[from] as int;
    if pc < 6 && own(v) & bit(from) != 0 {
        if pc == PAWN {
            pawn_pushes(v, from) + pawn_captures(v, from, 64) + pawn_en_passant(v, from)
        } else {
            target_moves(v, from, piece_attacks(v, pc, from) & !own(v), 64)
        }
    } else {
        seq![]
    }
}

/// Moves of the pieces on the squares below `n`.
pub open spec fn board_moves(v: PositionView, n: int) -> Seq<u16>
    decreases n,
{
    if n <= 0 {
        seq![]
    } else {
        board_moves(v, n - 1) + square_moves(v, n - 1)
    }
}

/// Castles of the side to move: king and rook on their squares, the right
/// held, the path empty, and the king neither on nor crossing an attacked
/// square.
pub open spec fn castle_moves(v: PositionView) -> Seq<u16> {
    let stm = v.side_to_move as int;
    let occ = v.sides[0] | v.sides[1];
    let rights = v.state.castle_rights;
    let ks: u8 = if stm == WHITE { WHITE_KS } else { BLACK_KS };
    let qs: u8 = if stm == WHITE { WHITE_QS } else { BLACK_QS };
    let king: int = if stm == WHITE { 4 } else { 60 };
    if v.squares[king] != KING || own(v) & bit(king) == 0 || v.attacked(king, stm, occ) {
        seq![]
    } else {
        (if rights & ks != 0 && v.squares[king + 3] == ROOK && own(v) & bit(king + 3) != 0 && occ
            & (bit(king + 1) | bit(king + 2)) == 0 && !v.attacked(king + 1, stm, occ) {
            seq![encode(king, king + 2, KS_CASTLE)]
        } else {
            seq![]
        }) + (if rights & qs != 0 && v.squares[king - 4] == ROOK && own(v) & bit(king - 4) != 0
            && occ & (bit(king - 1) | bit(king - 2) | bit(king - 3)) == 0 && !v.attacked(
            king - 1,
            stm,
            occ,
        ) {
            seq![encode(king, king - 2, QS_CASTLE)]
        } else {
            seq![]
        })
    }
}

/// Every pseudo-legal move of the side to move, in generation order.
pub open spec fn pseudo_legal(v: PositionView) -> Seq<u16> {
    board_moves(v, 64) + castle_moves(v)
}

/// The moves the generator lists: the first 256 pseudo-legal moves.
pub open spec fn gen_list(v: PositionView) -> Seq<u16> {
    let g = pseudo_legal(v);
    if g.len() <= 256 {
        g
    } else {
        g.take(256)
    }
}

/// Whether `m` leaves the mover's king unattacked.
pub open spec fn legal_after(v: PositionView, m: u16) -> bool {
    !applied(v, m).king_attacked(v.side_to_move as int)
}

/// Leaf positions `depth` plies below `v` through legal generated moves.
pub open spec fn leaf_count(v: PositionView, depth: nat) -> nat
    decreases depth, 0nat,
{
    if depth == 0 {
        1
    } else {
        leaf_sum(v, gen_list(v), (depth - 1) as nat)
    }
}

/// Sum over the legal moves of `ms` of the leaf counts `d` plies below.
pub open spec fn leaf_sum(v: PositionView, ms: Seq<u16>, d: nat) -> nat
    decreases d, ms.len(),
{
    if ms.len() == 0 {
        0
    } else {
        leaf_sum(v, ms.drop_last(), d) + if legal_after(v, ms.last()) {
            leaf_count(applied(v, ms.last()), d)
        } else {
            0
        }
    }
}

/// A count held at the largest `u64`.
pub open spec fn saturated(x: nat) -> u64 {
    if x > u64::MAX { u64::MAX } else { x as u64 }
}

fn encode_move(from: usize, to: usize, flag: u16) -> (r: u16)
    requires
        from < 64,
        to < 64,
        flag % 4096 == 0,
    ensures
        r == encode(from as int, to as int, flag),
        move_from(r) == from,
        move_to(r) == to,
        move_flag(r) == flag,
{
    let f: u16 = from as u16;
    let t: u16 = to as u16;
    assert(flag & 0x0FFFu16 == 0) by (bit_vector)
        requires
            flag % 4096 == 0,
    ;
    assert(((flag | (f << 6u16) | t) >> 6u16) & 63u16 == f && (flag | (f << 6u16) | t) & 63u16 == t
        && (flag | (f << 6u16) | t) & 0xF000u16 == flag) by (bit_vector)
        requires
            f < 64,
            t < 64,
            flag & 0x0FFFu16 == 0,
    ;
    flag | (f << 6u16) | t
}

impl Position {
    /// Adds a move unless the list is full.
    fn add_move(
        &self,
        list: &mut MoveList,
        from: usize,
        to: usize,
        flag: u16,
        Ghost(acc): Ghost<Seq<u16>>,
    )
        requires
            self@.wf(),
            all_ok(self@, *old(list)),
            capped(*old(list), acc),
            from < 64,
            to < 64,
            flag % 4096 == 0,
            self.squares[from as int] < 6,
            self.sides[self.side_to_move as int] & bit(from as int) != 0,
            (flag == EN_PASSANT || flag == DBL_PUSH) ==> 8 <= to < 56,
            flag == EN_PASSANT ==> self.squares[ep_victim(1 - self.side_to_move, to as int)]
                == PAWN,
        ensures
            all_ok(self@, *final(list)),
            capped(*final(list), acc.push(encode(from as int, to as int, flag))),
    {
        if list.len < 256 {
            let m = encode_move(from, to, flag);
            list.push(m);
        }
    }

    /// Adds a move to each square of `targets`, a capture where a foe stands.
    fn add_targets(&self, list: &mut MoveList, from: usize, targets: u64, Ghost(acc): Ghost<Seq<u16>>)
        requires
            self@.wf(),
            all_ok(self@, *old(list)),
            capped(*old(list), acc),
            from < 64,
            self.squares[from as int] < 6,
            self.sides[self.side_to_move as int] & bit(from as int) != 0,
        ensures
            all_ok(self@, *final(list)),
            capped(*final(list), acc + target_moves(self@, from as int, targets, 64)),
    {
        let them: u64 = self.sides[1 - self.side_to_move];
        let mut to: usize = 0;
        while to < 64
            invariant
                self@.wf(),
                all_ok(self@, *list),
                to <= 64,
                capped(*list, acc + target_moves(self@, from as int, targets, to as int)),
                from < 64,
                self.squares[from as int] < 6,
                self.sides[self.side_to_move as int] & bit(from as int) != 0,
                them == foes(self@),
            decreases 64 - to,
        {
            let ghost before = acc + target_moves(self@, from as int, targets, to as int);
            let b = bit_of(to);
            if targets & b != 0 {
                let flag: u16 = if them & b != 0 {
                    CAPTURE
                } else {
                    QUIET
                };
                self.add_move(list, from, to, flag, Ghost(before));
                assert(before.push(encode(from as int, to as int, flag)) =~= acc + target_moves(
                    self@,
                    from as int,
                    targets,
                    to + 1,
                ));
            } else {
                assert(before =~= acc + target_moves(self@, from as int, targets, to + 1));
            }
            to = to + 1;
        }
    }

    /// Adds the four promotions from `from` to `to`.
    fn add_promotions(
        &self,
        list: &mut MoveList,
        from: usize,
        to: usize,
        capture: bool,
        Ghost(acc): Ghost<Seq<u16>>,
    )
        requires
            self@.wf(),
            all_ok(self@, *old(list)),
            capped(*old(list), acc),
            from < 64,
            to < 64,
            self.squares[from as int] < 6,
            self.sides[self.side_to_move as int] & bit(from as int) != 0,
        ensures
            all_ok(self@, *final(list)),
            capped(*final(list), acc + promotions(from as int, to as int, capture)),
    {
        let base: u16 = if capture {
            PROMO_BIT + CAPTURE
        } else {
            PROMO_BIT
        };
        let ghost f = from as int;
        let ghost t = to as int;
        self.add_move(list, from, to, base, Ghost(acc));
        let ghost a1 = acc.push(encode(f, t, base));
        self.add_move(list, from, to, base + 0x1000u16, Ghost(a1));
        let ghost a2 = a1.push(encode(f, t, (base + 0x1000) as u16));
        self.add_move(list, from, to, base + 0x2000u16, Ghost(a2));
        let ghost a3 = a2.push(encode(f, t, (base + 0x2000) as u16));
        self.add_move(list, from, to, base + 0x3000u16, Ghost(a3));
        assert(a3.push(encode(f, t, (base + 0x3000) as u16)) =~= acc + promotions(f, t, capture));
    }

    /// Pawn moves from `from`.
    fn gen_pawn(&self, list: &mut MoveList, from: usize, Ghost(acc): Ghost<Seq<u16>>)
        requires
            self@.wf(),
            all_ok(self@, *old(list)),
            capped(*old(list), acc),
            from < 64,
            self.squares[from as int] < 6,
            self.sides[self.side_to_move as int] & bit(from as int) != 0,
        ensures
            all_ok(self@, *final(list)),
            capped(
                *final(list),
                acc + (pawn_pushes(self@, from as int) + pawn_captures(self@, from as int, 64)
                    + pawn_en_passant(self@, from as int)),
            ),
    {
        let ghost f = from as int;
        let ghost v = self@;
        let stm: usize = self.side_to_move;
        let occ: u64 = self.sides[0] | self.sides[1];
        let them: u64 = self.sides[1 - stm];
        let rank: usize = from / 8;
        let last: usize = if stm == WHITE {
            6
        } else {
            1
        };
        let start: usize = if stm == WHITE {
            1
        } else {
            6
        };
        // pushes
        if (stm == WHITE && from < 56) || (stm == BLACK && from >= 8) {
            let one: usize = if stm == WHITE {
                from + 8
            } else {
                from - 8
            };
            if occ & bit_of(one) == 0 {
                if rank == last {
                    self.add_promotions(list, from, one, false, Ghost(acc));
                } else {
                    self.add_move(list, from, one, QUIET, Ghost(acc));
                    let ghost a1 = acc.push(encode(f, one as int, QUIET));
                    if rank == start {
                        let two: usize = if stm == WHITE {
                            from + 16
                        } else {
                            from - 16
                        };
                        if occ & bit_of(two) == 0 {
                            self.add_move(list, from, two, DBL_PUSH, Ghost(a1));
                            assert(a1.push(encode(f, two as int, DBL_PUSH)) =~= acc + pawn_pushes(
                                v,
                                f,
                            ));
                        } else {
                            assert(a1 =~= acc + pawn_pushes(v, f));
                        }
                    } else {
                        assert(a1 =~= acc + pawn_pushes(v, f));
                    }
                }
            } else {
                assert(acc =~= acc + pawn_pushes(v, f));
            }
        } else {
            assert(acc =~= acc + pawn_pushes(v, f));
        }
        let ghost acc1 = acc + pawn_pushes(v, f);
        // captures
        let att: u64 = pawn_attacks_from(stm, from);
        let mut to: usize = 0;
        while to < 64
            invariant
                self@ == v,
                v.wf(),
                all_ok(v, *list),
                to <= 64,
                capped(*list, acc1 + pawn_captures(v, f, to as int)),
                from < 64,
                f == from,
                v.squares[f] < 6,
                v.sides[v.side_to_move as int] & bit(f) != 0,
                stm == v.side_to_move,
                them == foes(v),
                att == pawn_attacks(stm as int, f),
                rank == f / 8,
                last == last_rank(stm as int),
            decreases 64 - to,
        {
            let ghost before = acc1 + pawn_captures(v, f, to as int);
            if att & them & bit_of(to) != 0 {
                if rank == last {
                    self.add_promotions(list, from, to, true, Ghost(before));
                    assert(before + promotions(f, to as int, true) =~= acc1 + pawn_captures(
                        v,
                        f,
                        to + 1,
                    ));
                } else {
                    self.add_move(list, from, to, CAPTURE, Ghost(before));
                    assert(before.push(encode(f, to as int, CAPTURE)) =~= acc1 + pawn_captures(
                        v,
                        f,
                        to + 1,
                    ));
                }
            } else {
                assert(before =~= acc1 + pawn_captures(v, f, to + 1));
            }
            to = to + 1;
        }
        let ghost acc2 = acc1 + pawn_captures(v, f, 64);
        // en passant
        let ep: usize = self.state.en_passant_sq as usize;
        if ep >= 8 && ep < 56 && att & bit_of(ep) != 0 {
            let victim: usize = if stm == BLACK {
                ep + 8
            } else {
                ep - 8
            };
            if self.squares[victim] == PAWN as u8 {
                self.add_move(list, from, ep, EN_PASSANT, Ghost(acc2));
                assert(acc2.push(encode(f, ep as int, EN_PASSANT)) =~= acc2 + pawn_en_passant(v, f));
            } else {
                assert(acc2 =~= acc2 + pawn_en_passant(v, f));
            }
        } else {
            assert(acc2 =~= acc2 + pawn_en_passant(v, f));
        }
        assert(acc2 + pawn_en_passant(v, f) =~= acc + (pawn_pushes(v, f) + pawn_captures(v, f, 64)
            + pawn_en_passant(v, f)));
    }

    /// Castling moves of the side to move.
    fn gen_castles(&self, list: &mut MoveList, Ghost(acc): Ghost<Seq<u16>>)
        requires
            self@.wf(),
            all_ok(self@, *old(list)),
            capped(*old(list), acc),
        ensures
            all_ok(self@, *final(list)),
            capped(*final(list), acc + castle_moves(self@)),
    {
        let ghost v = self@;
        let stm: usize = self.side_to_move;
        let occ: u64 = self.sides[0] | self.sides[1];
        let rights: u8 = self.state.castle_rights;
        let (ks, qs, king): (u8, u8, usize) = if stm == WHITE {
            (WHITE_KS, WHITE_QS, 4)
        } else {
            (BLACK_KS, BLACK_QS, 60)
        };
        if self.squares[king] != KING as u8 || self.sides[stm] & bit_of(king) == 0
            || self.is_square_attacked(king, stm, occ) {
            assert(acc =~= acc + castle_moves(v));
            return;
        }
        let ghost ks_part: Seq<u16> = if rights & ks != 0 && v.squares[king + 3] == ROOK && own(v)
            & bit(king + 3) != 0 && occ & (bit(king + 1) | bit(king + 2)) == 0 && !v.attacked(
            king + 1,
            stm as int,
            occ,
        ) {
            seq![encode(king as int, king + 2, KS_CASTLE)]
        } else {
            seq![]
        };
        if rights & ks != 0 && self.squares[king + 3] == ROOK as u8 && self.sides[stm] & bit_of(
            king + 3,
        ) != 0 && occ & (bit_of(king + 1) | bit_of(king + 2)) == 0 && !self.is_square_attacked(
            king + 1,
            stm,
            occ,
        ) {
            self.add_move(list, king, king + 2, KS_CASTLE, Ghost(acc));
            assert(acc.push(encode(king as int, king + 2, KS_CASTLE)) =~= acc + ks_part);
        } else {
            assert(acc =~= acc + ks_part);
        }
        let ghost a1 = acc + ks_part;
        let ghost qs_part: Seq<u16> = if rights & qs != 0 && v.squares[king - 4] == ROOK && own(v)
            & bit(king - 4) != 0 && occ & (bit(king - 1) | bit(king - 2) | bit(king - 3)) == 0
            && !v.attacked(king - 1, stm as int, occ) {
            seq![encode(king as int, king - 2, QS_CASTLE)]
        } else {
            seq![]
        };
        if rights & qs != 0 && self.squares[king - 4] == ROOK as u8 && self.sides[stm] & bit_of(
            king - 4,
        ) != 0 && occ & (bit_of(king - 1) | bit_of(king - 2) | bit_of(king - 3)) == 0
            && !self.is_square_attacked(king - 1, stm, occ) {
            self.add_move(list, king, king - 2, QS_CASTLE, Ghost(a1));
            assert(a1.push(encode(king as int, king - 2, QS_CASTLE)) =~= a1 + qs_part);
        } else {
            assert(a1 =~= a1 + qs_part);
        }
        assert(a1 + qs_part =~= acc + castle_moves(v));
    }

    /// Fills `list` with the pseudo-legal moves of the side to move, as many
    /// as fit in its 256 entries.
    pub fn gen_moves(&self, list: &mut MoveList)
        requires
            self@.wf(),
        ensures
            all_ok(self@, *final(list)),
            final(list).list@.take(final(list).len as int) == gen_list(self@),
    {
        let ghost v = self@;
        list.len = 0;
        let stm: usize = self.side_to_move;
        let us: u64 = self.sides[stm];
        let occ: u64 = self.sides[0] | self.sides[1];
        let mut from: usize = 0;
        while from < 64
            invariant
                self@ == v,
                v.wf(),
                all_ok(v, *list),
                from <= 64,
                capped(*list, board_moves(v, from as int)),
                stm == v.side_to_move,
                us == own(v),
                occ == v.sides[0] | v.sides[1],
            decreases 64 - from,
        {
            let ghost before = board_moves(v, from as int);
            let pc: usize = self.squares[from] as usize;
            if pc < 6 && us & bit_of(from) != 0 {
                if pc == PAWN {
                    self.gen_pawn(list, from, Ghost(before));
                } else {
                    let att: u64 = if pc == KNIGHT {
                        knight_attacks_from(from)
                    } else if pc == BISHOP {
                        bishop_attacks_from(from, occ)
                    } else if pc == ROOK {
                        rook_attacks_from(from, occ)
                    } else if pc == QUEEN {
                        rook_attacks_from(from, occ) | bishop_attacks_from(from, occ)
                    } else {
                        king_attacks_from(from)
                    };
                    assert(att == piece_attacks(v, pc as int, from as int));
                    self.add_targets(list, from, att & !us, Ghost(before));
                }
            } else {
                assert(before =~= before + square_moves(v, from as int));
            }
            from = from + 1;
        }
        self.gen_castles(list, Ghost(board_moves(v, 64)));
        assert(list.list@.take(list.len as int) =~= gen_list(v));
    }
}

/// Counts the leaf positions reached by applying every legal generated move,
/// `depth` plies deep, held at the largest `u64`. The position is left as it
/// was.
pub fn perft(pos: &mut Position, depth: u8) -> (r: u64)
    requires
        old(pos)@.wf(),
    ensures
        final(pos)@ == old(pos)@,
        r == saturated(leaf_count(old(pos)@, depth as nat)),
    decreases depth,
{
    if depth == 0 {
        return 1;
    }
    let ghost v = pos@;
    let mut moves = MoveList::new();
    pos.gen_moves(&mut moves);
    let ghost g = gen_list(v);
    let mut positions: u64 = 0;
    let mut i: usize = 0;
    while i < moves.len
        invariant
            pos@ == v,
            v.wf(),
            all_ok(v, moves),
            moves.list@.take(moves.len as int) == g,
            depth > 0,
            i <= moves.len,
            positions == saturated(leaf_sum(v, g.take(i as int), (depth - 1) as nat)),
        decreases moves.len - i,
    {
        let m: u16 = moves.list[i];
        assert(g.take(i + 1).drop_last() =~= g.take(i as int));
        assert(g.take(i + 1).last() == m);
        let illegal: bool = pos.do_move(m);
        if !illegal {
            proof {
                lemma_apply_undo(v, m);
            }
            let count: u64 = perft(pos, depth - 1);
            positions = if count <= u64::MAX - positions {
                positions + count
            } else {
                u64::MAX
            };
            pos.undo_move();
        }
        i = i + 1;
    }
    assert(g.take(moves.len as int) =~= g);
    positions
}

} // verus!
