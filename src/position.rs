//! Board state, game-state snapshot, history entries and the queries on them.
use vstd::prelude::*;
use crate::attacks::{
    bishop_attacks, bishop_attacks_from, bit, king_attacks, king_attacks_from, knight_attacks,
    knight_attacks_from, pawn_attacks, pawn_attacks_from, rook_attacks, rook_attacks_from,
};
use crate::consts::{
    move_flag, move_to, DBL_PUSH, EN_PASSANT, BISHOP, DARK_SQUARES, EMPTY, KING, KNIGHT, LIGHT_SQUARES, PAWN, QUEEN, ROOK,
};

verus! {

/// The part of the position that is saved whole in each history entry.
#[derive(Clone, Copy, Debug, PartialEq, Eq, Structural)]
pub struct GameState {
    pub zobrist: u64,
    pub phase: i16,
    pub mg: i16,
    pub eg: i16,
    /// Target square of an en-passant capture; 0 when there is none.
    pub en_passant_sq: u16,
    pub halfmove_clock: u8,
    pub castle_rights: u8,
}

/// A history entry: the snapshot before a move, the move, and the pieces it
/// moved and captured.
#[derive(Clone, Copy, Debug, PartialEq, Eq, Structural)]
pub struct MoveState {
    pub state: GameState,
    pub m: u16,
    pub moved_pc: u8,
    pub captured_pc: u8,
}

/// A fixed-capacity list of encoded moves; entries at `len` and beyond are unused.
pub struct MoveList {
    pub list: [u16; 256],
    pub len: usize,
}

impl Default for MoveList {
    fn default() -> (r: MoveList)
        ensures
            r.len == 0,
    {
        MoveList::new()
    }
}

impl MoveList {
    pub fn new() -> (r: MoveList)
        ensures
            r.len == 0,
    {
        MoveList { list: [0u16; 256], len: 0 }
    }

    pub fn push(&mut self, m: u16)
        requires
            old(self).len < 256,
        ensures
            final(self).len == old(self).len + 1,
            final(self).list@ == old(self).list@.update(old(self).len as int, m),
    {
        self.list[self.len] = m;
        self.len = self.len + 1;
    }
}

/// A chess position with its history of applied moves.
pub struct Position {
    /// One occupancy mask per piece type, for both sides together.
    pub pieces: [u64; 6],
    /// One occupancy mask per side.
    pub sides: [u64; 2],
    /// Piece type on each square, or `EMPTY`.
    pub squares: [u8; 64],
    pub side_to_move: usize,
    pub state: GameState,
    /// Number of null moves currently applied.
    pub nulls: u8,
    pub stack: Vec<MoveState>,
}

pub ghost struct PositionView {
    pub pieces: Seq<u64>,
    pub sides: Seq<u64>,
    pub squares: Seq<u8>,
    pub side_to_move: usize,
    pub state: GameState,
    pub nulls: u8,
    pub stack: Seq<MoveState>,
}

impl View for Position {
    type V = PositionView;

    open spec fn view(&self) -> PositionView {
        PositionView {
            pieces: self.pieces@,
            sides: self.sides@,
            squares: self.squares@,
            side_to_move: self.side_to_move,
            state: self.state,
            nulls: self.nulls,
            stack: self.stack@,
        }
    }
}

/// A history entry that can be reversed without leaving the board.
pub open spec fn entry_ok(e: MoveState) -> bool {
    &&& e.moved_pc < 6
    &&& e.captured_pc <= EMPTY
    &&& (move_flag(e.m) == EN_PASSANT || move_flag(e.m) == DBL_PUSH) ==> 8 <= move_to(e.m) < 56
}

impl PositionView {
    /// Well-formedness: a side to move, square-cache values in range and
    /// reversible history entries.
    pub open spec fn wf(self) -> bool {
        &&& self.pieces.len() == 6
        &&& self.sides.len() == 2
        &&& self.squares.len() == 64
        &&& self.side_to_move < 2
        &&& forall|i: int| 0 <= i < 64 ==> #[trigger] self.squares[i] <= EMPTY
        &&& forall|i: int| 0 <= i < self.stack.len() ==> entry_ok(#[trigger] self.stack[i])
    }

    /// The placement invariants tying the three board views together: each
    /// occupied square belongs to exactly one side and one piece type, and the
    /// square cache names that type.
    pub open spec fn board_consistent(self) -> bool {
        &&& self.sides[0] & self.sides[1] == 0
        &&& forall|sq: int|
            0 <= sq < 64 ==> {
                let b = bit(sq);
                &&& (#[trigger] self.squares[sq] == EMPTY <==> (self.sides[0] | self.sides[1]) & b
                    == 0)
                &&& forall|p: int|
                    0 <= p < 6 ==> ((self.squares[sq] == p) <==> (#[trigger] self.pieces[p]
                        & b) != 0)
            }
    }

    /// Occupancy of both sides.
    pub open spec fn occupied(self) -> u64 {
        self.sides[0] | self.sides[1]
    }

    /// Whether square `idx` is attacked by the opponent of `side`, with `occ`
    /// as the occupancy that blocks sliding pieces.
    pub open spec fn attacked(self, idx: int, side: int, occ: u64) -> bool {
        let s = self.sides[1 - side];
        let q = self.pieces[QUEEN as int] & s;
        ||| knight_attacks(idx) & self.pieces[KNIGHT as int] & s != 0
        ||| king_attacks(idx) & self.pieces[KING as int] & s != 0
        ||| pawn_attacks(side, idx) & self.pieces[PAWN as int] & s != 0
        ||| rook_attacks(idx, occ) & (self.pieces[ROOK as int] & s | q) != 0
        ||| bishop_attacks(idx, occ) & (self.pieces[BISHOP as int] & s | q) != 0
    }

    /// Square of the king of `side` (the lowest one if there are several); 64
    /// if it has none.
    pub open spec fn king_square(self, side: int) -> int {
        vstd::std_specs::bits::u64_trailing_zeros(
            self.pieces[KING as int] & self.sides[side],
        ) as int
    }

    /// Whether the king of `side` stands attacked; false if it has no king.
    pub open spec fn king_attacked(self, side: int) -> bool {
        let k = self.king_square(side);
        k < 64 && self.attacked(k, side, self.occupied())
    }

    /// Lowest history index that the repetition scan may reach.
    pub open spec fn repetition_floor(self) -> int {
        let l = self.stack.len() as int;
        let c = self.state.halfmove_clock as int;
        if c <= l {
            l - c
        } else {
            0
        }
    }

    /// Whether the current hash occurs at least once among earlier entries with
    /// the same side to move inside the window, and `num` times counting the
    /// current position.
    pub open spec fn repeated(self, num: u8) -> bool {
        let l = self.stack.len() as int;
        &&& l >= 6
        &&& self.nulls == 0
        &&& same_hash_count(self.stack, self.repetition_floor(), l - 2, self.state.zobrist) >= 1
        &&& 1 + same_hash_count(self.stack, self.repetition_floor(), l - 2, self.state.zobrist)
            >= num
    }

    pub open spec fn drawn_by_fifty(self) -> bool {
        self.state.halfmove_clock >= 100
    }

    /// Two bishops, one per side, on squares of the same colour.
    pub open spec fn same_colour_bishops(self) -> bool {
        let b = self.pieces[BISHOP as int];
        &&& b & self.sides[0] != b
        &&& b & self.sides[1] != b
        &&& (b & LIGHT_SQUARES == b || b & DARK_SQUARES == b)
    }

    /// No pawns and at most two minor pieces' worth of phase; at exactly two
    /// only same-coloured opposing bishops.
    pub open spec fn insufficient_material(self) -> bool {
        &&& self.pieces[PAWN as int] == 0
        &&& self.state.phase <= 2
        &&& (self.state.phase == 2 ==> self.same_colour_bishops())
    }
}

/// Number of entries `i, i - 2, i - 4, ...` not below `lo` whose hash is `h`.
pub open spec fn same_hash_count(stack: Seq<MoveState>, lo: int, i: int, h: u64) -> nat
    decreases i + 2 - lo,
{
    if i < lo || i < 0 {
        0
    } else {
        (if stack[i].state.zobrist == h {
            1nat
        } else {
            0nat
        }) + same_hash_count(stack, lo, i - 2, h)
    }
}

/// Counting from `i` finds at least what counting from any lower `j` of the
/// same parity finds.
pub proof fn lemma_count_grows(stack: Seq<MoveState>, lo: int, i: int, h: u64, j: int)
    requires
        0 <= lo <= j <= i,
        (i - j) % 2 == 0,
    ensures
        same_hash_count(stack, lo, i, h) >= same_hash_count(stack, lo, j, h),
    decreases i - j,
{
    if i > j {
        lemma_count_grows(stack, lo, i - 2, h, j);
    }
}

/// Two earlier entries with the current hash, an even number of plies back
/// and inside the half-move window, make the position a threefold repetition
/// when no null move is pending.
pub proof fn lemma_threefold(v: PositionView, j1: int, j2: int)
    requires
        v.stack.len() >= 6,
        v.nulls == 0,
        v.repetition_floor() <= j2 < j1 <= v.stack.len() - 2,
        (v.stack.len() - 2 - j1) % 2 == 0,
        (j1 - j2) % 2 == 0,
        v.stack[j1].state.zobrist == v.state.zobrist,
        v.stack[j2].state.zobrist == v.state.zobrist,
    ensures
        v.repeated(3),
{
    let lo = v.repetition_floor();
    let h = v.state.zobrist;
    let top = v.stack.len() - 2;
    lemma_count_grows(v.stack, lo, top, h, j1);
    lemma_count_grows(v.stack, lo, j1 - 2, h, j2);
    assert(same_hash_count(v.stack, lo, j1, h) == 1 + same_hash_count(v.stack, lo, j1 - 2, h));
    assert(same_hash_count(v.stack, lo, j2, h) >= 1);
}

impl Position {
    /// Whether square `idx` is attacked by the side opposing `side`.
    pub fn is_square_attacked(&self, idx: usize, side: usize, occ: u64) -> (r: bool)
        requires
            idx < 64,
            side < 2,
        ensures
            r == self@.attacked(idx as int, side as int, occ),
    {
        let other: usize = 1 - side;
        let s: u64 = self.sides[other];
        let opp_queen: u64 = self.pieces[QUEEN] & s;
        (knight_attacks_from(idx) & self.pieces[KNIGHT] & s != 0) || (king_attacks_from(idx)
            & self.pieces[KING] & s != 0) || (pawn_attacks_from(side, idx) & self.pieces[PAWN] & s
            != 0) || (rook_attacks_from(idx, occ) & (self.pieces[ROOK] & s | opp_queen) != 0) || (
        bishop_attacks_from(idx, occ) & (self.pieces[BISHOP] & s | opp_queen) != 0)
    }

    /// Whether the king of `side` is attacked.
    pub fn is_king_attacked(&self, side: usize) -> (r: bool)
        requires
            side < 2,
        ensures
            r == self@.king_attacked(side as int),
    {
        let k: u32 = (self.pieces[KING] & self.sides[side]).trailing_zeros();
        if k >= 64 {
            return false;
        }
        self.is_square_attacked(k as usize, side, self.sides[0] | self.sides[1])
    }

    /// Whether the side to move is in check.
    pub fn is_in_check(&self) -> (r: bool)
        requires
            self@.wf(),
        ensures
            r == self@.king_attacked(self.side_to_move as int),
    {
        self.is_king_attacked(self.side_to_move)
    }

    /// Whether the current position has occurred `num` times (the current one
    /// included) since the last irreversible move, with no null move pending.
    pub fn is_draw_by_repetition(&self, num: u8) -> (r: bool)
        ensures
            r == self@.repeated(num),
    {
        let l: usize = self.stack.len();
        if l < 6 || self.nulls > 0 {
            return false;
        }
        let clock: usize = self.state.halfmove_clock as usize;
        let lo: usize = if clock <= l {
            l - clock
        } else {
            0
        };
        let h: u64 = self.state.zobrist;
        let ghost total = same_hash_count(self.stack@, lo as int, l - 2, h);
        let mut count: u8 = 1;
        let mut k: usize = l - 1;
        while k > lo
            invariant
                l == self.stack@.len(),
                l >= 6,
                self.nulls == 0,
                lo as int == self@.repetition_floor(),
                h == self.state.zobrist,
                total == same_hash_count(self.stack@, lo as int, l - 2, h),
                1 <= count,
                count < num || count == 1,
                k < l,
                count as int + same_hash_count(self.stack@, lo as int, k - 1, h) == 1 + total,
            decreases k,
        {
            proof {
                assert(same_hash_count(self.stack@, lo as int, k - 1, h) == (if self.stack@[k
                    - 1].state.zobrist == h {
                    1nat
                } else {
                    0nat
                }) + same_hash_count(self.stack@, lo as int, k - 3, h));
                assert(same_hash_count(self.stack@, lo as int, -1, h) == 0);
                assert(same_hash_count(self.stack@, lo as int, -2, h) == 0);
            }
            if self.stack[k - 1].state.zobrist == h {
                count = count + 1;
                if count >= num {
                    assert(count as int + same_hash_count(self.stack@, lo as int, k - 3, h) == 1
                        + total);
                    return true;
                }
            }
            k = if k >= 2 {
                k - 2
            } else {
                0
            };
        }
        false
    }

    /// Whether the half-move clock has reached 100 plies.
    pub fn is_draw_by_50(&self) -> (r: bool)
        ensures
            r == self@.drawn_by_fifty(),
    {
        self.state.halfmove_clock >= 100
    }

    /// Whether neither side has mating material: bare kings, a single minor
    /// piece, or opposing bishops on squares of one colour.
    pub fn is_draw_by_material(&self) -> (r: bool)
        ensures
            r == self@.insufficient_material(),
    {
        let pawns: u64 = self.pieces[PAWN];
        if pawns == 0 && self.state.phase <= 2 {
            if self.state.phase == 2 {
                let bishops: u64 = self.pieces[BISHOP];
                return bishops & self.sides[0] != bishops && bishops & self.sides[1] != bishops && (
                bishops & LIGHT_SQUARES == bishops || bishops & DARK_SQUARES == bishops);
            }
            return true;
        }
        false
    }
}

} // verus!
