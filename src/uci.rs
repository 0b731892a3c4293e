//! Text forms of squares and moves, and position set-up from text.
use vstd::prelude::*;
use crate::consts::{
    move_from, move_to, BLACK, BLACK_KS, BLACK_QS, PROMO_BIT, WHITE, WHITE_KS,
    WHITE_QS,
};
use crate::movegen::{all_ok, gen_list};
use crate::moves::move_ok;
use crate::consts::EMPTY;
use crate::position::{MoveList, Position, PositionView};
use crate::attacks::bit;
use crate::setup::lemma_put_consistent;

verus! {

/// Algebraic name of square `idx`: its file letter and rank digit.
pub open spec fn square_text(idx: int) -> Seq<u8> {
    seq![(97 + idx % 8) as u8, (49 + idx / 8) as u8]
}

/// Square named by the file letter `f` and rank digit `r`, if both are on
/// the board.
pub open spec fn square_of(f: u8, r: u8) -> Option<int> {
    if 97 <= f <= 104 && 49 <= r <= 56 {
        Some(8 * (r - 49) + (f - 97))
    } else {
        None
    }
}

/// Letter of a promotion piece, from bits 12 and 13 of a move.
pub open spec fn promo_letter(k: int) -> u8 {
    if k == 0 {
        110u8
    } else if k == 1 {
        98u8
    } else if k == 2 {
        114u8
    } else {
        113u8
    }
}

/// Text form of a move: source, destination, a promotion letter where there
/// is one, then a space.
pub open spec fn move_text(m: u16) -> Seq<u8> {
    square_text(move_from(m)) + square_text(move_to(m)) + (if m & PROMO_BIT != 0 {
        seq![promo_letter(((m >> 12u16) & 3u16) as int)]
    } else {
        seq![]
    }) + seq![32u8]
}

pub fn idx_to_sq(idx: u16) -> (r: Vec<u8>)
    requires
        idx < 64,
    ensures
        r@ == square_text(idx as int),
{
    let mut r: Vec<u8> = Vec::new();
    r.push((97 + idx % 8) as u8);
    r.push((49 + idx / 8) as u8);
    assert(r@ =~= square_text(idx as int));
    r
}

/// Square named by the bytes at `i` and `i + 1` of `s`.
fn square_at(s: &[u8], i: usize) -> (r: Option<u16>)
    requires
        i + 1 < s@.len(),
    ensures
        match square_of(s@[i as int], s@[i + 1]) {
            Some(x) => r == Some(x as u16) && x < 64,
            None => r is None,
        },
{
    let f: u8 = s[i];
    let rk: u8 = s[i + 1];
    if 97 <= f && f <= 104 && 49 <= rk && rk <= 56 {
        Some(8 * (rk - 49) as u16 + (f - 97) as u16)
    } else {
        None
    }
}

/// Square named by the first two bytes of `sq`.
pub fn sq_to_idx(sq: &[u8]) -> (r: Option<u16>)
    ensures
        sq@.len() < 2 ==> r is None,
        sq@.len() >= 2 ==> match square_of(sq@[0], sq@[1]) {
            Some(i) => r == Some(i as u16),
            None => r is None,
        },
{
    if sq.len() < 2 {
        return None;
    }
    square_at(sq, 0)
}

pub fn u16_to_uci(m: &u16) -> (r: Vec<u8>)
    ensures
        r@ == move_text(*m),
{
    let m: u16 = *m;
    assert((m >> 6u16) & 63u16 < 64 && m & 63u16 < 64 && (m >> 12u16) & 3u16 < 4) by (bit_vector);
    let mut r = idx_to_sq((m >> 6u16) & 63u16);
    let mut to = idx_to_sq(m & 63u16);
    r.append(&mut to);
    if m & PROMO_BIT != 0 {
        let k: u16 = (m >> 12u16) & 3u16;
        r.push(
            if k == 0 {
                110u8
            } else if k == 1 {
                98u8
            } else if k == 2 {
                114u8
            } else {
                113u8
            },
        );
    }
    r.push(32u8);
    assert(r@ =~= move_text(m));
    r
}

/// Promotion bits (flag bits 15, 13 and 12) named by a promotion letter; 0 for
/// any other byte.
pub open spec fn promo_flag(c: u8) -> u16 {
    if c == 110 {
        0x8000
    } else if c == 98 {
        0x9000
    } else if c == 114 {
        0xA000
    } else if c == 113 {
        0xB000
    } else {
        0
    }
}

/// Whether the text `m` names move `um`: its squares, and its promotion
/// bits as the fifth byte gives them (none when the text is longer).
pub open spec fn text_matches(um: u16, m: Seq<u8>) -> bool {
    &&& m.len() >= 4
    &&& square_of(m[0], m[1]) == Some(move_from(um))
    &&& square_of(m[2], m[3]) == Some(move_to(um))
    &&& m.len() >= 5 ==> um & 0xB000u16 == if m.len() == 5 {
        promo_flag(m[4])
    } else {
        0
    }
}

/// The first of the `list.len` moves of `list` that the text `m` names.
pub fn find_text_move(list: &MoveList, m: &[u8]) -> (r: Option<u16>)
    requires
        list.len <= 256,
    ensures
        r is None <==> forall|i: int| 0 <= i < list.len ==> !text_matches(#[trigger] list.list[i], m@),
        r matches Some(x) ==> exists|i: int|
            0 <= i < list.len && #[trigger] list.list[i] == x && text_matches(x, m@) && forall|j: int|
                0 <= j < i ==> !text_matches(#[trigger] list.list[j], m@),
{
    let l: usize = m.len();
    if l < 4 {
        return None;
    }
    let from: u16 = match square_at(m, 0) {
        Some(f) => f,
        None => {
            return None;
        },
    };
    let to: u16 = match square_at(m, 2) {
        Some(t) => t,
        None => {
            return None;
        },
    };
    let no_flags: u16 = (from << 6u16) | to;
    let promo: u16 = if l == 5 {
        let c: u8 = m[4];
        if c == 110 {
            0x8000
        } else if c == 98 {
            0x9000
        } else if c == 114 {
            0xA000
        } else if c == 113 {
            0xB000
        } else {
            0
        }
    } else {
        0
    };
    let mut i: usize = 0;
    while i < list.len
        invariant
            list.len <= 256,
            from < 64,
            to < 64,
            no_flags == (from << 6u16) | to,
            l == m@.len(),
            l >= 4,
            square_of(m@[0], m@[1]) == Some(from as int),
            square_of(m@[2], m@[3]) == Some(to as int),
            l == 5 ==> promo == promo_flag(m@[4]),
            l != 5 ==> promo == 0,
            forall|j: int| 0 <= j < i ==> !text_matches(#[trigger] list.list[j], m@),
        decreases list.len - i,
    {
        let um: u16 = list.list[i];
        assert(um & 0x0FFFu16 == (from << 6u16) | to <==> ((um >> 6u16) & 63u16 == from && um
            & 63u16 == to)) by (bit_vector)
            requires
                from < 64,
                to < 64,
        ;
        if um & 0x0FFFu16 == no_flags && (l < 5 || promo == um & 0xB000u16) {
            assert(text_matches(um, m@));
            return Some(um);
        }
        i = i + 1;
    }
    None
}

/// Finds the generated move of `pos` that the text `m` names: the first one
/// with its squares and, for a five-byte text, its promotion letter.
pub fn uci_to_u16(pos: &Position, m: &[u8]) -> (r: Option<u16>)
    requires
        pos@.wf(),
    ensures
        m@.len() < 4 ==> r is None,
        r matches Some(x) ==> move_ok(pos@, x),
        r is None <==> forall|i: int|
            0 <= i < gen_list(pos@).len() ==> !text_matches(#[trigger] gen_list(pos@)[i], m@),
        r matches Some(x) ==> exists|i: int|
            0 <= i < gen_list(pos@).len() && #[trigger] gen_list(pos@)[i] == x && text_matches(
                x,
                m@,
            ) && forall|j: int| 0 <= j < i ==> !text_matches(#[trigger] gen_list(pos@)[j], m@),
{
    let mut list = MoveList::new();
    pos.gen_moves(&mut list);
    let r = find_text_move(&list, m);
    proof {
        let g = gen_list(pos@);
        assert(g.len() == list.len);
        assert forall|i: int| 0 <= i < list.len implies #[trigger] g[i] == list.list[i] by {
            assert(g[i] == list.list@.take(list.len as int)[i]);
        }
        match r {
            Some(x) => {
                let k = choose|k: int|
                    0 <= k < list.len && #[trigger] list.list[k] == x && text_matches(x, m@)
                        && forall|j: int| 0 <= j < k ==> !text_matches(#[trigger] list.list[j], m@);
                assert(g[k] == x);
                assert forall|j: int| 0 <= j < k implies !text_matches(#[trigger] g[j], m@) by {
                    assert(g[j] == list.list[j]);
                }
            },
            None => {
                assert forall|i: int| 0 <= i < g.len() implies !text_matches(#[trigger] g[i], m@) by {
                    assert(g[i] == list.list[i]);
                }
            },
        }
    }
    r
}

/// Side and piece type of a FEN piece letter.
fn piece_of_letter(c: u8) -> (r: Option<(usize, usize)>)
    ensures
        r matches Some(x) ==> x.0 < 2 && x.1 < 6,
{
    let (side, lower): (usize, u8) = if 65 <= c && c <= 90 {
        (WHITE, c + 32)
    } else {
        (BLACK, c)
    };
    let piece: usize = if lower == 112 {
        0
    } else if lower == 110 {
        1
    } else if lower == 98 {
        2
    } else if lower == 114 {
        3
    } else if lower == 113 {
        4
    } else if lower == 107 {
        5
    } else {
        return None;
    };
    Some((side, piece))
}

/// First index at or after `i` that holds no space.
fn skip_spaces(s: &[u8], i: usize) -> (r: usize)
    requires
        i <= s@.len(),
    ensures
        i <= r <= s@.len(),
{
    let mut j: usize = i;
    while j < s.len() && s[j] == 32
        invariant
            i <= j <= s@.len(),
        decreases s@.len() - j,
    {
        j = j + 1;
    }
    j
}

/// Builds a position from a FEN record: placement, side to move, castling
/// rights, en-passant target and half-move clock (0 when missing or not a
/// number up to 255). The snapshot is then computed from scratch and the
/// history is empty. Returns `None` on a malformed record.
pub fn parse_fen(fen: &[u8]) -> (r: Option<Position>)
    ensures
        r matches Some(p) ==> {
            &&& p@.wf()
            &&& p@.board_consistent()
            &&& p.nulls == 0
            &&& p.stack@.len() == 0
            &&& p@.totals_agree()
        },
{
    let n: usize = fen.len();
    let mut pos = Position::new();
    let mut i: usize = skip_spaces(fen, 0);
    let mut rank: usize = 7;
    let mut file: usize = 0;
    while i < n && fen[i] != 32
        invariant
            pos@.wf(),
            pos@.board_consistent(),
            pos.nulls == 0,
            n == fen@.len(),
            i <= n,
            rank < 8,
            file <= 8,
            forall|j: int|
                0 <= j < 64 && (j / 8 < rank || (j / 8 == rank && j % 8 >= file))
                    ==> #[trigger] pos.squares@[j] == EMPTY,
        decreases n - i,
    {
        let c: u8 = fen[i];
        if c == 47 {
            if rank == 0 || file != 8 {
                return None;
            }
            rank = rank - 1;
            file = 0;
        } else if 49 <= c && c <= 56 {
            let d: usize = (c - 48) as usize;
            if file + d > 8 {
                return None;
            }
            file = file + d;
        } else {
            let (side, piece) = match piece_of_letter(c) {
                Some(x) => x,
                None => {
                    return None;
                },
            };
            if file >= 8 {
                return None;
            }
            let sq: usize = rank * 8 + file;
            assert(sq / 8 == rank && sq % 8 == file);
            proof {
                lemma_put_consistent(pos@, side as int, piece as int, sq as int);
            }
            let ghost before = pos@;
            pos.put_piece(side, piece, sq);
            assert(pos@ == (PositionView {
                pieces: before.pieces.update(piece as int, before.pieces[piece as int] | bit(
                    sq as int,
                )),
                sides: before.sides.update(side as int, before.sides[side as int] | bit(sq as int)),
                squares: before.squares.update(sq as int, piece as u8),
                ..before
            }));
            file = file + 1;
        }
        i = i + 1;
    }
    if rank != 0 || file != 8 {
        return None;
    }
    // side to move

    i = skip_spaces(fen, i);
    if i >= n {
        return None;
    }
    let stm: usize = if fen[i] == 119 {
        WHITE
    } else if fen[i] == 98 {
        BLACK
    } else {
        return None;
    };
    let ghost before = pos@;
    pos.side_to_move = stm;
    assert(pos@.squares == before.squares);
    assert(pos@.stack == before.stack);
    assert(pos@.pieces == before.pieces);
    i = i + 1;
    // castling rights
    i = skip_spaces(fen, i);
    if i >= n {
        return None;
    }
    let mut rights: u8 = 0;
    while i < n && fen[i] != 32
        invariant
            pos@.wf(),
            pos@.board_consistent(),
            pos.nulls == 0,
            i <= n,
            n == fen@.len(),
        decreases n - i,
    {
        let c: u8 = fen[i];
        if c == 75 {
            rights = rights | WHITE_KS;
        } else if c == 81 {
            rights = rights | WHITE_QS;
        } else if c == 107 {
            rights = rights | BLACK_KS;
        } else if c == 113 {
            rights = rights | BLACK_QS;
        }
        i = i + 1;
    }
    // en-passant target
    i = skip_spaces(fen, i);
    if i >= n {
        return None;
    }
    let mut ep: u16 = 0;
    if fen[i] != 45 {
        if i + 1 >= n {
            return None;
        }
        ep = match square_at(fen, i) {
            Some(x) => x,
            None => {
                return None;
            },
        };
    }
    while i < n && fen[i] != 32
        invariant
            pos@.wf(),
            pos@.board_consistent(),
            pos.nulls == 0,
            i <= n,
            n == fen@.len(),
        decreases n - i,
    {
        i = i + 1;
    }
    // half-move clock
    i = skip_spaces(fen, i);
    let mut clock: u32 = 0;
    let mut valid: bool = i < n;
    while i < n && fen[i] != 32
        invariant
            pos@.wf(),
            pos@.board_consistent(),
            pos.nulls == 0,
            i <= n,
            n == fen@.len(),
            clock <= 255,
        decreases n - i,
    {
        let c: u8 = fen[i];
        if valid && 48 <= c && c <= 57 && clock * 10 + (c - 48) as u32 <= 255 {
            clock = clock * 10 + (c - 48) as u32;
        } else {
            valid = false;
        }
        i = i + 1;
    }
    pos.state.castle_rights = rights;
    pos.state.en_passant_sq = ep;
    pos.state.halfmove_clock = if valid {
        clock as u8
    } else {
        0
    };
    let ghost before = pos@;
    pos.refresh();
    assert(pos@.pieces == before.pieces);
    assert(pos@.sides == before.sides);
    assert(pos@.squares == before.squares);
    Some(pos)
}

/// A fresh game: the standard initial position.
pub fn ucinewgame() -> (r: Position)
    ensures
        r@.wf(),
        r.nulls == 0,
        r.stack@.len() == 0,
        r@.totals_agree(),
{
    Position::startpos()
}

/// Sets `pos` from a FEN record when one is given (leaving it unchanged if the
/// record is malformed), then applies each text move in turn, reverting those
/// that are illegal. Stops and returns false at the first text that names no
/// generated move; returns true when every text named one.
pub fn parse_position(pos: &mut Position, fen: Option<&[u8]>, moves: &Vec<Vec<u8>>) -> (all_found:
    bool)
    requires
        old(pos)@.wf(),
    ensures
        final(pos)@.wf(),
        fen is None && moves@.len() == 0 ==> final(pos)@ == old(pos)@ && all_found,
{
    if let Some(f) = fen {
        if let Some(p) = parse_fen(f) {
            *pos = p;
        }
    }
    let mut i: usize = 0;
    while i < moves.len()
        invariant
            pos@.wf(),
            fen is None && moves@.len() == 0 ==> pos@ == old(pos)@,
        decreases moves@.len() - i,
    {
        let text: &Vec<u8> = &moves[i];
        match uci_to_u16(pos, text.as_slice()) {
            Some(m) => {
                let _illegal: bool = pos.do_move(m);
            },
            None => {
                return false;
            },
        }
        i = i + 1;
    }
    true
}

} // verus!
