//! Piece, side, square and move-encoding constants.
use vstd::prelude::*;

verus! {

pub const WHITE: usize = 0;
pub const BLACK: usize = 1;

pub const PAWN: usize = 0;
pub const KNIGHT: usize = 1;
pub const BISHOP: usize = 2;
pub const ROOK: usize = 3;
pub const QUEEN: usize = 4;
pub const KING: usize = 5;
/// Marks an empty square in the square cache.
pub const EMPTY: usize = 6;

/// The flag field of an encoded move occupies the top four bits.
pub const FLAG_MASK: u16 = 0xF000;
pub const QUIET: u16 = 0x0000;
pub const DBL_PUSH: u16 = 0x1000;
pub const KS_CASTLE: u16 = 0x2000;
pub const QS_CASTLE: u16 = 0x3000;
pub const CAPTURE: u16 = 0x4000;
pub const EN_PASSANT: u16 = 0x5000;
/// Set in every promotion flag; bits 12 and 13 then give the promoted piece
/// (knight, bishop, rook, queen) and bit 14 marks a capturing promotion.
pub const PROMO_BIT: u16 = 0x8000;
pub const KNIGHT_PROMO: u16 = 0x8000;
pub const BISHOP_PROMO: u16 = 0x9000;
pub const ROOK_PROMO: u16 = 0xA000;
pub const QUEEN_PROMO: u16 = 0xB000;

/// Castling-right bits.
pub const WHITE_KS: u8 = 1;
pub const WHITE_QS: u8 = 2;
pub const BLACK_KS: u8 = 4;
pub const BLACK_QS: u8 = 8;
pub const ALL_RIGHTS: u8 = 15;

pub const FILE_A: u64 = 0x0101_0101_0101_0101;
pub const FILE_H: u64 = 0x8080_8080_8080_8080;
pub const NOT_A: u64 = 0xFEFE_FEFE_FEFE_FEFE;
pub const NOT_H: u64 = 0x7F7F_7F7F_7F7F_7F7F;
pub const NOT_AB: u64 = 0xFCFC_FCFC_FCFC_FCFC;
pub const NOT_GH: u64 = 0x3F3F_3F3F_3F3F_3F3F;
/// The light squares and the dark squares.
pub const LIGHT_SQUARES: u64 = 0x55AA_55AA_55AA_55AA;
pub const DARK_SQUARES: u64 = 0xAA55_AA55_AA55_AA55;

/// Source square of an encoded move (bits 6..12).
pub open spec fn move_from(m: u16) -> int {
    ((m >> 6u16) & 63u16) as int
}

/// Destination square of an encoded move (bits 0..6).
pub open spec fn move_to(m: u16) -> int {
    (m & 63u16) as int
}

pub open spec fn move_flag(m: u16) -> u16 {
    m & FLAG_MASK
}

pub fn from_sq(m: u16) -> (r: usize)
    ensures
        r == move_from(m),
        r < 64,
{
    assert(((m >> 6u16) & 63u16) < 64) by (bit_vector);
    ((m >> 6u16) & 63u16) as usize
}

pub fn to_sq(m: u16) -> (r: usize)
    ensures
        r == move_to(m),
        r < 64,
{
    assert((m & 63u16) < 64) by (bit_vector);
    (m & 63u16) as usize
}

/// Whether a flag denotes a promotion.
pub open spec fn is_promo(flag: u16) -> bool {
    flag & PROMO_BIT != 0
}

/// Piece type that a promotion flag promotes to.
pub open spec fn promo_piece(flag: u16) -> int {
    (((flag >> 12u16) & 3u16) + 1) as int
}

/// Castling rights that survive a move touching square `sq`.
pub open spec fn castle_keep(sq: int) -> u8 {
    if sq == 0 {
        (ALL_RIGHTS - WHITE_QS) as u8
    } else if sq == 4 {
        (ALL_RIGHTS - WHITE_KS - WHITE_QS) as u8
    } else if sq == 7 {
        (ALL_RIGHTS - WHITE_KS) as u8
    } else if sq == 56 {
        (ALL_RIGHTS - BLACK_QS) as u8
    } else if sq == 60 {
        (ALL_RIGHTS - BLACK_KS - BLACK_QS) as u8
    } else if sq == 63 {
        (ALL_RIGHTS - BLACK_KS) as u8
    } else {
        ALL_RIGHTS
    }
}

pub fn castle_keep_mask(sq: usize) -> (r: u8)
    ensures
        r == castle_keep(sq as int),
{
    if sq == 0 {
        ALL_RIGHTS - WHITE_QS
    } else if sq == 4 {
        ALL_RIGHTS - WHITE_KS - WHITE_QS
    } else if sq == 7 {
        ALL_RIGHTS - WHITE_KS
    } else if sq == 56 {
        ALL_RIGHTS - BLACK_QS
    } else if sq == 60 {
        ALL_RIGHTS - BLACK_KS - BLACK_QS
    } else if sq == 63 {
        ALL_RIGHTS - BLACK_KS
    } else {
        ALL_RIGHTS
    }
}

/// The rook's origin and destination squares for a castle of `side`
/// (`kingside` or queenside).
pub open spec fn castle_rook(side: int, kingside: bool) -> (int, int) {
    if side == WHITE {
        if kingside { (7, 5) } else { (0, 3) }
    } else {
        if kingside { (63, 61) } else { (56, 59) }
    }
}

pub fn castle_rook_squares(side: usize, kingside: bool) -> (r: (usize, usize))
    ensures
        r.0 as int == castle_rook(side as int, kingside).0,
        r.1 as int == castle_rook(side as int, kingside).1,
        r.0 < 64,
        r.1 < 64,
{
    if side == WHITE {
        if kingside { (7, 5) } else { (0, 3) }
    } else {
        if kingside { (63, 61) } else { (56, 59) }
    }
}

} // verus!
