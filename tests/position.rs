use akimbo::consts::{
    BISHOP, BLACK, CAPTURE, DBL_PUSH, EMPTY, KING, KNIGHT, PAWN, QUIET, ROOK, WHITE,
};
use akimbo::movegen::perft;
use akimbo::position::{MoveList, Position};

fn mv(from: u16, to: u16, flag: u16) -> u16 {
    flag | (from << 6) | to
}

fn kings_only() -> Position {
    let mut pos = Position::new();
    pos.put_piece(WHITE, KING, 4);
    pos.put_piece(BLACK, KING, 60);
    pos.refresh();
    pos
}

#[test]
fn perft_startpos_depth_1_to_3() {
    let mut pos = Position::startpos();
    assert_eq!(perft(&mut pos, 1), 20);
    assert_eq!(perft(&mut pos, 2), 400);
    assert_eq!(perft(&mut pos, 3), 8902);
}

#[test]
fn perft_startpos_depth_4() {
    let mut pos = Position::startpos();
    assert_eq!(perft(&mut pos, 4), 197281);
}

#[test]
fn apply_then_undo_restores_everything() {
    let mut pos = Position::startpos();
    let before_pieces = pos.pieces;
    let before_sides = pos.sides;
    let before_squares = pos.squares;
    let before_state = pos.state;
    let mut moves = MoveList::new();
    pos.gen_moves(&mut moves);
    assert_eq!(moves.len, 20);
    for i in 0..moves.len {
        let illegal = pos.do_move(moves.list[i]);
        assert!(!illegal);
        assert_eq!(pos.stack.len(), 1);
        assert_eq!(pos.side_to_move, BLACK);
        pos.undo_move();
        assert_eq!(pos.pieces, before_pieces);
        assert_eq!(pos.sides, before_sides);
        assert_eq!(pos.squares, before_squares);
        assert_eq!(pos.state, before_state);
        assert_eq!(pos.side_to_move, WHITE);
        assert_eq!(pos.stack.len(), 0);
    }
}

#[test]
fn incremental_totals_match_recalculation() {
    let mut pos = Position::startpos();
    // e2e4 e7e5 g1f3 b8c6
    for m in [mv(12, 28, DBL_PUSH), mv(52, 36, DBL_PUSH), mv(6, 21, QUIET), mv(57, 42, QUIET)] {
        assert!(!pos.do_move(m));
        let (phase, mg, eg) = pos.calc();
        assert_eq!(pos.state.phase, phase);
        assert_eq!(pos.state.mg, mg);
        assert_eq!(pos.state.eg, eg);
        assert_eq!(pos.state.zobrist, pos.hash());
    }
    // f3xe5
    assert!(!pos.do_move(mv(21, 36, CAPTURE)));
    assert_eq!(pos.state.zobrist, pos.hash());
    let (phase, mg, eg) = pos.calc();
    assert_eq!((pos.state.phase, pos.state.mg, pos.state.eg), (phase, mg, eg));
    assert_eq!(pos.state.halfmove_clock, 0);
}

#[test]
fn double_push_sets_en_passant_target() {
    let mut pos = Position::startpos();
    assert!(!pos.do_move(mv(12, 28, DBL_PUSH)));
    assert_eq!(pos.state.en_passant_sq, 20);
    assert_eq!(pos.squares[28], PAWN as u8);
    assert_eq!(pos.squares[12], EMPTY as u8);
}

#[test]
fn illegal_move_is_reverted() {
    // white king e1, white rook e2 pinned by black rook e8, black king a8
    let mut pos = Position::new();
    pos.put_piece(WHITE, KING, 4);
    pos.put_piece(WHITE, ROOK, 12);
    pos.put_piece(BLACK, ROOK, 60);
    pos.put_piece(BLACK, KING, 56);
    pos.refresh();
    let pieces = pos.pieces;
    let state = pos.state;
    assert!(pos.do_move(mv(12, 8, QUIET)));
    assert_eq!(pos.pieces, pieces);
    assert_eq!(pos.state, state);
    assert_eq!(pos.side_to_move, WHITE);
    assert_eq!(pos.stack.len(), 0);
    assert!(!pos.do_move(mv(12, 20, QUIET)));
    assert_eq!(pos.side_to_move, BLACK);
}

#[test]
fn in_check_detection() {
    let mut pos = Position::new();
    pos.put_piece(WHITE, KING, 4);
    pos.put_piece(BLACK, ROOK, 60);
    pos.put_piece(BLACK, KING, 56);
    pos.refresh();
    assert!(pos.is_in_check());
    assert!(pos.is_square_attacked(4, WHITE, pos.sides[0] | pos.sides[1]));
    assert!(!pos.is_square_attacked(3, WHITE, pos.sides[0] | pos.sides[1]));
}

#[test]
fn threefold_repetition_by_knight_shuffle() {
    let mut pos = Position::startpos();
    let out_w = mv(6, 21, QUIET);
    let back_w = mv(21, 6, QUIET);
    let out_b = mv(62, 45, QUIET);
    let back_b = mv(45, 62, QUIET);
    for _ in 0..2 {
        for m in [out_w, out_b, back_w, back_b] {
            assert!(!pos.do_move(m));
        }
    }
    assert_eq!(pos.stack.len(), 8);
    assert!(pos.is_draw_by_repetition(3));
    assert!(!pos.is_draw_by_repetition(4));
}

#[test]
fn null_move_suppresses_repetition() {
    let mut pos = Position::startpos();
    for _ in 0..2 {
        for m in [mv(6, 21, QUIET), mv(62, 45, QUIET), mv(21, 6, QUIET), mv(45, 62, QUIET)] {
            assert!(!pos.do_move(m));
        }
    }
    let token = pos.do_null();
    assert_eq!(pos.side_to_move, BLACK);
    assert!(!pos.is_draw_by_repetition(3));
    pos.undo_null(token);
    assert_eq!(pos.nulls, 0);
    assert!(pos.is_draw_by_repetition(3));
}

#[test]
fn null_move_round_trip() {
    let mut pos = Position::startpos();
    assert!(!pos.do_move(mv(12, 28, DBL_PUSH)));
    let state = pos.state;
    let token = pos.do_null();
    assert_eq!(pos.state.en_passant_sq, 0);
    assert_eq!(pos.nulls, 1);
    assert_ne!(pos.state.zobrist, state.zobrist);
    pos.undo_null(token);
    assert_eq!(pos.state, state);
    assert_eq!(pos.side_to_move, BLACK);
    assert_eq!(pos.nulls, 0);
}

#[test]
fn fifty_move_rule_threshold() {
    let mut pos = kings_only();
    pos.state.halfmove_clock = 99;
    assert!(!pos.is_draw_by_50());
    pos.state.halfmove_clock = 100;
    assert!(pos.is_draw_by_50());
}

#[test]
fn pawn_move_and_capture_reset_clock() {
    let mut pos = Position::startpos();
    assert!(!pos.do_move(mv(6, 21, QUIET)));
    assert_eq!(pos.state.halfmove_clock, 1);
    assert!(!pos.do_move(mv(62, 45, QUIET)));
    assert_eq!(pos.state.halfmove_clock, 2);
    assert!(!pos.do_move(mv(12, 20, QUIET)));
    assert_eq!(pos.state.halfmove_clock, 0);
}

#[test]
fn bare_kings_are_drawn() {
    let pos = kings_only();
    assert!(pos.is_draw_by_material());
}

#[test]
fn king_and_knight_against_king_is_drawn() {
    let mut pos = Position::new();
    pos.put_piece(WHITE, KING, 4);
    pos.put_piece(WHITE, KNIGHT, 10);
    pos.put_piece(BLACK, KING, 60);
    pos.refresh();
    assert!(pos.is_draw_by_material());
}

#[test]
fn same_coloured_bishops_are_drawn() {
    // c1 (2) and f8 (61) are both dark squares
    let mut pos = Position::new();
    pos.put_piece(WHITE, KING, 4);
    pos.put_piece(WHITE, BISHOP, 2);
    pos.put_piece(BLACK, KING, 60);
    pos.put_piece(BLACK, BISHOP, 61);
    pos.refresh();
    assert_eq!(pos.state.phase, 2);
    assert!(pos.is_draw_by_material());
}

#[test]
fn opposite_coloured_bishops_are_not_drawn() {
    // c1 (2) dark, c8 (58) light
    let mut pos = Position::new();
    pos.put_piece(WHITE, KING, 4);
    pos.put_piece(WHITE, BISHOP, 2);
    pos.put_piece(BLACK, KING, 60);
    pos.put_piece(BLACK, BISHOP, 58);
    pos.refresh();
    assert!(!pos.is_draw_by_material());
}

#[test]
fn pawns_or_rooks_are_not_drawn() {
    let mut pos = kings_only();
    pos.put_piece(WHITE, PAWN, 12);
    pos.refresh();
    assert!(!pos.is_draw_by_material());
    let mut pos = kings_only();
    pos.put_piece(WHITE, ROOK, 0);
    pos.refresh();
    assert!(!pos.is_draw_by_material());
}

#[test]
fn startpos_totals() {
    let pos = Position::startpos();
    assert_eq!(pos.state.phase, 24);
    assert_eq!(pos.state.mg, 0);
    assert_eq!(pos.state.eg, 0);
    assert_eq!(pos.state.castle_rights, 15);
}

#[test]
fn move_list_push_and_default() {
    let mut list = MoveList::default();
    assert_eq!(list.len, 0);
    list.push(7);
    list.push(9);
    assert_eq!(list.len, 2);
    assert_eq!(list.list[0], 7);
    assert_eq!(list.list[1], 9);
}

#[test]
fn repetition_needs_six_plies() {
    let mut pos = Position::startpos();
    for m in [mv(6, 21, QUIET), mv(62, 45, QUIET), mv(21, 6, QUIET), mv(45, 62, QUIET)] {
        assert!(!pos.do_move(m));
    }
    assert_eq!(pos.stack.len(), 4);
    assert!(!pos.is_draw_by_repetition(2));
    assert!(!pos.do_move(mv(6, 21, QUIET)));
    assert!(!pos.do_move(mv(62, 45, QUIET)));
    assert!(pos.is_draw_by_repetition(2));
    assert!(!pos.is_draw_by_repetition(3));
}

#[test]
fn single_occurrence_is_no_repetition() {
    let mut pos = Position::startpos();
    for m in [mv(6, 21, QUIET), mv(62, 45, QUIET), mv(1, 18, QUIET), mv(57, 42, QUIET), mv(21, 6, QUIET), mv(45, 62, QUIET)] {
        assert!(!pos.do_move(m));
    }
    assert_eq!(pos.stack.len(), 6);
    assert!(!pos.is_draw_by_repetition(1));
    assert!(!pos.is_draw_by_repetition(0));
}
