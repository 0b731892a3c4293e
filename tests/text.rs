use akimbo::consts::{
    BLACK, CAPTURE, EMPTY, EN_PASSANT, KING, KNIGHT, KS_CASTLE, PAWN, QS_CASTLE, QUEEN,
    QUEEN_PROMO, ROOK, WHITE,
};
use akimbo::movegen::perft;
use akimbo::position::{MoveList, Position};
use akimbo::uci::{find_text_move, idx_to_sq, parse_fen, parse_position, sq_to_idx, u16_to_uci, uci_to_u16, ucinewgame};

const KIWIPETE: &str = "r3k2r/p1ppqpb1/bn2pnp1/3PN3/1p2P3/2N2Q1p/PPPBBPPP/R3K2R w KQkq - 0 1";
const STARTPOS: &str = "rnbqkbnr/pppppppp/8/8/8/8/PPPPPPPP/RNBQKBNR w KQkq - 0 1";

fn mv(from: u16, to: u16, flag: u16) -> u16 {
    flag | (from << 6) | to
}

#[test]
fn square_names() {
    assert_eq!(idx_to_sq(0), b"a1".to_vec());
    assert_eq!(idx_to_sq(63), b"h8".to_vec());
    assert_eq!(idx_to_sq(28), b"e4".to_vec());
    assert_eq!(sq_to_idx(b"e4"), Some(28));
    assert_eq!(sq_to_idx(b"h8"), Some(63));
    assert_eq!(sq_to_idx(b"i1"), None);
    assert_eq!(sq_to_idx(b"a9"), None);
    assert_eq!(sq_to_idx(b"a"), None);
}

#[test]
fn move_text_forms() {
    assert_eq!(u16_to_uci(&mv(12, 28, 0)), b"e2e4 ".to_vec());
    assert_eq!(u16_to_uci(&mv(52, 60, QUEEN_PROMO)), b"e7e8q ".to_vec());
    assert_eq!(u16_to_uci(&mv(52, 60, 0x8000)), b"e7e8n ".to_vec());
}

#[test]
fn text_moves_are_found_among_generated_moves() {
    let pos = Position::startpos();
    let m = uci_to_u16(&pos, b"e2e4").unwrap();
    assert_eq!(m, mv(12, 28, 0x1000));
    assert_eq!(uci_to_u16(&pos, b"g1f3"), Some(mv(6, 21, 0)));
    assert_eq!(uci_to_u16(&pos, b"e2e5"), None);
    assert_eq!(uci_to_u16(&pos, b"e2"), None);
}

#[test]
fn fen_of_startpos_matches_built_startpos() {
    let a = parse_fen(STARTPOS.as_bytes()).unwrap();
    let b = Position::startpos();
    assert_eq!(a.pieces, b.pieces);
    assert_eq!(a.sides, b.sides);
    assert_eq!(a.squares, b.squares);
    assert_eq!(a.state, b.state);
    assert_eq!(a.side_to_move, WHITE);
    let c = ucinewgame();
    assert_eq!(c.state, b.state);
}

#[test]
fn malformed_fen_is_rejected() {
    assert!(parse_fen(b"").is_none());
    assert!(parse_fen(b"rnbqkbnr/pppppppp/8/8/8/8/PPPPPPPP w KQkq - 0 1").is_none());
    assert!(parse_fen(b"rnbqkbnr/pppppppp/9/8/8/8/PPPPPPPP/RNBQKBNR w KQkq - 0 1").is_none());
    assert!(parse_fen(b"rnbqkbnr/pppppppp/8/8/8/8/PPPPPPPP/RNBQKBNR x KQkq - 0 1").is_none());
}

#[test]
fn fen_fields_are_read() {
    let p = parse_fen(b"4k3/8/8/3pP3/8/8/8/4K3 b - d6 37 50").unwrap();
    assert_eq!(p.side_to_move, BLACK);
    assert_eq!(p.state.en_passant_sq, 43);
    assert_eq!(p.state.halfmove_clock, 37);
    assert_eq!(p.state.castle_rights, 0);
    assert_eq!(p.state.zobrist, p.hash());
}

#[test]
fn perft_kiwipete_depth_1_to_3() {
    let mut pos = parse_fen(KIWIPETE.as_bytes()).unwrap();
    assert_eq!(perft(&mut pos, 1), 48);
    assert_eq!(perft(&mut pos, 2), 2039);
    assert_eq!(perft(&mut pos, 3), 97862);
}

#[test]
fn castling_moves_rook_and_revokes_rights() {
    let mut pos = parse_fen(KIWIPETE.as_bytes()).unwrap();
    let before = pos.state;
    assert!(!pos.do_move(mv(4, 6, KS_CASTLE)));
    assert_eq!(pos.squares[6], KING as u8);
    assert_eq!(pos.squares[5], ROOK as u8);
    assert_eq!(pos.squares[7], EMPTY as u8);
    assert_eq!(pos.state.castle_rights, 12);
    assert_eq!(pos.state.zobrist, pos.hash());
    pos.undo_move();
    assert_eq!(pos.state, before);
    assert_eq!(pos.squares[7], ROOK as u8);
    assert!(!pos.do_move(mv(4, 2, QS_CASTLE)));
    assert_eq!(pos.squares[3], ROOK as u8);
    assert_eq!(pos.state.zobrist, pos.hash());
}

#[test]
fn en_passant_capture_and_undo() {
    let mut pos = parse_fen(b"4k3/8/8/3pP3/8/8/8/4K3 w - d6 0 1").unwrap();
    let pieces = pos.pieces;
    let squares = pos.squares;
    assert!(!pos.do_move(mv(36, 43, EN_PASSANT)));
    assert_eq!(pos.squares[35], EMPTY as u8);
    assert_eq!(pos.squares[43], PAWN as u8);
    assert_eq!(pos.state.zobrist, pos.hash());
    let (phase, mg, eg) = pos.calc();
    assert_eq!((pos.state.phase, pos.state.mg, pos.state.eg), (phase, mg, eg));
    pos.undo_move();
    assert_eq!(pos.pieces, pieces);
    assert_eq!(pos.squares, squares);
}

#[test]
fn promotion_with_capture() {
    let mut pos = parse_fen(b"3rk3/4P3/8/8/8/8/8/4K3 w - - 0 1").unwrap();
    let phase = pos.state.phase;
    assert!(!pos.do_move(mv(52, 59, QUEEN_PROMO | CAPTURE)));
    assert_eq!(pos.squares[59], QUEEN as u8);
    assert_eq!(pos.state.phase, phase - 2 + 4);
    assert_eq!(pos.state.zobrist, pos.hash());
    let (p, mg, eg) = pos.calc();
    assert_eq!((pos.state.phase, pos.state.mg, pos.state.eg), (p, mg, eg));
    pos.undo_move();
    assert_eq!(pos.squares[52], PAWN as u8);
    assert_eq!(pos.squares[59], ROOK as u8);
    assert_eq!(pos.state.phase, phase);
    assert_eq!(pos.pieces[KNIGHT], 0);
}

#[test]
fn position_command_applies_moves() {
    let mut pos = Position::startpos();
    let moves = vec![b"e2e4".to_vec(), b"e7e5".to_vec(), b"g1f3".to_vec()];
    assert!(parse_position(&mut pos, Some(STARTPOS.as_bytes()), &moves));
    assert_eq!(pos.stack.len(), 3);
    assert_eq!(pos.side_to_move, BLACK);
    assert_eq!(pos.squares[21], KNIGHT as u8);
}

#[test]
fn text_lookup_in_a_move_list() {
    let mut list = MoveList::new();
    list.push(mv(52, 60, 0x8000));
    list.push(mv(52, 60, QUEEN_PROMO));
    list.push(mv(12, 28, 0x1000));
    assert_eq!(find_text_move(&list, b"e7e8q"), Some(mv(52, 60, QUEEN_PROMO)));
    assert_eq!(find_text_move(&list, b"e7e8n"), Some(mv(52, 60, 0x8000)));
    assert_eq!(find_text_move(&list, b"e7e8"), Some(mv(52, 60, 0x8000)));
    assert_eq!(find_text_move(&list, b"e2e4"), Some(mv(12, 28, 0x1000)));
    assert_eq!(find_text_move(&list, b"e2e3"), None);
    assert_eq!(find_text_move(&list, b"z2e4"), None);
}

#[test]
fn position_command_stops_at_unknown_move() {
    let mut pos = Position::startpos();
    let moves = vec![b"e2e4".to_vec(), b"e2e4".to_vec(), b"g1f3".to_vec()];
    assert!(!parse_position(&mut pos, None, &moves));
    assert_eq!(pos.stack.len(), 1);
}

#[test]
fn castle_needs_the_rook() {
    let mut pos = parse_fen(b"4k3/8/8/8/8/8/8/4K3 w K - 0 1").unwrap();
    assert_eq!(uci_to_u16(&pos, b"e1g1"), None);
    assert_eq!(perft(&mut pos, 1), 5);
}
