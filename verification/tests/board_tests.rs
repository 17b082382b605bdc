use chrs_lib::board::BoardConfig;
use chrs_lib::moves::CastleType;
use chrs_lib::moves::Move;
use chrs_lib::moves::MoveType;
use chrs_lib::piece::BoardPiece;
use chrs_lib::piece::Color;
use chrs_lib::square::Square;

fn sq(name: &str) -> Square {
    Square::from_algebraic(name).unwrap()
}

#[test]
fn starting_position_state() {
    let c = BoardConfig::default();
    assert_eq!(c.get_active_color(), Color::White);
    assert!(c.get_can_white_castle_kingside());
    assert!(c.get_can_white_castle_queenside());
    assert!(c.get_can_black_castle_kingside());
    assert!(c.get_can_black_castle_queenside());
    assert_eq!(c.get_en_passant_target(), None);
    assert_eq!(c.get_halfmove_clock(), 0);
    assert_eq!(c.get_fullmove_number(), 1);
    assert_eq!(c.get_at_sq(sq("e1")), Some(BoardPiece::WhiteKing));
    assert_eq!(c.get_at_sq(sq("d8")), Some(BoardPiece::BlackQueen));
    assert_eq!(c.get_at_sq(sq("e4")), None);
}

#[test]
fn double_push_sets_en_passant_then_normal_clears_it() {
    let mut c = BoardConfig::default();
    let m = Move::infer(sq("e2"), sq("e4"), &c);
    assert_eq!(m.move_type, MoveType::DoublePush);
    c.apply_move(m);
    assert_eq!(c.get_en_passant_target(), Some(sq("e3")));
    let m2 = Move::infer(sq("a7"), sq("a6"), &c);
    assert_eq!(m2.move_type, MoveType::Normal);
    c.apply_move(m2);
    assert_eq!(c.get_en_passant_target(), None);
}

#[test]
fn white_kingside_castle_and_undo() {
    let mut c =
        BoardConfig::from_fen_str("rnbqkbnr/pppppppp/8/8/8/8/PPPPPPPP/RNBQK2R w KQkq - 0 1")
            .unwrap();
    let before = c.get_fen();
    let m = Move::infer(sq("e1"), sq("g1"), &c);
    assert_eq!(m.move_type, MoveType::Castle(CastleType::KingSide));
    c.apply_move(m);
    assert_eq!(c.get_at_sq(sq("g1")), Some(BoardPiece::WhiteKing));
    assert_eq!(c.get_at_sq(sq("f1")), Some(BoardPiece::WhiteRook));
    assert_eq!(c.get_at_sq(sq("e1")), None);
    assert_eq!(c.get_at_sq(sq("h1")), None);
    assert!(!c.get_can_white_castle_kingside());
    assert!(!c.get_can_white_castle_queenside());
    assert!(c.get_can_black_castle_kingside());
    assert!(c.get_can_black_castle_queenside());
    c.undo();
    assert_eq!(c.get_at_sq(sq("e1")), Some(BoardPiece::WhiteKing));
    assert_eq!(c.get_at_sq(sq("h1")), Some(BoardPiece::WhiteRook));
    assert!(c.get_can_white_castle_kingside());
    assert!(c.get_can_white_castle_queenside());
    assert_eq!(c.get_fen(), before);
}

#[test]
fn en_passant_capture_removes_pawn_behind_and_undo_restores_it() {
    let mut c =
        BoardConfig::from_fen_str("rnbqkbnr/pppppppp/8/4P3/8/8/PPPP1PPP/RNBQKBNR b KQkq - 0 1")
            .unwrap();
    let dp = Move::infer(sq("d7"), sq("d5"), &c);
    assert_eq!(dp.move_type, MoveType::DoublePush);
    c.apply_move(dp);
    assert_eq!(c.get_en_passant_target(), Some(sq("d6")));
    let before = c.get_fen();
    let ep = Move::infer(sq("e5"), sq("d6"), &c);
    assert_eq!(ep.move_type, MoveType::EnPassant);
    c.apply_move(ep);
    assert_eq!(c.get_at_sq(sq("d6")), Some(BoardPiece::WhitePawn));
    assert_eq!(c.get_at_sq(sq("d5")), None);
    assert_eq!(c.get_at_sq(sq("e5")), None);
    c.undo();
    assert_eq!(c.get_at_sq(sq("d5")), Some(BoardPiece::BlackPawn));
    assert_eq!(c.get_at_sq(sq("e5")), Some(BoardPiece::WhitePawn));
    assert_eq!(c.get_at_sq(sq("d6")), None);
    assert_eq!(c.get_fen(), before);
}

#[test]
fn wrong_side_move_is_a_silent_no_op() {
    let mut c = BoardConfig::default();
    let before = c.get_fen();
    let m = Move::infer(sq("a7"), sq("a6"), &c);
    c.apply_move(m);
    assert_eq!(c.get_fen(), before);
    assert_eq!(c.history_len(), 0);
}

#[test]
fn promotion_with_capture_and_undo() {
    let mut c = BoardConfig::from_fen_str("1n6/P7/8/8/8/8/8/k6K w - - 3 20").unwrap();
    let before = c.get_fen();
    let m = Move::new(sq("a7"), sq("b8"), MoveType::Promotion(Some(BoardPiece::WhiteQueen)));
    c.apply_move(m);
    assert_eq!(c.get_at_sq(sq("b8")), Some(BoardPiece::WhiteQueen));
    assert_eq!(c.get_at_sq(sq("a7")), None);
    assert_eq!(c.get_active_color(), Color::Black);
    c.undo();
    assert_eq!(c.get_at_sq(sq("a7")), Some(BoardPiece::WhitePawn));
    assert_eq!(c.get_at_sq(sq("b8")), Some(BoardPiece::BlackKnight));
    assert_eq!(c.get_fen(), before);
}

#[test]
fn infer_flags_promotion_rank() {
    let c = BoardConfig::from_fen_str("1n6/P7/8/8/8/8/8/k6K w - - 0 1").unwrap();
    let m = Move::infer(sq("a7"), sq("a8"), &c);
    assert_eq!(m.move_type, MoveType::Promotion(None));
}

#[test]
fn counters_step_and_undo_restores_them() {
    let mut c = BoardConfig::default();
    c.apply_move(Move::infer(sq("g1"), sq("f3"), &c));
    assert_eq!(c.get_halfmove_clock(), 1);
    assert_eq!(c.get_fullmove_number(), 1);
    assert_eq!(c.get_active_color(), Color::Black);
    c.apply_move(Move::infer(sq("b8"), sq("c6"), &c));
    assert_eq!(c.get_halfmove_clock(), 2);
    assert_eq!(c.get_fullmove_number(), 2);
    c.undo();
    assert_eq!(c.get_halfmove_clock(), 1);
    assert_eq!(c.get_fullmove_number(), 1);
    c.undo();
    assert_eq!(c.get_halfmove_clock(), 0);
    assert_eq!(c.get_fullmove_number(), 1);
    assert_eq!(c.get_fen(), BoardConfig::default().get_fen());
}

#[test]
fn capture_and_undo_restore_board_exactly() {
    let mut c = BoardConfig::default();
    c.apply_move(Move::infer(sq("e2"), sq("e4"), &c));
    c.apply_move(Move::infer(sq("d7"), sq("d5"), &c));
    let before = c.get_fen();
    c.apply_move(Move::infer(sq("e4"), sq("d5"), &c));
    assert_eq!(c.get_at_sq(sq("d5")), Some(BoardPiece::WhitePawn));
    c.undo();
    assert_eq!(c.get_fen(), before);
    c.undo();
    c.undo();
    assert_eq!(c.get_fen(), BoardConfig::default().get_fen());
}

#[test]
fn undo_on_empty_log_is_a_no_op() {
    let mut c = BoardConfig::default();
    let before = c.get_fen();
    c.undo();
    assert_eq!(c.get_fen(), before);
}

#[test]
fn reset_restores_starting_position() {
    let mut c = BoardConfig::default();
    c.apply_move(Move::infer(sq("e2"), sq("e4"), &c));
    c.reset();
    assert_eq!(c.get_fen(), BoardConfig::default().get_fen());
    assert_eq!(c.history_len(), 0);
}

#[test]
fn rook_move_revokes_one_right_and_undo_restores_it() {
    let mut c =
        BoardConfig::from_fen_str("rnbqkbnr/pppppppp/8/8/8/8/PPPPPPPP/RNBQK2R w KQkq - 0 1")
            .unwrap();
    c.apply_move(Move::infer(sq("h1"), sq("g1"), &c));
    assert!(!c.get_can_white_castle_kingside());
    assert!(c.get_can_white_castle_queenside());
    c.undo();
    assert!(c.get_can_white_castle_kingside());
}

#[test]
fn landing_on_rook_home_square_does_not_revoke_rights() {
    let mut c = BoardConfig::from_fen_str("rnbqkbnr/pppppppp/8/8/8/7N/PPPPPPPP/R1BQKBNR w KQkq - 0 1")
        .unwrap();
    // a knight returning to g1 lands next to h1 but touches no home square
    c.apply_move(Move::infer(sq("h3"), sq("g1"), &c));
    assert!(c.get_can_white_castle_kingside());
    assert!(c.get_can_white_castle_queenside());
}

#[test]
fn occupancy_sets_cover_the_starting_army() {
    let c = BoardConfig::default();
    let w = c.white_occupancy();
    let b = c.black_occupancy();
    let all = c.all_occupancy();
    assert_eq!(w.bits, 0xffff);
    assert_eq!(b.bits, 0xffff_0000_0000_0000);
    assert_eq!(all.bits, w.bits | b.bits);
    assert_eq!(c.get_piece_occupancy(BoardPiece::WhiteKing).bits, 1u64 << 4);
    assert_eq!(c.get_bit_board('K').unwrap().bits, 1u64 << 4);
    assert_eq!(c.get_bit_board('x'), None);
}
