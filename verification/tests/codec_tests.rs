use chrs_lib::bitboard::BitBoard;
use chrs_lib::board::BoardConfig;
use chrs_lib::castle::CastleFlags;
use chrs_lib::fen::FenError;
use chrs_lib::piece::Color;
use chrs_lib::square::Square;

const START: &str = "rnbqkbnr/pppppppp/8/8/8/8/PPPPPPPP/RNBQKBNR w KQkq - 0 1";

#[test]
fn default_serializes_to_the_starting_string() {
    assert_eq!(BoardConfig::default().get_fen(), START);
}

#[test]
fn parse_then_serialize_round_trips_the_starting_string() {
    let c = BoardConfig::from_fen_str(START).unwrap();
    let s = c.get_fen();
    assert_eq!(s, START);
    let c2 = BoardConfig::from_fen_str(&s).unwrap();
    assert_eq!(c2.get_fen(), s);
}

#[test]
fn parse_then_serialize_round_trips_a_middlegame_string() {
    let fen = "r3k2r/p1ppqpb1/bn2pnp1/3PN3/1p2P3/2N2Q1p/PPPBBPPP/R3K2R w KQkq - 4 13";
    let c = BoardConfig::from_fen_str(fen).unwrap();
    let s = c.get_fen();
    assert_eq!(s, fen);
    let c2 = BoardConfig::from_fen_str(&s).unwrap();
    assert_eq!(c2.get_fen(), s);
}

#[test]
fn parse_accepts_non_canonical_runs_and_canonicalizes() {
    let c = BoardConfig::from_fen_str("8/8/8/8/8/8/8/44 w - - 0 1").unwrap();
    assert_eq!(c.get_fen(), "8/8/8/8/8/8/8/8 w - - 0 1");
}

#[test]
fn parse_reads_en_passant_and_counters() {
    let c = BoardConfig::from_fen_str("8/8/8/8/4P3/8/8/8 b - e3 12 34").unwrap();
    assert_eq!(c.get_active_color(), Color::Black);
    assert_eq!(c.get_en_passant_target(), Some(Square::from_algebraic("e3").unwrap()));
    assert_eq!(c.get_halfmove_clock(), 12);
    assert_eq!(c.get_fullmove_number(), 34);
    assert!(!c.get_can_white_castle_kingside());
}

#[test]
fn malformed_placement_is_rejected() {
    assert!(matches!(BoardConfig::from_fen_str("x w - - 0 1"), Err(FenError::Placement)));
    assert!(matches!(BoardConfig::from_fen_str("9/8/8/8/8/8/8/8 w - - 0 1"), Err(FenError::Placement)));
    assert!(matches!(BoardConfig::from_fen_str("8/8/8/8/8/8/8 w - - 0 1"), Err(FenError::Placement)));
}

#[test]
fn malformed_fields_are_rejected() {
    assert!(matches!(BoardConfig::from_fen_str("8/8/8/8/8/8/8/8 x - - 0 1"), Err(FenError::ActiveColor)));
    assert!(matches!(BoardConfig::from_fen_str("8/8/8/8/8/8/8/8 w z - 0 1"), Err(FenError::CastleRights)));
    assert!(matches!(BoardConfig::from_fen_str("8/8/8/8/8/8/8/8 w - z9 0 1"), Err(FenError::EnPassantTarget)));
    assert!(matches!(BoardConfig::from_fen_str("8/8/8/8/8/8/8/8 w - - x 1"), Err(FenError::Counters)));
    assert!(matches!(BoardConfig::from_fen_str("8/8/8/8/8/8/8/8 w - - 99999999999 1"), Err(FenError::Counters)));
    assert!(matches!(BoardConfig::from_fen_str("8/8/8/8/8/8/8/8 w - - 0 1 x"), Err(FenError::Layout)));
    assert!(matches!(BoardConfig::from_fen_str("8/8/8/8/8/8/8/8"), Err(FenError::Layout)));
}

#[test]
fn load_fen_error_leaves_position_unchanged() {
    let mut c = BoardConfig::default();
    let before = c.get_fen();
    assert!(c.load_fen("not a position").is_err());
    assert_eq!(c.get_fen(), before);
    assert!(c.load_fen("8/8/8/8/8/8/8/8 b - - 7 9").is_ok());
    assert_eq!(c.get_fen(), "8/8/8/8/8/8/8/8 b - - 7 9");
}

#[test]
fn square_notation_round_trips() {
    let e4 = Square::from_algebraic("e4").unwrap();
    assert_eq!(e4.idx, 28);
    assert_eq!(e4.file(), 4);
    assert_eq!(e4.rank(), 3);
    assert_eq!(e4.algebraic(), "e4");
    assert_eq!(Square::from_algebraic("a1").unwrap().idx, 0);
    assert_eq!(Square::from_algebraic("h8").unwrap().idx, 63);
    assert_eq!(Square::from_algebraic("i4"), None);
    assert_eq!(Square::from_algebraic("e9"), None);
    assert_eq!(Square::from_algebraic("e"), None);
    assert_eq!(Square::from_algebraic("e44"), None);
}

#[test]
fn castle_flags_are_independent() {
    let mut f = CastleFlags::none();
    assert!(!f.can_white_oo() && !f.can_white_ooo() && !f.can_black_oo() && !f.can_black_ooo());
    f.set_white_oo();
    f.set_black_ooo();
    assert!(f.can_white_oo());
    assert!(!f.can_white_ooo());
    assert!(!f.can_black_oo());
    assert!(f.can_black_ooo());
    f.set_white_ooo();
    f.set_black_oo();
    f.unset_white_oo();
    f.unset_black_ooo();
    assert!(!f.can_white_oo());
    assert!(f.can_white_ooo());
    assert!(f.can_black_oo());
    assert!(!f.can_black_ooo());
    f.unset_white_ooo();
    f.unset_black_oo();
    assert_eq!(f.bits, CastleFlags::none().bits);
    let all = CastleFlags::all();
    assert!(all.can_white_oo() && all.can_white_ooo() && all.can_black_oo() && all.can_black_ooo());
}

#[test]
fn bitboard_membership_and_union() {
    let a = BitBoard::new(0b101);
    let b = BitBoard::new(0b010);
    assert!(a.is_set(Square::new(0)));
    assert!(!a.is_set(Square::new(1)));
    assert!(a.is_set(Square::new(2)));
    assert_eq!(a.union(b).bits, 0b111);
}
